use pc_telemetry::pc_info::{
    clamp_used, cores_to_u8, hostname_or_sentinel, ip_or_sentinel, root_storage, sort_procs_desc,
    top_five_of, PcInfo,
};

#[test]
fn new_snapshot_is_zeroed() {
    let pc = PcInfo::new();
    assert_eq!(pc.ram_bytes(), 0);
    assert_eq!(pc.total_ram_bytes(), 0);
    assert_eq!(pc.cpu_cores(), 0);
    assert!(pc.top_five_processes().is_empty());
    assert_eq!(pc.hostname(), "");
    assert_eq!(pc.ip_addr(), "");
}

#[test]
fn zeroed_snapshot_pretty_json_exact_text() {
    let pc = PcInfo::new();
    assert_eq!(
        pc.to_json(),
        "{\n  \"ram_bytes\": 0,\n  \"cpu_cores\": 0,\n  \"total_ram_bytes\": 0,\n  \"top_five_processes\": [],\n  \"ip_addr\": \"\",\n  \"hostname\": \"\",\n  \"total_storage\": 0,\n  \"used_storage\": 0\n}"
    );
}

#[test]
fn sort_is_descending_and_keeps_entries() {
    let input = vec![
        ("a".to_string(), 5u64),
        ("b".to_string(), 9u64),
        ("c".to_string(), 1u64),
        ("d".to_string(), 9u64),
    ];
    let sorted = sort_procs_desc(input);
    let mems: Vec<u64> = sorted.iter().map(|p| p.1).collect();
    assert_eq!(mems, vec![9, 9, 5, 1]);
    let mut names: Vec<String> = sorted.iter().map(|p| p.0.clone()).collect();
    names.sort();
    assert_eq!(names, vec!["a", "b", "c", "d"]);
}

#[test]
fn top_five_takes_the_heaviest() {
    let input = vec![
        ("a".to_string(), 5u64),
        ("b".to_string(), 9u64),
        ("c".to_string(), 1u64),
        ("d".to_string(), 7u64),
        ("e".to_string(), 3u64),
        ("f".to_string(), 8u64),
    ];
    let top = top_five_of(input);
    assert_eq!(top.len(), 5);
    let expected = vec![
        ("b".to_string(), 9u64),
        ("f".to_string(), 8u64),
        ("d".to_string(), 7u64),
        ("a".to_string(), 5u64),
        ("e".to_string(), 3u64),
    ];
    assert_eq!(top, expected);
}

#[test]
fn top_five_of_fewer_keeps_all() {
    let input = vec![("a".to_string(), 2u64), ("b".to_string(), 4u64)];
    let top = top_five_of(input);
    assert_eq!(
        top,
        vec![("b".to_string(), 4u64), ("a".to_string(), 2u64)]
    );
}

#[test]
fn hostname_sentinel_only_on_failed_query() {
    assert_eq!(hostname_or_sentinel(None), "unknown");
    assert_eq!(hostname_or_sentinel(Some("box1".to_string())), "box1");
}

#[test]
fn ip_sentinel_only_on_failed_query() {
    assert_eq!(ip_or_sentinel(None), "0.0.0.0");
    assert_eq!(ip_or_sentinel(Some("10.0.0.7".to_string())), "10.0.0.7");
}

#[test]
fn root_storage_uses_the_root_mount() {
    let mounts = vec![
        ("/home".to_string(), 500u64, 100u64),
        ("/".to_string(), 100u64, 30u64),
        ("/".to_string(), 999u64, 1u64),
    ];
    assert_eq!(root_storage(&mounts), (100, 70));
}

#[test]
fn root_storage_without_root_mount_is_zero() {
    let mounts = vec![("/home".to_string(), 500u64, 100u64)];
    assert_eq!(root_storage(&mounts), (0, 0));
}

#[test]
fn root_storage_never_underflows() {
    let mounts = vec![("/".to_string(), 10u64, 50u64)];
    assert_eq!(root_storage(&mounts), (10, 0));
}

#[test]
fn core_count_truncates_past_255() {
    assert_eq!(cores_to_u8(5), 5);
    assert_eq!(cores_to_u8(255), 255);
    assert_eq!(cores_to_u8(300), 44);
}

#[test]
fn used_memory_is_capped_at_total() {
    assert_eq!(clamp_used(10, 100), 10);
    assert_eq!(clamp_used(150, 100), 100);
}

#[test]
fn live_snapshot_holds_its_invariants() {
    let mut system = sysinfo::System::new_all();
    let mut pc = PcInfo::new();
    pc.fetch_data(&mut system);
    assert!(pc.ram_bytes() <= pc.total_ram_bytes());
    let top = pc.top_five_processes();
    assert!(top.len() <= 5);
    for w in top.windows(2) {
        assert!(w[0].1 >= w[1].1);
    }
    assert!(!pc.hostname().is_empty());
    assert!(!pc.ip_addr().is_empty());
}

#[test]
fn live_snapshot_json_parses_with_all_fields() {
    let mut system = sysinfo::System::new_all();
    let mut pc = PcInfo::new();
    pc.fetch_data(&mut system);
    let v: serde_json::Value = serde_json::from_str(&pc.to_json()).unwrap();
    assert!(v["ram_bytes"].is_u64());
    assert!(v["cpu_cores"].is_u64());
    assert!(v["total_ram_bytes"].is_u64());
    assert!(v["top_five_processes"].is_array());
    assert!(v["ip_addr"].is_string());
    assert!(v["hostname"].is_string());
    assert!(v["total_storage"].is_u64());
    assert!(v["used_storage"].is_u64());
    let compact: serde_json::Value = serde_json::from_str(&pc.render_json(false)).unwrap();
    assert_eq!(v, compact);
}

#[test]
fn process_names_round_trip_through_json() {
    let mut pc = PcInfo::new();
    let mut system = sysinfo::System::new_all();
    pc.fetch_data(&mut system);
    let v: serde_json::Value = serde_json::from_str(&pc.render_json(false)).unwrap();
    let arr = v["top_five_processes"].as_array().unwrap();
    let top = pc.top_five_processes();
    assert_eq!(arr.len(), top.len());
    for (entry, expect) in arr.iter().zip(top.iter()) {
        let pair = entry.as_array().unwrap();
        assert_eq!(pair[0].as_str().unwrap(), expect.0);
        assert_eq!(pair[1].as_u64().unwrap(), expect.1);
    }
}

#[test]
fn live_queries_fall_back_to_sentinels_only_on_failure() {
    let host = pc_telemetry::pc_info::get_hostname();
    let ip = pc_telemetry::pc_info::get_ip_addr();
    assert!(!host.is_empty());
    assert!(!ip.is_empty());
}
