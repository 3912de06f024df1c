//! The telemetry snapshot: a point-in-time record of host memory, CPU core
//! count, the heaviest processes, network identity and root-filesystem use.

use vstd::prelude::*;
use crate::os_query::{
    sys_refresh_all, sys_used_memory, sys_total_memory, sys_cpu_count, sys_processes,
    disk_mounts, query_hostname, query_local_ip,
};
use crate::json::{
    json_string, dec_nat, ws_open, ws_sp, ws_mid, ws_close, push_lit, push_json_string, push_u64,
    chars_to_string, lemma_dec_nat_digits,
};
use crate::parse::{
    parse_lit, skip_ws, parse_string, parse_u64, lemma_parse_lit_at, lemma_skip_ws_run,
    lemma_parse_string_at, lemma_parse_u64_at, lemma_ws_chars, lemma_peel, is_ws,
};
use vstd::seq_lib::lemma_concat_associative;

verus! {

broadcast use vstd::seq_lib::group_to_multiset_ensures;

/// An immutable snapshot of host telemetry, zeroed at construction and
/// populated by one refresh.
pub struct PcInfo {
    ram_bytes: u64,
    cpu_cores: u8,
    total_ram_bytes: u64,
    top_five_processes: Vec<(String, u64)>,
    ip_addr: String,
    hostname: String,
    total_storage: u64,
    used_storage: u64,
}

/// The mathematical value of a `PcInfo`: each process as its name's
/// characters paired with its resident memory.
pub struct PcInfoV {
    pub ram_bytes: u64,
    pub cpu_cores: u8,
    pub total_ram_bytes: u64,
    pub top_five_processes: Seq<(Seq<char>, u64)>,
    pub ip_addr: Seq<char>,
    pub hostname: Seq<char>,
    pub total_storage: u64,
    pub used_storage: u64,
}

/// Each process entry as its mathematical value.
pub open spec fn procs_view(v: Seq<(String, u64)>) -> Seq<(Seq<char>, u64)> {
    v.map_values(|p: (String, u64)| (p.0@, p.1))
}

impl View for PcInfo {
    type V = PcInfoV;

    closed spec fn view(&self) -> PcInfoV {
        PcInfoV {
            ram_bytes: self.ram_bytes,
            cpu_cores: self.cpu_cores,
            total_ram_bytes: self.total_ram_bytes,
            top_five_processes: procs_view(self.top_five_processes@),
            ip_addr: self.ip_addr@,
            hostname: self.hostname@,
            total_storage: self.total_storage,
            used_storage: self.used_storage,
        }
    }
}

impl PcInfo {
    /// A zeroed snapshot: every number 0, every string empty, no processes.
    pub fn new() -> (r: Self)
        ensures
            r@.ram_bytes == 0,
            r@.cpu_cores == 0,
            r@.total_ram_bytes == 0,
            r@.top_five_processes.len() == 0,
            r@.ip_addr.len() == 0,
            r@.hostname.len() == 0,
            r@.total_storage == 0,
            r@.used_storage == 0,
            r@.wf(),
    {
        PcInfo {
            ram_bytes: 0,
            cpu_cores: 0,
            total_ram_bytes: 0,
            top_five_processes: Vec::new(),
            ip_addr: String::new(),
            hostname: String::new(),
            total_storage: 0,
            used_storage: 0,
        }
    }

    pub fn hostname(&self) -> (r: &str)
        ensures
            r@ == self@.hostname,
    {
        self.hostname.as_str()
    }

    pub fn ip_addr(&self) -> (r: &str)
        ensures
            r@ == self@.ip_addr,
    {
        self.ip_addr.as_str()
    }

    pub fn ram_bytes(&self) -> (r: u64)
        ensures
            r == self@.ram_bytes,
    {
        self.ram_bytes
    }

    pub fn total_ram_bytes(&self) -> (r: u64)
        ensures
            r == self@.total_ram_bytes,
    {
        self.total_ram_bytes
    }

    pub fn cpu_cores(&self) -> (r: u8)
        ensures
            r == self@.cpu_cores,
    {
        self.cpu_cores
    }

    pub fn top_five_processes(&self) -> (r: &[(String, u64)])
        ensures
            procs_view(r@) == self@.top_five_processes,
    {
        self.top_five_processes.as_slice()
    }

    /// Populate every field from one refresh of the given OS handle, so that
    /// the whole snapshot reflects a single collection cycle. Whatever the
    /// machine reports, the snapshot's invariants hold afterwards; a failing
    /// hostname or address query yields its sentinel, a missing root mount
    /// yields zero storage. This operation cannot fail.
    pub fn fetch_data(&mut self, system: &mut sysinfo::System)
        ensures
            final(self)@.wf(),
    {
        sys_refresh_all(system);

        let total = sys_total_memory(system);
        let used = clamp_used(sys_used_memory(system), total);
        self.ram_bytes = used;
        self.total_ram_bytes = total;
        self.cpu_cores = cores_to_u8(sys_cpu_count(system));

        let procs = sys_processes(system);
        self.top_five_processes = top_five_of(procs);

        self.ip_addr = get_ip_addr();
        self.hostname = get_hostname();

        let mounts = disk_mounts();
        let storage = root_storage(&mounts);
        self.total_storage = storage.0;
        self.used_storage = storage.1;

        proof {
            lemma_procs_view_sorted(self.top_five_processes@);
        }
    }
}

impl PcInfoV {
    /// The invariants of every populated snapshot: memory in use never
    /// exceeds the total, storage in use never exceeds the total, and the
    /// process list holds at most five entries in non-increasing order of
    /// resident memory.
    pub open spec fn wf(self) -> bool {
        &&& self.ram_bytes <= self.total_ram_bytes
        &&& self.used_storage <= self.total_storage
        &&& self.top_five_processes.len() <= 5
        &&& view_sorted_desc(self.top_five_processes)
    }
}

/// Non-increasing resident memory, over process entries.
pub open spec fn mems_sorted_desc(s: Seq<(String, u64)>) -> bool {
    forall|i: int, j: int| 0 <= i < j < s.len() ==> s[i].1 >= s[j].1
}

/// Non-increasing resident memory, over entry values.
pub open spec fn view_sorted_desc(s: Seq<(Seq<char>, u64)>) -> bool {
    forall|i: int, j: int| 0 <= i < j < s.len() ==> s[i].1 >= s[j].1
}

proof fn lemma_procs_view_sorted(s: Seq<(String, u64)>)
    requires
        mems_sorted_desc(s),
    ensures
        view_sorted_desc(procs_view(s)),
{
    assert forall|i: int, j: int| 0 <= i < j < procs_view(s).len() implies procs_view(s)[i].1
        >= procs_view(s)[j].1 by {
        assert(procs_view(s)[i].1 == s[i].1);
        assert(procs_view(s)[j].1 == s[j].1);
    }
}

/// Memory in use, capped at the total so that the record invariant holds
/// whatever the OS reports.
pub fn clamp_used(used: u64, total: u64) -> (r: u64)
    ensures
        r == (if used <= total {
            used
        } else {
            total
        }),
        r <= total,
{
    if used <= total {
        used
    } else {
        total
    }
}

/// The core count as the record's 8-bit field: the enumerated count,
/// truncated if it exceeds 255.
pub fn cores_to_u8(n: usize) -> (r: u8)
    ensures
        r as int == n as int % 256,
{
    let m: usize = n % 256;
    m as u8
}

/// Sort process entries by resident memory, heaviest first, keeping exactly
/// the same entries. Equal memory values keep no particular order.
pub fn sort_procs_desc(input: Vec<(String, u64)>) -> (r: Vec<(String, u64)>)
    ensures
        r@.len() == input@.len(),
        mems_sorted_desc(r@),
        r@.to_multiset() == input@.to_multiset(),
{
    let mut rest = input;
    let mut out: Vec<(String, u64)> = Vec::new();
    while rest.len() > 0
        invariant
            out@.len() + rest@.len() == input@.len(),
            mems_sorted_desc(out@),
            out@.to_multiset().add(rest@.to_multiset()) == input@.to_multiset(),
            forall|i: int, j: int|
                0 <= i < out@.len() && 0 <= j < rest@.len() ==> out@[i].1 >= rest@[j].1,
        decreases rest@.len(),
    {
        let mut m: usize = 0;
        let mut i: usize = 1;
        while i < rest.len()
            invariant
                rest@.len() > 0,
                m < i <= rest@.len(),
                forall|k: int| 0 <= k < i ==> rest@[m as int].1 >= rest@[k as int].1,
            decreases rest@.len() - i,
        {
            if rest[i].1 > rest[m].1 {
                m = i;
            }
            i = i + 1;
        }
        let ghost old_out = out@;
        let ghost old_rest = rest@;
        let x = rest.remove(m);
        out.push(x);
        proof {
            assert(old_rest.to_multiset().count(x) > 0);
            assert(out@.to_multiset().add(rest@.to_multiset()) =~= input@.to_multiset());
        }
    }
    out
}

/// At most the first five entries of a descending sort of the list: the
/// heaviest processes the host runs, fewer than five only when the host has
/// fewer. The witness sequence is one full descending ordering of the input.
pub fn top_five_of(list: Vec<(String, u64)>) -> (r: Vec<(String, u64)>)
    ensures
        r@.len() == (if list@.len() <= 5 {
            list@.len()
        } else {
            5
        }),
        mems_sorted_desc(r@),
        exists|s: Seq<(String, u64)>|
            (#[trigger] s.to_multiset()) == list@.to_multiset() && mems_sorted_desc(s) && r@
                == s.take(r@.len() as int),
{
    let ghost orig = list@;
    let mut sorted = sort_procs_desc(list);
    let ghost full = sorted@;
    if sorted.len() > 5 {
        sorted.truncate(5);
        proof {
            assert(sorted@ == full.take(5));
            assert(full.to_multiset() == orig.to_multiset() && mems_sorted_desc(full) && sorted@
                == full.take(sorted@.len() as int));
        }
    } else {
        proof {
            assert(sorted@ =~= full.take(sorted@.len() as int));
            assert(full.to_multiset() == orig.to_multiset() && mems_sorted_desc(full) && sorted@
                == full.take(sorted@.len() as int));
        }
    }
    sorted
}

/// The hostname a successful query reported, or the `"unknown"` sentinel
/// exactly when the query failed.
pub fn hostname_or_sentinel(q: Option<String>) -> (r: String)
    ensures
        (match q {
            Some(s) => r@ == s@,
            None => r@ == "unknown"@,
        }),
{
    match q {
        Some(s) => s,
        None => "unknown".to_owned(),
    }
}

/// The address a successful query reported, or the `"0.0.0.0"` sentinel
/// exactly when the query failed.
pub fn ip_or_sentinel(q: Option<String>) -> (r: String)
    ensures
        (match q {
            Some(s) => r@ == s@,
            None => r@ == "0.0.0.0"@,
        }),
{
    match q {
        Some(s) => s,
        None => "0.0.0.0".to_owned(),
    }
}

/// The OS-reported hostname, or the `"unknown"` sentinel when the query
/// fails. The value depends on the machine; the sentinel rule is stated and
/// proved of `hostname_or_sentinel`.
pub fn get_hostname() -> String {
    hostname_or_sentinel(query_hostname())
}

/// The host's primary address, or the `"0.0.0.0"` sentinel when it cannot be
/// determined. The value depends on the machine; the sentinel rule is stated
/// and proved of `ip_or_sentinel`.
pub fn get_ip_addr() -> String {
    ip_or_sentinel(query_local_ip())
}

/// `a - b`, stopping at zero.
pub open spec fn sat_sub(a: u64, b: u64) -> u64 {
    if a >= b {
        (a - b) as u64
    } else {
        0u64
    }
}

/// The storage pair that a list of mounts yields: the first mount at the
/// filesystem root gives (total, total - available); no root mount gives
/// (0, 0).
pub open spec fn root_spec(mounts: Seq<(String, u64, u64)>) -> (u64, u64)
    decreases mounts.len(),
{
    if mounts.len() == 0 {
        (0u64, 0u64)
    } else if mounts[0].0@ == "/"@ {
        (mounts[0].1, sat_sub(mounts[0].1, mounts[0].2))
    } else {
        root_spec(mounts.drop_first())
    }
}

proof fn lemma_root_spec_le(mounts: Seq<(String, u64, u64)>)
    ensures
        root_spec(mounts).1 <= root_spec(mounts).0,
    decreases mounts.len(),
{
    if mounts.len() > 0 && mounts[0].0@ != "/"@ {
        lemma_root_spec_le(mounts.drop_first());
    }
}

/// Size and in-use space of the root filesystem mount, from the mount list:
/// in use is total minus available (never below zero), and both are 0 when
/// no mount point is the filesystem root.
pub fn root_storage(mounts: &Vec<(String, u64, u64)>) -> (r: (u64, u64))
    ensures
        r == root_spec(mounts@),
        r.1 <= r.0,
{
    proof {
        lemma_root_spec_le(mounts@);
    }
    let root = "/".to_owned();
    let n = mounts.len();
    let mut i: usize = 0;
    proof {
        assert(mounts@.skip(0) =~= mounts@);
    }
    while i < n
        invariant
            i <= n,
            n == mounts@.len(),
            root@ == "/"@,
            root_spec(mounts@.skip(i as int)) == root_spec(mounts@),
        decreases n - i,
    {
        if mounts[i].0 == root {
            proof {
                assert(mounts@.skip(i as int)[0] == mounts@[i as int]);
            }
            let total = mounts[i].1;
            let avail = mounts[i].2;
            let used = if total >= avail {
                total - avail
            } else {
                0
            };
            return (total, used);
        }
        proof {
            assert(mounts@.skip(i as int)[0] == mounts@[i as int]);
            assert(mounts@.skip(i as int).drop_first() =~= mounts@.skip(i as int + 1));
        }
        i = i + 1;
    }
    proof {
        assert(mounts@.skip(n as int).len() == 0);
    }
    (0, 0)
}

// ---------------------------------------------------------------------------
// JSON rendering of a snapshot
// ---------------------------------------------------------------------------

/// One process entry as a JSON two-element array: name, resident memory.
pub open spec fn entry_json(e: (Seq<char>, u64)) -> Seq<char> {
    "["@ + json_string(e.0) + ","@ + dec_nat(e.1 as nat) + "]"@
}

/// The comma-joined entries of the process array.
pub open spec fn procs_json(l: Seq<(Seq<char>, u64)>) -> Seq<char>
    decreases l.len(),
{
    if l.len() == 0 {
        Seq::empty()
    } else if l.len() == 1 {
        entry_json(l[0])
    } else {
        entry_json(l[0]) + ","@ + procs_json(l.drop_first())
    }
}

/// The full process array token.
pub open spec fn list_json(l: Seq<(Seq<char>, u64)>) -> Seq<char> {
    "["@ + procs_json(l) + "]"@
}

pub proof fn lemma_procs_json_snoc(l: Seq<(Seq<char>, u64)>, e: (Seq<char>, u64))
    ensures
        l.len() == 0 ==> procs_json(l.push(e)) == entry_json(e),
        l.len() > 0 ==> procs_json(l.push(e)) == procs_json(l) + ","@ + entry_json(e),
    decreases l.len(),
{
    if l.len() == 0 {
        assert(l.push(e)[0] == e);
    } else if l.len() == 1 {
        assert(l.push(e)[0] == l[0]);
        assert(l.push(e).drop_first() =~= seq![e]);
        assert(procs_json(seq![e]) == entry_json(e));
        assert(procs_json(l.push(e)) == entry_json(l[0]) + ","@ + entry_json(e));
        assert(procs_json(l) == entry_json(l[0]));
    } else {
        lemma_procs_json_snoc(l.drop_first(), e);
        assert(l.push(e)[0] == l[0]);
        assert(l.push(e).drop_first() =~= l.drop_first().push(e));
        assert(procs_json(l.push(e)) == entry_json(l[0]) + ","@ + (procs_json(l.drop_first())
            + ","@ + entry_json(e)));
        assert(procs_json(l) == entry_json(l[0]) + ","@ + procs_json(l.drop_first()));
        assert(entry_json(l[0]) + ","@ + (procs_json(l.drop_first()) + ","@ + entry_json(e))
            =~= procs_json(l) + ","@ + entry_json(e));
    }
}

/// Append one process entry.
fn push_entry(out: &mut Vec<char>, name: &String, mem: u64)
    ensures
        final(out)@ == old(out)@ + entry_json((name@, mem)),
{
    push_lit(out, "[");
    push_json_string(out, name.as_str());
    push_lit(out, ",");
    push_u64(out, mem);
    push_lit(out, "]");
    proof {
        assert(out@ =~= old(out)@ + entry_json((name@, mem)));
    }
}

/// Append the whole process array.
fn push_procs(out: &mut Vec<char>, l: &Vec<(String, u64)>)
    ensures
        final(out)@ == old(out)@ + list_json(procs_view(l@)),
{
    let ghost lv = procs_view(l@);
    push_lit(out, "[");
    let ghost base = out@;
    let n = l.len();
    let mut i: usize = 0;
    while i < n
        invariant
            i <= n,
            n == l@.len(),
            lv == procs_view(l@),
            lv.len() == n,
            out@ == base + procs_json(lv.take(i as int)),
        decreases n - i,
    {
        if i > 0 {
            push_lit(out, ",");
        }
        let entry = &l[i];
        push_entry(out, &entry.0, entry.1);
        proof {
            lemma_procs_json_snoc(lv.take(i as int), lv[i as int]);
            assert(lv.take(i as int).push(lv[i as int]) =~= lv.take(i as int + 1));
            assert(lv[i as int] == (l@[i as int].0@, l@[i as int].1));
            if i == 0 {
                assert(out@ =~= base + procs_json(lv.take(i as int + 1)));
            } else {
                assert(out@ =~= base + procs_json(lv.take(i as int + 1)));
            }
        }
        i = i + 1;
    }
    proof {
        assert(lv.take(n as int) =~= lv);
    }
    push_lit(out, "]");
    proof {
        assert(out@ =~= old(out)@ + list_json(procs_view(l@)));
    }
}

/// The JSON document for a snapshot, compact or pretty.
pub open spec fn pc_json(v: PcInfoV, pretty: bool) -> Seq<char> {
    "{"@ + ws_open(pretty) + "\"ram_bytes\""@ + ":"@ + ws_sp(pretty) + dec_nat(v.ram_bytes as nat)
        + ","@ + ws_mid(pretty) + "\"cpu_cores\""@ + ":"@ + ws_sp(pretty) + dec_nat(
        v.cpu_cores as nat,
    ) + ","@ + ws_mid(pretty) + "\"total_ram_bytes\""@ + ":"@ + ws_sp(pretty) + dec_nat(
        v.total_ram_bytes as nat,
    ) + ","@ + ws_mid(pretty) + "\"top_five_processes\""@ + ":"@ + ws_sp(pretty) + list_json(
        v.top_five_processes,
    ) + ","@ + ws_mid(pretty) + "\"ip_addr\""@ + ":"@ + ws_sp(pretty) + json_string(v.ip_addr)
        + ","@ + ws_mid(pretty) + "\"hostname\""@ + ":"@ + ws_sp(pretty) + json_string(v.hostname)
        + ","@ + ws_mid(pretty) + "\"total_storage\""@ + ":"@ + ws_sp(pretty) + dec_nat(
        v.total_storage as nat,
    ) + ","@ + ws_mid(pretty) + "\"used_storage\""@ + ":"@ + ws_sp(pretty) + dec_nat(
        v.used_storage as nat,
    ) + ws_close(pretty) + "}"@
}

impl PcInfo {
    /// Render the snapshot as JSON text, compact or pretty-printed.
    /// Rendering a well-formed record never fails.
    #[verifier::rlimit(100)]
    pub fn render_json(&self, pretty: bool) -> (s: String)
        ensures
            s@ == pc_json(self@, pretty),
    {
        let mut out: Vec<char> = Vec::new();
        push_lit(&mut out, "{");
        if pretty {
            push_lit(&mut out, "\n  ");
        }
        push_lit(&mut out, "\"ram_bytes\"");
        push_lit(&mut out, ":");
        if pretty {
            push_lit(&mut out, " ");
        }
        push_u64(&mut out, self.ram_bytes);
        push_lit(&mut out, ",");
        if pretty {
            push_lit(&mut out, "\n  ");
        }
        push_lit(&mut out, "\"cpu_cores\"");
        push_lit(&mut out, ":");
        if pretty {
            push_lit(&mut out, " ");
        }
        push_u64(&mut out, self.cpu_cores as u64);
        push_lit(&mut out, ",");
        if pretty {
            push_lit(&mut out, "\n  ");
        }
        push_lit(&mut out, "\"total_ram_bytes\"");
        push_lit(&mut out, ":");
        if pretty {
            push_lit(&mut out, " ");
        }
        push_u64(&mut out, self.total_ram_bytes);
        push_lit(&mut out, ",");
        if pretty {
            push_lit(&mut out, "\n  ");
        }
        push_lit(&mut out, "\"top_five_processes\"");
        push_lit(&mut out, ":");
        if pretty {
            push_lit(&mut out, " ");
        }
        push_procs(&mut out, &self.top_five_processes);
        push_lit(&mut out, ",");
        if pretty {
            push_lit(&mut out, "\n  ");
        }
        push_lit(&mut out, "\"ip_addr\"");
        push_lit(&mut out, ":");
        if pretty {
            push_lit(&mut out, " ");
        }
        push_json_string(&mut out, self.ip_addr.as_str());
        push_lit(&mut out, ",");
        if pretty {
            push_lit(&mut out, "\n  ");
        }
        push_lit(&mut out, "\"hostname\"");
        push_lit(&mut out, ":");
        if pretty {
            push_lit(&mut out, " ");
        }
        push_json_string(&mut out, self.hostname.as_str());
        push_lit(&mut out, ",");
        if pretty {
            push_lit(&mut out, "\n  ");
        }
        push_lit(&mut out, "\"total_storage\"");
        push_lit(&mut out, ":");
        if pretty {
            push_lit(&mut out, " ");
        }
        push_u64(&mut out, self.total_storage);
        push_lit(&mut out, ",");
        if pretty {
            push_lit(&mut out, "\n  ");
        }
        push_lit(&mut out, "\"used_storage\"");
        push_lit(&mut out, ":");
        if pretty {
            push_lit(&mut out, " ");
        }
        push_u64(&mut out, self.used_storage);
        if pretty {
            push_lit(&mut out, "\n");
        }
        push_lit(&mut out, "}");
        proof {
            broadcast use Seq::<_>::add_empty_left, Seq::<_>::add_empty_right;

            if pretty {
                assert(out@ == pc_json(self@, true));
            } else {
                assert(out@ == pc_json(self@, false));
            }
        }
        chars_to_string(&out)
    }

    /// The snapshot as pretty-printed JSON.
    pub fn to_json(&self) -> (s: String)
        ensures
            s@ == pc_json(self@, true),
    {
        self.render_json(true)
    }
}


// ---------------------------------------------------------------------------
// The mathematical deserializer for a snapshot document
// ---------------------------------------------------------------------------

/// One process entry: a two-element array of name and resident memory.
pub open spec fn parse_entry(s: Seq<char>, i: int) -> Option<((Seq<char>, u64), int)> {
    match parse_lit(s, i, "["@) {
        None => None,
        Some(i1) => match parse_string(s, i1) {
            None => None,
            Some((name, i2)) => match parse_lit(s, i2, ","@) {
                None => None,
                Some(i3) => match parse_u64(s, i3) {
                    None => None,
                    Some((mem, i4)) => match parse_lit(s, i4, "]"@) {
                        None => None,
                        Some(i5) => Some(((name, mem), i5)),
                    },
                },
            },
        },
    }
}

/// The entries of the process array, after its opening bracket, up to and
/// including its closing bracket.
pub open spec fn parse_procs(s: Seq<char>, i: int) -> Option<(Seq<(Seq<char>, u64)>, int)>
    decreases s.len() - i,
{
    match parse_lit(s, i, "]"@) {
        Some(j) => Some((Seq::empty(), j)),
        None => match parse_entry(s, i) {
            None => None,
            Some((e, j)) => match parse_lit(s, j, "]"@) {
                Some(k) => Some((seq![e], k)),
                None => match parse_lit(s, j, ","@) {
                    Some(k) => if i < k && k <= s.len() {
                        match parse_procs(s, k) {
                            None => None,
                            Some((l, m)) => Some((seq![e] + l, m)),
                        }
                    } else {
                        None
                    },
                    None => None,
                },
            },
        },
    }
}

/// The whole process array token.
pub open spec fn parse_list(s: Seq<char>, i: int) -> Option<(Seq<(Seq<char>, u64)>, int)> {
    match parse_lit(s, i, "["@) {
        None => None,
        Some(j) => parse_procs(s, j),
    }
}

proof fn lemma_parse_entry_at(e: (Seq<char>, u64), s: Seq<char>, i: int, tail: Seq<char>)
    requires
        0 <= i <= s.len(),
        s.subrange(i, s.len() as int) == entry_json(e) + tail,
    ensures
        parse_entry(s, i) == Some((e, i + entry_json(e).len())),
        i + entry_json(e).len() <= s.len(),
        s.subrange(i + entry_json(e).len(), s.len() as int) == tail,
{
    reveal_strlit("[");
    reveal_strlit("]");
    reveal_strlit(",");
    let r4 = "]"@ + tail;
    let r3 = dec_nat(e.1 as nat) + r4;
    let r2 = ","@ + r3;
    let r1 = json_string(e.0) + r2;
    assert(entry_json(e) + tail =~= "["@ + r1);
    lemma_parse_lit_at(s, i, "["@, r1);
    let i1: int = i + 1;
    lemma_parse_string_at(e.0, s, i1, r2);
    let i2: int = i1 + json_string(e.0).len() as int;
    lemma_parse_lit_at(s, i2, ","@, r3);
    let i3: int = i2 + 1;
    assert(r4[0] == ']');
    assert((']' as u32) == 93);
    lemma_parse_u64_at(e.1, s, i3, r4);
    let i4: int = i3 + dec_nat(e.1 as nat).len() as int;
    lemma_parse_lit_at(s, i4, "]"@, tail);
    assert(i4 + 1 == i + entry_json(e).len());
}

proof fn lemma_parse_procs_at(l: Seq<(Seq<char>, u64)>, s: Seq<char>, i: int, tail: Seq<char>)
    requires
        0 <= i <= s.len(),
        s.subrange(i, s.len() as int) == procs_json(l) + ("]"@ + tail),
    ensures
        parse_procs(s, i) == Some((l, i + procs_json(l).len() + 1)),
        i + procs_json(l).len() + 1 <= s.len(),
        s.subrange(i + procs_json(l).len() + 1, s.len() as int) == tail,
    decreases l.len(),
{
    reveal_strlit("[");
    reveal_strlit("]");
    reveal_strlit(",");
    assert(('[' as u32) == 91 && (']' as u32) == 93 && (',' as u32) == 44);
    if l.len() == 0 {
        assert(procs_json(l) + ("]"@ + tail) =~= "]"@ + tail);
        lemma_parse_lit_at(s, i, "]"@, tail);
        assert(parse_procs(s, i) == Some((Seq::<(Seq<char>, u64)>::empty(), i + 1)));
        assert(l =~= Seq::<(Seq<char>, u64)>::empty());
    } else if l.len() == 1 {
        assert(procs_json(l) == entry_json(l[0]));
        lemma_parse_entry_at(l[0], s, i, "]"@ + tail);
        let j: int = i + entry_json(l[0]).len() as int;
        lemma_parse_lit_at(s, j, "]"@, tail);
        assert(s[i] == entry_json(l[0])[0]) by {
            lemma_peel(s, i, entry_json(l[0]), "]"@ + tail);
        }
        assert(entry_json(l[0])[0] == '[');
        if i + 1 <= s.len() && s.subrange(i, i + 1) == "]"@ {
            assert(s.subrange(i, i + 1)[0] == s[i]);
            assert(false);
        }
        assert(parse_lit(s, i, "]"@) is None);
        assert(seq![l[0]] =~= l);
    } else {
        let rest = l.drop_first();
        assert(procs_json(l) == entry_json(l[0]) + ","@ + procs_json(rest));
        assert(procs_json(l) + ("]"@ + tail) =~= entry_json(l[0]) + (","@ + (procs_json(rest)
            + ("]"@ + tail))));
        lemma_parse_entry_at(l[0], s, i, ","@ + (procs_json(rest) + ("]"@ + tail)));
        let j: int = i + entry_json(l[0]).len() as int;
        assert(s[i] == entry_json(l[0])[0]) by {
            lemma_peel(s, i, entry_json(l[0]), ","@ + (procs_json(rest) + ("]"@ + tail)));
        }
        assert(entry_json(l[0])[0] == '[');
        if i + 1 <= s.len() && s.subrange(i, i + 1) == "]"@ {
            assert(s.subrange(i, i + 1)[0] == s[i]);
            assert(false);
        }
        assert(parse_lit(s, i, "]"@) is None);
        assert(s[j] == (","@ + (procs_json(rest) + ("]"@ + tail)))[0]) by {
            lemma_peel(s, j, ","@, procs_json(rest) + ("]"@ + tail));
        }
        assert(s[j] == ',');
        if j + 1 <= s.len() && s.subrange(j, j + 1) == "]"@ {
            assert(s.subrange(j, j + 1)[0] == s[j]);
            assert(false);
        }
        assert(parse_lit(s, j, "]"@) is None);
        lemma_parse_lit_at(s, j, ","@, procs_json(rest) + ("]"@ + tail));
        let k: int = j + 1;
        lemma_parse_procs_at(rest, s, k, tail);
        assert(seq![l[0]] + rest =~= l);
        assert(parse_procs(s, i) == Some((l, i + procs_json(l).len() + 1)));
    }
}

proof fn lemma_parse_list_at(l: Seq<(Seq<char>, u64)>, s: Seq<char>, i: int, tail: Seq<char>)
    requires
        0 <= i <= s.len(),
        s.subrange(i, s.len() as int) == list_json(l) + tail,
    ensures
        parse_list(s, i) == Some((l, i + list_json(l).len())),
        i + list_json(l).len() <= s.len(),
        s.subrange(i + list_json(l).len(), s.len() as int) == tail,
{
    reveal_strlit("[");
    assert(list_json(l) + tail =~= "["@ + (procs_json(l) + ("]"@ + tail)));
    lemma_parse_lit_at(s, i, "["@, procs_json(l) + ("]"@ + tail));
    lemma_parse_procs_at(l, s, i + 1, tail);
    assert(i + 1 + procs_json(l).len() + 1 == i + list_json(l).len());
}


/// The rendered snapshot document, token-then-rest.
pub open spec fn pc_text(v: PcInfoV, p: bool) -> Seq<char> {
    "{"@ + (ws_open(p) + ("\"ram_bytes\""@ + (":"@ + (ws_sp(p) + (dec_nat(v.ram_bytes as nat) + (","@ + pcb_text(v, p)))))))
}

/// The rendered snapshot document from the `cpu_cores` key on, token-then-rest.
pub open spec fn pcb_text(v: PcInfoV, p: bool) -> Seq<char> {
    ws_mid(p) + ("\"cpu_cores\""@ + (":"@ + (ws_sp(p) + (dec_nat(v.cpu_cores as nat) + (","@ + pcc_text(v, p))))))
}

/// The rendered snapshot document from the `total_ram_bytes` key on, token-then-rest.
pub open spec fn pcc_text(v: PcInfoV, p: bool) -> Seq<char> {
    ws_mid(p) + ("\"total_ram_bytes\""@ + (":"@ + (ws_sp(p) + (dec_nat(v.total_ram_bytes as nat) + (","@ + pcd_text(v, p))))))
}

/// The rendered snapshot document from the `top_five_processes` key on, token-then-rest.
pub open spec fn pcd_text(v: PcInfoV, p: bool) -> Seq<char> {
    ws_mid(p) + ("\"top_five_processes\""@ + (":"@ + (ws_sp(p) + (list_json(v.top_five_processes) + (","@ + pce_text(v, p))))))
}

/// The rendered snapshot document from the `ip_addr` key on, token-then-rest.
pub open spec fn pce_text(v: PcInfoV, p: bool) -> Seq<char> {
    ws_mid(p) + ("\"ip_addr\""@ + (":"@ + (ws_sp(p) + (json_string(v.ip_addr) + (","@ + pcf_text(v, p))))))
}

/// The rendered snapshot document from the `hostname` key on, token-then-rest.
pub open spec fn pcf_text(v: PcInfoV, p: bool) -> Seq<char> {
    ws_mid(p) + ("\"hostname\""@ + (":"@ + (ws_sp(p) + (json_string(v.hostname) + (","@ + pcg_text(v, p))))))
}

/// The rendered snapshot document from the `total_storage` key on, token-then-rest.
pub open spec fn pcg_text(v: PcInfoV, p: bool) -> Seq<char> {
    ws_mid(p) + ("\"total_storage\""@ + (":"@ + (ws_sp(p) + (dec_nat(v.total_storage as nat) + (","@ + pch_text(v, p))))))
}

/// The rendered snapshot document from the `used_storage` key on, token-then-rest.
pub open spec fn pch_text(v: PcInfoV, p: bool) -> Seq<char> {
    ws_mid(p) + ("\"used_storage\""@ + (":"@ + (ws_sp(p) + (dec_nat(v.used_storage as nat) + (ws_close(p) + "}"@)))))
}

/// The mathematical deserializer for a snapshot document.
pub open spec fn parse_pc(s: Seq<char>) -> Option<PcInfoV> {
    match parse_lit(s, 0, "{"@) {
        None => None,
        Some(i0) => match parse_lit(s, skip_ws(s, i0), "\"ram_bytes\""@) {
        None => None,
        Some(i1) => match parse_lit(s, i1, ":"@) {
            None => None,
            Some(i2) => match parse_u64(s, skip_ws(s, i2)) {
                    None => None,
                    Some((ramv, i3)) => match parse_lit(s, i3, ","@) {
                        None => None,
                        Some(i4) => parse_pc_b(s, i4, ramv),
                    },
                },
        },
    }}
}

/// The rest of a snapshot document, from the `cpu_cores` key on.
pub open spec fn parse_pc_b(s: Seq<char>, i: int, ram: u64) -> Option<PcInfoV> {
    match parse_lit(s, skip_ws(s, i), "\"cpu_cores\""@) {
        None => None,
        Some(i1) => match parse_lit(s, i1, ":"@) {
            None => None,
            Some(i2) => match parse_u64(s, skip_ws(s, i2)) {
                    None => None,
                    Some((cand, i3)) => if cand <= 255 {
                        match parse_lit(s, i3, ","@) {
                            None => None,
                            Some(i4) => parse_pc_c(s, i4, ram, cand as u8),
                        }
                    } else {
                        None
                    },
                },
        },
    }
}

/// The rest of a snapshot document, from the `total_ram_bytes` key on.
pub open spec fn parse_pc_c(s: Seq<char>, i: int, ram: u64, cpu: u8) -> Option<PcInfoV> {
    match parse_lit(s, skip_ws(s, i), "\"total_ram_bytes\""@) {
        None => None,
        Some(i1) => match parse_lit(s, i1, ":"@) {
            None => None,
            Some(i2) => match parse_u64(s, skip_ws(s, i2)) {
                    None => None,
                    Some((tramv, i3)) => match parse_lit(s, i3, ","@) {
                        None => None,
                        Some(i4) => parse_pc_d(s, i4, ram, cpu, tramv),
                    },
                },
        },
    }
}

/// The rest of a snapshot document, from the `top_five_processes` key on.
pub open spec fn parse_pc_d(s: Seq<char>, i: int, ram: u64, cpu: u8, tram: u64) -> Option<PcInfoV> {
    match parse_lit(s, skip_ws(s, i), "\"top_five_processes\""@) {
        None => None,
        Some(i1) => match parse_lit(s, i1, ":"@) {
            None => None,
            Some(i2) => match parse_list(s, skip_ws(s, i2)) {
                    None => None,
                    Some((topv, i3)) => match parse_lit(s, i3, ","@) {
                        None => None,
                        Some(i4) => parse_pc_e(s, i4, ram, cpu, tram, topv),
                    },
                },
        },
    }
}

/// The rest of a snapshot document, from the `ip_addr` key on.
pub open spec fn parse_pc_e(s: Seq<char>, i: int, ram: u64, cpu: u8, tram: u64, top: Seq<(Seq<char>, u64)>) -> Option<PcInfoV> {
    match parse_lit(s, skip_ws(s, i), "\"ip_addr\""@) {
        None => None,
        Some(i1) => match parse_lit(s, i1, ":"@) {
            None => None,
            Some(i2) => match parse_string(s, skip_ws(s, i2)) {
                    None => None,
                    Some((ipv, i3)) => match parse_lit(s, i3, ","@) {
                        None => None,
                        Some(i4) => parse_pc_f(s, i4, ram, cpu, tram, top, ipv),
                    },
                },
        },
    }
}

/// The rest of a snapshot document, from the `hostname` key on.
pub open spec fn parse_pc_f(s: Seq<char>, i: int, ram: u64, cpu: u8, tram: u64, top: Seq<(Seq<char>, u64)>, ip: Seq<char>) -> Option<PcInfoV> {
    match parse_lit(s, skip_ws(s, i), "\"hostname\""@) {
        None => None,
        Some(i1) => match parse_lit(s, i1, ":"@) {
            None => None,
            Some(i2) => match parse_string(s, skip_ws(s, i2)) {
                    None => None,
                    Some((hostv, i3)) => match parse_lit(s, i3, ","@) {
                        None => None,
                        Some(i4) => parse_pc_g(s, i4, ram, cpu, tram, top, ip, hostv),
                    },
                },
        },
    }
}

/// The rest of a snapshot document, from the `total_storage` key on.
pub open spec fn parse_pc_g(s: Seq<char>, i: int, ram: u64, cpu: u8, tram: u64, top: Seq<(Seq<char>, u64)>, ip: Seq<char>, host: Seq<char>) -> Option<PcInfoV> {
    match parse_lit(s, skip_ws(s, i), "\"total_storage\""@) {
        None => None,
        Some(i1) => match parse_lit(s, i1, ":"@) {
            None => None,
            Some(i2) => match parse_u64(s, skip_ws(s, i2)) {
                    None => None,
                    Some((tstov, i3)) => match parse_lit(s, i3, ","@) {
                        None => None,
                        Some(i4) => parse_pc_h(s, i4, ram, cpu, tram, top, ip, host, tstov),
                    },
                },
        },
    }
}

/// The rest of a snapshot document, from the `used_storage` key on.
pub open spec fn parse_pc_h(s: Seq<char>, i: int, ram: u64, cpu: u8, tram: u64, top: Seq<(Seq<char>, u64)>, ip: Seq<char>, host: Seq<char>, tsto: u64) -> Option<PcInfoV> {
    match parse_lit(s, skip_ws(s, i), "\"used_storage\""@) {
        None => None,
        Some(i1) => match parse_lit(s, i1, ":"@) {
            None => None,
            Some(i2) => match parse_u64(s, skip_ws(s, i2)) {
                    None => None,
                    Some((ustov, i3)) => match parse_lit(s, skip_ws(s, i3), "}"@) {
                        None => None,
                        Some(i4) => if i4 == s.len() {
                            Some(
                                PcInfoV {
                                    ram_bytes: ram,
                                    cpu_cores: cpu,
                                    total_ram_bytes: tram,
                                    top_five_processes: top,
                                    ip_addr: ip,
                                    hostname: host,
                                    total_storage: tsto,
                                    used_storage: ustov,
                                },
                            )
                        } else {
                            None
                        },
                    },
                },
        },
    }
}

#[verifier::rlimit(100)]
proof fn lemma_pcb_parse(v: PcInfoV, p: bool, s: Seq<char>, i: int, ram: u64)
    requires
        0 <= i <= s.len(),
        s.subrange(i, s.len() as int) == pcb_text(v, p),
    ensures
        parse_pc_b(s, i, ram) == Some(
            PcInfoV {
                ram_bytes: ram,
                cpu_cores: v.cpu_cores,
                total_ram_bytes: v.total_ram_bytes,
                top_five_processes: v.top_five_processes,
                ip_addr: v.ip_addr,
                hostname: v.hostname,
                total_storage: v.total_storage,
                used_storage: v.used_storage,
            },
        ),
{
    reveal_strlit(":");
    reveal_strlit(",");
    reveal_strlit("{");
    reveal_strlit("}");
    reveal_strlit("\"cpu_cores\"");
    lemma_ws_chars(p);
    assert((' ' as u32) == 32 && ('\n' as u32) == 10 && ('\t' as u32) == 9 && ('\r' as u32)
        == 13);
    assert((',' as u32) == 44 && ('}' as u32) == 125 && ('[' as u32) == 91 && ('"' as u32) == 34);
    lemma_dec_nat_digits(v.cpu_cores as nat);
    assert(!is_ws(dec_nat(v.cpu_cores as nat)[0]));
    let r5 = pcc_text(v, p);
    let r4 = ","@ + r5;
    let r3 = dec_nat(v.cpu_cores as nat) + r4;
    let r2 = ws_sp(p) + r3;
    let r1 = ":"@ + r2;
    let r0 = "\"cpu_cores\""@ + r1;
    assert(s.subrange(i, s.len() as int) == ws_mid(p) + r0);
    assert(r0[0] == "\"cpu_cores\""@[0]);
    assert(!is_ws("\"cpu_cores\""@[0]));
    lemma_skip_ws_run(s, i, ws_mid(p), r0);
    let i1: int = i + ws_mid(p).len() as int;
    lemma_parse_lit_at(s, i1, "\"cpu_cores\""@, r1);
    let i2: int = i1 + "\"cpu_cores\""@.len() as int;
    lemma_parse_lit_at(s, i2, ":"@, r2);
    let i3: int = i2 + 1;
    assert(r3[0] == dec_nat(v.cpu_cores as nat)[0]);
    lemma_skip_ws_run(s, i3, ws_sp(p), r3);
    let i4: int = i3 + ws_sp(p).len() as int;
    assert(r4[0] == ',');
    lemma_parse_u64_at(v.cpu_cores as u64, s, i4, r4);
    let i5: int = i4 + dec_nat(v.cpu_cores as nat).len() as int;
    lemma_parse_lit_at(s, i5, ","@, r5);
    let i6: int = i5 + 1;
    lemma_pcc_parse(v, p, s, i6, ram, v.cpu_cores);
}

#[verifier::rlimit(100)]
proof fn lemma_pcc_parse(v: PcInfoV, p: bool, s: Seq<char>, i: int, ram: u64, cpu: u8)
    requires
        0 <= i <= s.len(),
        s.subrange(i, s.len() as int) == pcc_text(v, p),
    ensures
        parse_pc_c(s, i, ram, cpu) == Some(
            PcInfoV {
                ram_bytes: ram,
                cpu_cores: cpu,
                total_ram_bytes: v.total_ram_bytes,
                top_five_processes: v.top_five_processes,
                ip_addr: v.ip_addr,
                hostname: v.hostname,
                total_storage: v.total_storage,
                used_storage: v.used_storage,
            },
        ),
{
    reveal_strlit(":");
    reveal_strlit(",");
    reveal_strlit("{");
    reveal_strlit("}");
    reveal_strlit("\"total_ram_bytes\"");
    lemma_ws_chars(p);
    assert((' ' as u32) == 32 && ('\n' as u32) == 10 && ('\t' as u32) == 9 && ('\r' as u32)
        == 13);
    assert((',' as u32) == 44 && ('}' as u32) == 125 && ('[' as u32) == 91 && ('"' as u32) == 34);
    lemma_dec_nat_digits(v.total_ram_bytes as nat);
    assert(!is_ws(dec_nat(v.total_ram_bytes as nat)[0]));
    let r5 = pcd_text(v, p);
    let r4 = ","@ + r5;
    let r3 = dec_nat(v.total_ram_bytes as nat) + r4;
    let r2 = ws_sp(p) + r3;
    let r1 = ":"@ + r2;
    let r0 = "\"total_ram_bytes\""@ + r1;
    assert(s.subrange(i, s.len() as int) == ws_mid(p) + r0);
    assert(r0[0] == "\"total_ram_bytes\""@[0]);
    assert(!is_ws("\"total_ram_bytes\""@[0]));
    lemma_skip_ws_run(s, i, ws_mid(p), r0);
    let i1: int = i + ws_mid(p).len() as int;
    lemma_parse_lit_at(s, i1, "\"total_ram_bytes\""@, r1);
    let i2: int = i1 + "\"total_ram_bytes\""@.len() as int;
    lemma_parse_lit_at(s, i2, ":"@, r2);
    let i3: int = i2 + 1;
    assert(r3[0] == dec_nat(v.total_ram_bytes as nat)[0]);
    lemma_skip_ws_run(s, i3, ws_sp(p), r3);
    let i4: int = i3 + ws_sp(p).len() as int;
    assert(r4[0] == ',');
    lemma_parse_u64_at(v.total_ram_bytes, s, i4, r4);
    let i5: int = i4 + dec_nat(v.total_ram_bytes as nat).len() as int;
    lemma_parse_lit_at(s, i5, ","@, r5);
    let i6: int = i5 + 1;
    lemma_pcd_parse(v, p, s, i6, ram, cpu, v.total_ram_bytes);
}

#[verifier::rlimit(100)]
proof fn lemma_pcd_parse(v: PcInfoV, p: bool, s: Seq<char>, i: int, ram: u64, cpu: u8, tram: u64)
    requires
        0 <= i <= s.len(),
        s.subrange(i, s.len() as int) == pcd_text(v, p),
    ensures
        parse_pc_d(s, i, ram, cpu, tram) == Some(
            PcInfoV {
                ram_bytes: ram,
                cpu_cores: cpu,
                total_ram_bytes: tram,
                top_five_processes: v.top_five_processes,
                ip_addr: v.ip_addr,
                hostname: v.hostname,
                total_storage: v.total_storage,
                used_storage: v.used_storage,
            },
        ),
{
    reveal_strlit(":");
    reveal_strlit(",");
    reveal_strlit("{");
    reveal_strlit("}");
    reveal_strlit("\"top_five_processes\"");
    lemma_ws_chars(p);
    assert((' ' as u32) == 32 && ('\n' as u32) == 10 && ('\t' as u32) == 9 && ('\r' as u32)
        == 13);
    assert((',' as u32) == 44 && ('}' as u32) == 125 && ('[' as u32) == 91 && ('"' as u32) == 34);
    reveal_strlit("[");
    assert(list_json(v.top_five_processes)[0] == '[') by {
        assert(("["@ + procs_json(v.top_five_processes))[0] == "["@[0]);
    }
    assert(!is_ws(list_json(v.top_five_processes)[0]));
    let r5 = pce_text(v, p);
    let r4 = ","@ + r5;
    let r3 = list_json(v.top_five_processes) + r4;
    let r2 = ws_sp(p) + r3;
    let r1 = ":"@ + r2;
    let r0 = "\"top_five_processes\""@ + r1;
    assert(s.subrange(i, s.len() as int) == ws_mid(p) + r0);
    assert(r0[0] == "\"top_five_processes\""@[0]);
    assert(!is_ws("\"top_five_processes\""@[0]));
    lemma_skip_ws_run(s, i, ws_mid(p), r0);
    let i1: int = i + ws_mid(p).len() as int;
    lemma_parse_lit_at(s, i1, "\"top_five_processes\""@, r1);
    let i2: int = i1 + "\"top_five_processes\""@.len() as int;
    lemma_parse_lit_at(s, i2, ":"@, r2);
    let i3: int = i2 + 1;
    assert(r3[0] == list_json(v.top_five_processes)[0]);
    lemma_skip_ws_run(s, i3, ws_sp(p), r3);
    let i4: int = i3 + ws_sp(p).len() as int;
    assert(r4[0] == ',');
    lemma_parse_list_at(v.top_five_processes, s, i4, r4);
    let i5: int = i4 + list_json(v.top_five_processes).len() as int;
    lemma_parse_lit_at(s, i5, ","@, r5);
    let i6: int = i5 + 1;
    lemma_pce_parse(v, p, s, i6, ram, cpu, tram, v.top_five_processes);
}

#[verifier::rlimit(100)]
proof fn lemma_pce_parse(v: PcInfoV, p: bool, s: Seq<char>, i: int, ram: u64, cpu: u8, tram: u64, top: Seq<(Seq<char>, u64)>)
    requires
        0 <= i <= s.len(),
        s.subrange(i, s.len() as int) == pce_text(v, p),
    ensures
        parse_pc_e(s, i, ram, cpu, tram, top) == Some(
            PcInfoV {
                ram_bytes: ram,
                cpu_cores: cpu,
                total_ram_bytes: tram,
                top_five_processes: top,
                ip_addr: v.ip_addr,
                hostname: v.hostname,
                total_storage: v.total_storage,
                used_storage: v.used_storage,
            },
        ),
{
    reveal_strlit(":");
    reveal_strlit(",");
    reveal_strlit("{");
    reveal_strlit("}");
    reveal_strlit("\"ip_addr\"");
    lemma_ws_chars(p);
    assert((' ' as u32) == 32 && ('\n' as u32) == 10 && ('\t' as u32) == 9 && ('\r' as u32)
        == 13);
    assert((',' as u32) == 44 && ('}' as u32) == 125 && ('[' as u32) == 91 && ('"' as u32) == 34);
    assert(json_string(v.ip_addr)[0] == '"');
    assert(!is_ws(json_string(v.ip_addr)[0]));
    let r5 = pcf_text(v, p);
    let r4 = ","@ + r5;
    let r3 = json_string(v.ip_addr) + r4;
    let r2 = ws_sp(p) + r3;
    let r1 = ":"@ + r2;
    let r0 = "\"ip_addr\""@ + r1;
    assert(s.subrange(i, s.len() as int) == ws_mid(p) + r0);
    assert(r0[0] == "\"ip_addr\""@[0]);
    assert(!is_ws("\"ip_addr\""@[0]));
    lemma_skip_ws_run(s, i, ws_mid(p), r0);
    let i1: int = i + ws_mid(p).len() as int;
    lemma_parse_lit_at(s, i1, "\"ip_addr\""@, r1);
    let i2: int = i1 + "\"ip_addr\""@.len() as int;
    lemma_parse_lit_at(s, i2, ":"@, r2);
    let i3: int = i2 + 1;
    assert(r3[0] == json_string(v.ip_addr)[0]);
    lemma_skip_ws_run(s, i3, ws_sp(p), r3);
    let i4: int = i3 + ws_sp(p).len() as int;
    assert(r4[0] == ',');
    lemma_parse_string_at(v.ip_addr, s, i4, r4);
    let i5: int = i4 + json_string(v.ip_addr).len() as int;
    lemma_parse_lit_at(s, i5, ","@, r5);
    let i6: int = i5 + 1;
    lemma_pcf_parse(v, p, s, i6, ram, cpu, tram, top, v.ip_addr);
}

#[verifier::rlimit(100)]
proof fn lemma_pcf_parse(v: PcInfoV, p: bool, s: Seq<char>, i: int, ram: u64, cpu: u8, tram: u64, top: Seq<(Seq<char>, u64)>, ip: Seq<char>)
    requires
        0 <= i <= s.len(),
        s.subrange(i, s.len() as int) == pcf_text(v, p),
    ensures
        parse_pc_f(s, i, ram, cpu, tram, top, ip) == Some(
            PcInfoV {
                ram_bytes: ram,
                cpu_cores: cpu,
                total_ram_bytes: tram,
                top_five_processes: top,
                ip_addr: ip,
                hostname: v.hostname,
                total_storage: v.total_storage,
                used_storage: v.used_storage,
            },
        ),
{
    reveal_strlit(":");
    reveal_strlit(",");
    reveal_strlit("{");
    reveal_strlit("}");
    reveal_strlit("\"hostname\"");
    lemma_ws_chars(p);
    assert((' ' as u32) == 32 && ('\n' as u32) == 10 && ('\t' as u32) == 9 && ('\r' as u32)
        == 13);
    assert((',' as u32) == 44 && ('}' as u32) == 125 && ('[' as u32) == 91 && ('"' as u32) == 34);
    assert(json_string(v.hostname)[0] == '"');
    assert(!is_ws(json_string(v.hostname)[0]));
    let r5 = pcg_text(v, p);
    let r4 = ","@ + r5;
    let r3 = json_string(v.hostname) + r4;
    let r2 = ws_sp(p) + r3;
    let r1 = ":"@ + r2;
    let r0 = "\"hostname\""@ + r1;
    assert(s.subrange(i, s.len() as int) == ws_mid(p) + r0);
    assert(r0[0] == "\"hostname\""@[0]);
    assert(!is_ws("\"hostname\""@[0]));
    lemma_skip_ws_run(s, i, ws_mid(p), r0);
    let i1: int = i + ws_mid(p).len() as int;
    lemma_parse_lit_at(s, i1, "\"hostname\""@, r1);
    let i2: int = i1 + "\"hostname\""@.len() as int;
    lemma_parse_lit_at(s, i2, ":"@, r2);
    let i3: int = i2 + 1;
    assert(r3[0] == json_string(v.hostname)[0]);
    lemma_skip_ws_run(s, i3, ws_sp(p), r3);
    let i4: int = i3 + ws_sp(p).len() as int;
    assert(r4[0] == ',');
    lemma_parse_string_at(v.hostname, s, i4, r4);
    let i5: int = i4 + json_string(v.hostname).len() as int;
    lemma_parse_lit_at(s, i5, ","@, r5);
    let i6: int = i5 + 1;
    lemma_pcg_parse(v, p, s, i6, ram, cpu, tram, top, ip, v.hostname);
}

#[verifier::rlimit(100)]
proof fn lemma_pcg_parse(v: PcInfoV, p: bool, s: Seq<char>, i: int, ram: u64, cpu: u8, tram: u64, top: Seq<(Seq<char>, u64)>, ip: Seq<char>, host: Seq<char>)
    requires
        0 <= i <= s.len(),
        s.subrange(i, s.len() as int) == pcg_text(v, p),
    ensures
        parse_pc_g(s, i, ram, cpu, tram, top, ip, host) == Some(
            PcInfoV {
                ram_bytes: ram,
                cpu_cores: cpu,
                total_ram_bytes: tram,
                top_five_processes: top,
                ip_addr: ip,
                hostname: host,
                total_storage: v.total_storage,
                used_storage: v.used_storage,
            },
        ),
{
    reveal_strlit(":");
    reveal_strlit(",");
    reveal_strlit("{");
    reveal_strlit("}");
    reveal_strlit("\"total_storage\"");
    lemma_ws_chars(p);
    assert((' ' as u32) == 32 && ('\n' as u32) == 10 && ('\t' as u32) == 9 && ('\r' as u32)
        == 13);
    assert((',' as u32) == 44 && ('}' as u32) == 125 && ('[' as u32) == 91 && ('"' as u32) == 34);
    lemma_dec_nat_digits(v.total_storage as nat);
    assert(!is_ws(dec_nat(v.total_storage as nat)[0]));
    let r5 = pch_text(v, p);
    let r4 = ","@ + r5;
    let r3 = dec_nat(v.total_storage as nat) + r4;
    let r2 = ws_sp(p) + r3;
    let r1 = ":"@ + r2;
    let r0 = "\"total_storage\""@ + r1;
    assert(s.subrange(i, s.len() as int) == ws_mid(p) + r0);
    assert(r0[0] == "\"total_storage\""@[0]);
    assert(!is_ws("\"total_storage\""@[0]));
    lemma_skip_ws_run(s, i, ws_mid(p), r0);
    let i1: int = i + ws_mid(p).len() as int;
    lemma_parse_lit_at(s, i1, "\"total_storage\""@, r1);
    let i2: int = i1 + "\"total_storage\""@.len() as int;
    lemma_parse_lit_at(s, i2, ":"@, r2);
    let i3: int = i2 + 1;
    assert(r3[0] == dec_nat(v.total_storage as nat)[0]);
    lemma_skip_ws_run(s, i3, ws_sp(p), r3);
    let i4: int = i3 + ws_sp(p).len() as int;
    assert(r4[0] == ',');
    lemma_parse_u64_at(v.total_storage, s, i4, r4);
    let i5: int = i4 + dec_nat(v.total_storage as nat).len() as int;
    lemma_parse_lit_at(s, i5, ","@, r5);
    let i6: int = i5 + 1;
    lemma_pch_parse(v, p, s, i6, ram, cpu, tram, top, ip, host, v.total_storage);
}

#[verifier::rlimit(100)]
proof fn lemma_pch_parse(v: PcInfoV, p: bool, s: Seq<char>, i: int, ram: u64, cpu: u8, tram: u64, top: Seq<(Seq<char>, u64)>, ip: Seq<char>, host: Seq<char>, tsto: u64)
    requires
        0 <= i <= s.len(),
        s.subrange(i, s.len() as int) == pch_text(v, p),
    ensures
        parse_pc_h(s, i, ram, cpu, tram, top, ip, host, tsto) == Some(
            PcInfoV {
                ram_bytes: ram,
                cpu_cores: cpu,
                total_ram_bytes: tram,
                top_five_processes: top,
                ip_addr: ip,
                hostname: host,
                total_storage: tsto,
                used_storage: v.used_storage,
            },
        ),
{
    reveal_strlit(":");
    reveal_strlit(",");
    reveal_strlit("{");
    reveal_strlit("}");
    reveal_strlit("\"used_storage\"");
    lemma_ws_chars(p);
    assert((' ' as u32) == 32 && ('\n' as u32) == 10 && ('\t' as u32) == 9 && ('\r' as u32)
        == 13);
    assert((',' as u32) == 44 && ('}' as u32) == 125 && ('[' as u32) == 91 && ('"' as u32) == 34);
    lemma_dec_nat_digits(v.used_storage as nat);
    assert(!is_ws(dec_nat(v.used_storage as nat)[0]));
    let r5 = "}"@;
    let r4 = ws_close(p) + r5;
    let r3 = dec_nat(v.used_storage as nat) + r4;
    let r2 = ws_sp(p) + r3;
    let r1 = ":"@ + r2;
    let r0 = "\"used_storage\""@ + r1;
    assert(s.subrange(i, s.len() as int) == ws_mid(p) + r0);
    assert(r0[0] == "\"used_storage\""@[0]);
    assert(!is_ws("\"used_storage\""@[0]));
    lemma_skip_ws_run(s, i, ws_mid(p), r0);
    let i1: int = i + ws_mid(p).len() as int;
    lemma_parse_lit_at(s, i1, "\"used_storage\""@, r1);
    let i2: int = i1 + "\"used_storage\""@.len() as int;
    lemma_parse_lit_at(s, i2, ":"@, r2);
    let i3: int = i2 + 1;
    assert(r3[0] == dec_nat(v.used_storage as nat)[0]);
    lemma_skip_ws_run(s, i3, ws_sp(p), r3);
    let i4: int = i3 + ws_sp(p).len() as int;
    reveal_strlit("\n");
    if p {
        assert(ws_close(p).len() == 1 && ws_close(p)[0] == '\n');
        assert(r4[0] == '\n');
    } else {
        assert(ws_close(p).len() == 0);
        assert(r4 =~= r5);
        assert(r4[0] == '}');
    }
    assert(!crate::json::is_digit(r4[0]));
    lemma_parse_u64_at(v.used_storage, s, i4, r4);
    let i5: int = i4 + dec_nat(v.used_storage as nat).len() as int;
    assert(r5[0] == '}');
    lemma_skip_ws_run(s, i5, ws_close(p), r5);
    let i6: int = i5 + ws_close(p).len() as int;
    assert(s.subrange(i6, s.len() as int) == "}"@ + Seq::<char>::empty());
    lemma_parse_lit_at(s, i6, "}"@, Seq::empty());
    assert(i6 + 1 == s.len());
}

/// The re-grouped snapshot document parses back to exactly its record value.
#[verifier::rlimit(100)]
#[verifier::spinoff_prover]
proof fn lemma_pc_text_parse(v: PcInfoV, p: bool)
    ensures
        parse_pc(pc_text(v, p)) == Some(v),
{
    let s = pc_text(v, p);
    reveal_strlit("{");
    reveal_strlit(":");
    reveal_strlit(",");
    reveal_strlit("\"ram_bytes\"");
    lemma_ws_chars(p);
    assert((' ' as u32) == 32 && ('\n' as u32) == 10 && ('\t' as u32) == 9 && ('\r' as u32)
        == 13);
    assert((',' as u32) == 44);
    lemma_dec_nat_digits(v.ram_bytes as nat);
    assert(!is_ws(dec_nat(v.ram_bytes as nat)[0]));
    let r5 = pcb_text(v, p);
    let r4 = ","@ + r5;
    let r3 = dec_nat(v.ram_bytes as nat) + r4;
    let r2 = ws_sp(p) + r3;
    let r1 = ":"@ + r2;
    let r0 = "\"ram_bytes\""@ + r1;
    let rr = ws_open(p) + r0;
    assert(s.subrange(0, s.len() as int) =~= s);
    assert(s == "{"@ + rr);
    lemma_parse_lit_at(s, 0, "{"@, rr);
    let i0: int = 1;
    assert(r0[0] == "\"ram_bytes\""@[0]);
    assert(!is_ws("\"ram_bytes\""@[0]));
    lemma_skip_ws_run(s, i0, ws_open(p), r0);
    let i1: int = i0 + ws_open(p).len() as int;
    lemma_parse_lit_at(s, i1, "\"ram_bytes\""@, r1);
    let i2: int = i1 + "\"ram_bytes\""@.len() as int;
    lemma_parse_lit_at(s, i2, ":"@, r2);
    let i3: int = i2 + 1;
    assert(r3[0] == dec_nat(v.ram_bytes as nat)[0]);
    lemma_skip_ws_run(s, i3, ws_sp(p), r3);
    let i4: int = i3 + ws_sp(p).len() as int;
    assert(r4[0] == ',');
    lemma_parse_u64_at(v.ram_bytes, s, i4, r4);
    let i5: int = i4 + dec_nat(v.ram_bytes as nat).len() as int;
    lemma_parse_lit_at(s, i5, ","@, r5);
    let i6: int = i5 + 1;
    lemma_pcb_parse(v, p, s, i6, v.ram_bytes);
    assert(parse_pc(s) == Some(
        PcInfoV {
            ram_bytes: v.ram_bytes,
            cpu_cores: v.cpu_cores,
            total_ram_bytes: v.total_ram_bytes,
            top_five_processes: v.top_five_processes,
            ip_addr: v.ip_addr,
            hostname: v.hostname,
            total_storage: v.total_storage,
            used_storage: v.used_storage,
        },
    ));
    assert(PcInfoV {
        ram_bytes: v.ram_bytes,
        cpu_cores: v.cpu_cores,
        total_ram_bytes: v.total_ram_bytes,
        top_five_processes: v.top_five_processes,
        ip_addr: v.ip_addr,
        hostname: v.hostname,
        total_storage: v.total_storage,
        used_storage: v.used_storage,
    } == v);
}

/// Concatenation is associative, so the flat rendering and the re-grouped
/// rendering of a snapshot are the same sequence.
#[verifier::rlimit(100)]
proof fn lemma_pc_json_shape(v: PcInfoV, p: bool)
    ensures
        pc_json(v, p) == pc_text(v, p),
{
    let a1 = "{"@;
    let a2 = ws_open(p);
    let a3 = "\"ram_bytes\""@;
    let a4 = ":"@;
    let a5 = ws_sp(p);
    let a6 = dec_nat(v.ram_bytes as nat);
    let a7 = ","@;
    let a8 = ws_mid(p);
    let a9 = "\"cpu_cores\""@;
    let a10 = ":"@;
    let a11 = ws_sp(p);
    let a12 = dec_nat(v.cpu_cores as nat);
    let a13 = ","@;
    let a14 = ws_mid(p);
    let a15 = "\"total_ram_bytes\""@;
    let a16 = ":"@;
    let a17 = ws_sp(p);
    let a18 = dec_nat(v.total_ram_bytes as nat);
    let a19 = ","@;
    let a20 = ws_mid(p);
    let a21 = "\"top_five_processes\""@;
    let a22 = ":"@;
    let a23 = ws_sp(p);
    let a24 = list_json(v.top_five_processes);
    let a25 = ","@;
    let a26 = ws_mid(p);
    let a27 = "\"ip_addr\""@;
    let a28 = ":"@;
    let a29 = ws_sp(p);
    let a30 = json_string(v.ip_addr);
    let a31 = ","@;
    let a32 = ws_mid(p);
    let a33 = "\"hostname\""@;
    let a34 = ":"@;
    let a35 = ws_sp(p);
    let a36 = json_string(v.hostname);
    let a37 = ","@;
    let a38 = ws_mid(p);
    let a39 = "\"total_storage\""@;
    let a40 = ":"@;
    let a41 = ws_sp(p);
    let a42 = dec_nat(v.total_storage as nat);
    let a43 = ","@;
    let a44 = ws_mid(p);
    let a45 = "\"used_storage\""@;
    let a46 = ":"@;
    let a47 = ws_sp(p);
    let a48 = dec_nat(v.used_storage as nat);
    let a49 = ws_close(p);
    let a50 = "}"@;
    let t50 = a50;
    let t49 = a49 + t50;
    let t48 = a48 + t49;
    let t47 = a47 + t48;
    let t46 = a46 + t47;
    let t45 = a45 + t46;
    let t44 = a44 + t45;
    let t43 = a43 + t44;
    let t42 = a42 + t43;
    let t41 = a41 + t42;
    let t40 = a40 + t41;
    let t39 = a39 + t40;
    let t38 = a38 + t39;
    let t37 = a37 + t38;
    let t36 = a36 + t37;
    let t35 = a35 + t36;
    let t34 = a34 + t35;
    let t33 = a33 + t34;
    let t32 = a32 + t33;
    let t31 = a31 + t32;
    let t30 = a30 + t31;
    let t29 = a29 + t30;
    let t28 = a28 + t29;
    let t27 = a27 + t28;
    let t26 = a26 + t27;
    let t25 = a25 + t26;
    let t24 = a24 + t25;
    let t23 = a23 + t24;
    let t22 = a22 + t23;
    let t21 = a21 + t22;
    let t20 = a20 + t21;
    let t19 = a19 + t20;
    let t18 = a18 + t19;
    let t17 = a17 + t18;
    let t16 = a16 + t17;
    let t15 = a15 + t16;
    let t14 = a14 + t15;
    let t13 = a13 + t14;
    let t12 = a12 + t13;
    let t11 = a11 + t12;
    let t10 = a10 + t11;
    let t9 = a9 + t10;
    let t8 = a8 + t9;
    let t7 = a7 + t8;
    let t6 = a6 + t7;
    let t5 = a5 + t6;
    let t4 = a4 + t5;
    let t3 = a3 + t4;
    let t2 = a2 + t3;
    let t1 = a1 + t2;
    let l2 = a1 + a2;
    let l3 = l2 + a3;
    let l4 = l3 + a4;
    let l5 = l4 + a5;
    let l6 = l5 + a6;
    let l7 = l6 + a7;
    let l8 = l7 + a8;
    let l9 = l8 + a9;
    let l10 = l9 + a10;
    let l11 = l10 + a11;
    let l12 = l11 + a12;
    let l13 = l12 + a13;
    let l14 = l13 + a14;
    let l15 = l14 + a15;
    let l16 = l15 + a16;
    let l17 = l16 + a17;
    let l18 = l17 + a18;
    let l19 = l18 + a19;
    let l20 = l19 + a20;
    let l21 = l20 + a21;
    let l22 = l21 + a22;
    let l23 = l22 + a23;
    let l24 = l23 + a24;
    let l25 = l24 + a25;
    let l26 = l25 + a26;
    let l27 = l26 + a27;
    let l28 = l27 + a28;
    let l29 = l28 + a29;
    let l30 = l29 + a30;
    let l31 = l30 + a31;
    let l32 = l31 + a32;
    let l33 = l32 + a33;
    let l34 = l33 + a34;
    let l35 = l34 + a35;
    let l36 = l35 + a36;
    let l37 = l36 + a37;
    let l38 = l37 + a38;
    let l39 = l38 + a39;
    let l40 = l39 + a40;
    let l41 = l40 + a41;
    let l42 = l41 + a42;
    let l43 = l42 + a43;
    let l44 = l43 + a44;
    let l45 = l44 + a45;
    let l46 = l45 + a46;
    let l47 = l46 + a47;
    let l48 = l47 + a48;
    let l49 = l48 + a49;
    let l50 = l49 + a50;
    assert(pc_json(v, p) == l50);
    lemma_concat_associative(l48, a49, t50);
    lemma_concat_associative(l47, a48, t49);
    lemma_concat_associative(l46, a47, t48);
    lemma_concat_associative(l45, a46, t47);
    lemma_concat_associative(l44, a45, t46);
    lemma_concat_associative(l43, a44, t45);
    lemma_concat_associative(l42, a43, t44);
    lemma_concat_associative(l41, a42, t43);
    lemma_concat_associative(l40, a41, t42);
    lemma_concat_associative(l39, a40, t41);
    lemma_concat_associative(l38, a39, t40);
    lemma_concat_associative(l37, a38, t39);
    lemma_concat_associative(l36, a37, t38);
    lemma_concat_associative(l35, a36, t37);
    lemma_concat_associative(l34, a35, t36);
    lemma_concat_associative(l33, a34, t35);
    lemma_concat_associative(l32, a33, t34);
    lemma_concat_associative(l31, a32, t33);
    lemma_concat_associative(l30, a31, t32);
    lemma_concat_associative(l29, a30, t31);
    lemma_concat_associative(l28, a29, t30);
    lemma_concat_associative(l27, a28, t29);
    lemma_concat_associative(l26, a27, t28);
    lemma_concat_associative(l25, a26, t27);
    lemma_concat_associative(l24, a25, t26);
    lemma_concat_associative(l23, a24, t25);
    lemma_concat_associative(l22, a23, t24);
    lemma_concat_associative(l21, a22, t23);
    lemma_concat_associative(l20, a21, t22);
    lemma_concat_associative(l19, a20, t21);
    lemma_concat_associative(l18, a19, t20);
    lemma_concat_associative(l17, a18, t19);
    lemma_concat_associative(l16, a17, t18);
    lemma_concat_associative(l15, a16, t17);
    lemma_concat_associative(l14, a15, t16);
    lemma_concat_associative(l13, a14, t15);
    lemma_concat_associative(l12, a13, t14);
    lemma_concat_associative(l11, a12, t13);
    lemma_concat_associative(l10, a11, t12);
    lemma_concat_associative(l9, a10, t11);
    lemma_concat_associative(l8, a9, t10);
    lemma_concat_associative(l7, a8, t9);
    lemma_concat_associative(l6, a7, t8);
    lemma_concat_associative(l5, a6, t7);
    lemma_concat_associative(l4, a5, t6);
    lemma_concat_associative(l3, a4, t5);
    lemma_concat_associative(l2, a3, t4);
    lemma_concat_associative(a1, a2, t3);
    assert(pc_json(v, p) == t1);
    assert(t44 == pch_text(v, p));
    assert(t38 == pcg_text(v, p));
    assert(t32 == pcf_text(v, p));
    assert(t26 == pce_text(v, p));
    assert(t20 == pcd_text(v, p));
    assert(t14 == pcc_text(v, p));
    assert(t8 == pcb_text(v, p));
    assert(t1 == pc_text(v, p));
}

/// JSON round trip: the document rendered for any snapshot value, in either
/// mode, deserializes back to exactly that value.
pub proof fn lemma_pc_json_round_trip(v: PcInfoV, pretty: bool)
    ensures
        parse_pc(pc_json(v, pretty)) == Some(v),
{
    lemma_pc_json_shape(v, pretty);
    lemma_pc_text_parse(v, pretty);
}

/// Compact and pretty renderings of the same snapshot carry the same value:
/// both parse back to it.
pub proof fn lemma_pc_json_modes_agree(v: PcInfoV)
    ensures
        parse_pc(pc_json(v, true)) == parse_pc(pc_json(v, false)),
        parse_pc(pc_json(v, true)) == Some(v),
{
    lemma_pc_json_round_trip(v, true);
    lemma_pc_json_round_trip(v, false);
}

} // verus!
