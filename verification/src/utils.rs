//! Command-execution records: the normalized result of running one external
//! command, the request that selects how it is run, and their JSON rendering.

use vstd::prelude::*;
use crate::json::{
    json_string, dec_int, ws_open, ws_sp, ws_mid, ws_close, bool_lit,
    push_lit, push_json_string, push_i32, push_bool, chars_to_string, lemma_dec_nat_digits,
    dec_nat,
};
use crate::parse::{
    parse_lit, skip_ws, parse_string, parse_i32, parse_bool, lemma_parse_lit_at,
    lemma_skip_ws_run, lemma_parse_string_at, lemma_parse_i32_at, lemma_parse_bool_at,
    lemma_ws_chars,
};
use vstd::seq_lib::lemma_concat_associative;

verus! {

/// The normalized outcome of one completed external command.
pub struct CmdResult {
    pub stdout: String,
    pub stderr: String,
    pub exit_code: i32,
    pub success: bool,
}

/// The mathematical value of a `CmdResult`.
pub struct CmdResultV {
    pub stdout: Seq<char>,
    pub stderr: Seq<char>,
    pub exit_code: i32,
    pub success: bool,
}

impl View for CmdResult {
    type V = CmdResultV;

    open spec fn view(&self) -> CmdResultV {
        CmdResultV {
            stdout: self.stdout@,
            stderr: self.stderr@,
            exit_code: self.exit_code,
            success: self.success,
        }
    }
}

/// How one external command is to be run: directly, the program and each
/// argument passed verbatim with no shell interpretation; or as a command
/// line handed to a login shell, which brings full shell semantics (and,
/// deliberately, shell-injection risk for untrusted input).
pub enum ExecMode {
    Exec { program: String, args: Vec<String> },
    Shell { cmd: String },
}

/// Build the result record from the plain values observed of a finished
/// child process: captured output, and its exit code where one exists
/// (`None` when the process ended without one, e.g. killed by a signal).
pub fn cmd_result_from_output(stdout: String, stderr: String, code: Option<i32>) -> (r: CmdResult)
    ensures
        r@.stdout == stdout@,
        r@.stderr == stderr@,
        r@.exit_code == (match code {
            Some(c) => c,
            None => -1i32,
        }),
        r@.success == (code == Some(0i32)),
{
    let exit_code: i32 = match code {
        Some(c) => c,
        None => -1,
    };
    let success: bool = match code {
        Some(c) => c == 0,
        None => false,
    };
    CmdResult { stdout, stderr, exit_code, success }
}

/// The program and argument tokens that an execution request spawns:
/// a direct request passes its tokens through unchanged; a shell request
/// becomes an invocation of `bash -lc` on the command line.
pub fn command_tokens(mode: ExecMode) -> (r: (String, Vec<String>))
    ensures
        (match mode {
            ExecMode::Exec { program, args } => r.0 == program && r.1 == args,
            ExecMode::Shell { cmd } => {
                &&& r.0@ == "bash"@
                &&& r.1@.len() == 2
                &&& r.1@[0]@ == "-lc"@
                &&& r.1@[1] == cmd
            },
        }),
{
    match mode {
        ExecMode::Exec { program, args } => (program, args),
        ExecMode::Shell { cmd } => {
            let mut args: Vec<String> = Vec::new();
            args.push("-lc".to_owned());
            args.push(cmd);
            ("bash".to_owned(), args)
        },
    }
}

/// The JSON document for a command result, compact or pretty.
pub open spec fn cmd_json(v: CmdResultV, pretty: bool) -> Seq<char> {
    "{"@ + ws_open(pretty) + "\"stdout\""@ + ":"@ + ws_sp(pretty) + json_string(v.stdout)
        + ","@ + ws_mid(pretty) + "\"stderr\""@ + ":"@ + ws_sp(pretty) + json_string(
        v.stderr,
    ) + ","@ + ws_mid(pretty) + "\"exit_code\""@ + ":"@ + ws_sp(pretty) + dec_int(
        v.exit_code as int,
    ) + ","@ + ws_mid(pretty) + "\"success\""@ + ":"@ + ws_sp(pretty) + bool_lit(v.success)
        + ws_close(pretty) + "}"@
}

/// Render a command result as JSON text, compact or pretty-printed.
/// Rendering a well-formed record never fails.
#[verifier::rlimit(60)]
pub fn cmd_result_to_json(r: &CmdResult, pretty: bool) -> (s: String)
    ensures
        s@ == cmd_json(r@, pretty),
{
    let mut out: Vec<char> = Vec::new();
    push_lit(&mut out, "{");
    if pretty {
        push_lit(&mut out, "\n  ");
    }
    push_lit(&mut out, "\"stdout\"");
    push_lit(&mut out, ":");
    if pretty {
        push_lit(&mut out, " ");
    }
    push_json_string(&mut out, self_str(&r.stdout));
    push_lit(&mut out, ",");
    if pretty {
        push_lit(&mut out, "\n  ");
    }
    push_lit(&mut out, "\"stderr\"");
    push_lit(&mut out, ":");
    if pretty {
        push_lit(&mut out, " ");
    }
    push_json_string(&mut out, self_str(&r.stderr));
    push_lit(&mut out, ",");
    if pretty {
        push_lit(&mut out, "\n  ");
    }
    push_lit(&mut out, "\"exit_code\"");
    push_lit(&mut out, ":");
    if pretty {
        push_lit(&mut out, " ");
    }
    push_i32(&mut out, r.exit_code);
    push_lit(&mut out, ",");
    if pretty {
        push_lit(&mut out, "\n  ");
    }
    push_lit(&mut out, "\"success\"");
    push_lit(&mut out, ":");
    if pretty {
        push_lit(&mut out, " ");
    }
    push_bool(&mut out, r.success);
    if pretty {
        push_lit(&mut out, "\n");
    }
    push_lit(&mut out, "}");
    proof {
        broadcast use Seq::<_>::add_empty_left, Seq::<_>::add_empty_right;

        if pretty {
            assert(out@ == cmd_json(r@, true));
        } else {
            assert(out@ == cmd_json(r@, false));
        }
    }
    chars_to_string(&out)
}

/// A borrowed `&str` of a `String`, for the emitters.
fn self_str(s: &String) -> (r: &str)
    ensures
        r@ == s@,
{
    s.as_str()
}

/// The mathematical deserializer for a command-result document: recursive
/// descent over the text, tolerating whitespace where the pretty mode
/// inserts it, yielding the record value when the whole text is one
/// well-formed document.
pub open spec fn parse_cmd(s: Seq<char>) -> Option<CmdResultV> {
    match parse_lit(s, 0, "{"@) {
        None => None,
        Some(i1) => match parse_lit(s, skip_ws(s, i1), "\"stdout\""@) {
            None => None,
            Some(i3) => match parse_lit(s, i3, ":"@) {
                None => None,
                Some(i4) => match parse_string(s, skip_ws(s, i4)) {
                    None => None,
                    Some((sout, i6)) => match parse_lit(s, i6, ","@) {
                        None => None,
                        Some(i7) => parse_cmd_mid(s, i7, sout),
                    },
                },
            },
        },
    }
}

/// The middle of a command-result document: the `stderr` field.
pub open spec fn parse_cmd_mid(s: Seq<char>, i: int, sout: Seq<char>) -> Option<CmdResultV> {
    match parse_lit(s, skip_ws(s, i), "\"stderr\""@) {
        None => None,
        Some(i9) => match parse_lit(s, i9, ":"@) {
            None => None,
            Some(i10) => match parse_string(s, skip_ws(s, i10)) {
                None => None,
                Some((serr, i12)) => match parse_lit(s, i12, ","@) {
                    None => None,
                    Some(i13) => parse_cmd_tail(s, i13, sout, serr),
                },
            },
        },
    }
}

/// The rest of a command-result document, from the `exit_code` key on.
pub open spec fn parse_cmd_tail(s: Seq<char>, i: int, sout: Seq<char>, serr: Seq<char>) -> Option<
    CmdResultV,
> {
    match parse_lit(s, skip_ws(s, i), "\"exit_code\""@) {
        None => None,
        Some(i15) => match parse_lit(s, i15, ":"@) {
            None => None,
            Some(i16) => match parse_i32(s, skip_ws(s, i16)) {
                None => None,
                Some((ec, i18)) => match parse_lit(s, i18, ","@) {
                    None => None,
                    Some(i19) => match parse_lit(s, skip_ws(s, i19), "\"success\""@) {
                        None => None,
                        Some(i21) => match parse_lit(s, i21, ":"@) {
                            None => None,
                            Some(i22) => match parse_bool(s, skip_ws(s, i22)) {
                                None => None,
                                Some((sc, i24)) => match parse_lit(s, skip_ws(s, i24), "}"@) {
                                    None => None,
                                    Some(i26) => if i26 == s.len() {
                                        Some(
                                            CmdResultV {
                                                stdout: sout,
                                                stderr: serr,
                                                exit_code: ec,
                                                success: sc,
                                            },
                                        )
                                    } else {
                                        None
                                    },
                                },
                            },
                        },
                    },
                },
            },
        },
    }
}

/// The rendered document, re-grouped from the first token onward: the same
/// characters as `cmd_json`, written as token-then-rest.
pub open spec fn cmd_text(v: CmdResultV, p: bool) -> Seq<char> {
    "{"@ + (ws_open(p) + ("\"stdout\""@ + (":"@ + (ws_sp(p) + (json_string(v.stdout) + (","@
        + cmd_mid_text(v, p)))))))
}

/// The rendered document from the `stderr` key on, token-then-rest.
pub open spec fn cmd_mid_text(v: CmdResultV, p: bool) -> Seq<char> {
    ws_mid(p) + ("\"stderr\""@ + (":"@ + (ws_sp(p) + (json_string(v.stderr) + (","@
        + cmd_tail_text(v, p))))))
}

/// The rendered document from the `exit_code` key on, token-then-rest.
pub open spec fn cmd_tail_text(v: CmdResultV, p: bool) -> Seq<char> {
    ws_mid(p) + ("\"exit_code\""@ + (":"@ + (ws_sp(p) + (dec_int(v.exit_code as int) + (","@
        + (ws_mid(p) + ("\"success\""@ + (":"@ + (ws_sp(p) + (bool_lit(v.success) + (ws_close(p)
        + "}"@)))))))))))
}

/// Concatenation is associative, so the flat rendering and the re-grouped
/// rendering are the same sequence.
#[verifier::rlimit(100)]
proof fn lemma_cmd_json_shape(v: CmdResultV, p: bool)
    ensures
        cmd_json(v, p) == cmd_text(v, p),
{
    let a1 = "{"@;
    let a2 = ws_open(p);
    let a3 = "\"stdout\""@;
    let a4 = ":"@;
    let a5 = ws_sp(p);
    let a6 = json_string(v.stdout);
    let a7 = ","@;
    let a8 = ws_mid(p);
    let a9 = "\"stderr\""@;
    let a10 = ":"@;
    let a11 = ws_sp(p);
    let a12 = json_string(v.stderr);
    let a13 = ","@;
    let a14 = ws_mid(p);
    let a15 = "\"exit_code\""@;
    let a16 = ":"@;
    let a17 = ws_sp(p);
    let a18 = dec_int(v.exit_code as int);
    let a19 = ","@;
    let a20 = ws_mid(p);
    let a21 = "\"success\""@;
    let a22 = ":"@;
    let a23 = ws_sp(p);
    let a24 = bool_lit(v.success);
    let a25 = ws_close(p);
    let a26 = "}"@;
    let t26 = a26;
    let t25 = a25 + t26;
    let t24 = a24 + t25;
    let t23 = a23 + t24;
    let t22 = a22 + t23;
    let t21 = a21 + t22;
    let t20 = a20 + t21;
    let t19 = a19 + t20;
    let t18 = a18 + t19;
    let t17 = a17 + t18;
    let t16 = a16 + t17;
    let t15 = a15 + t16;
    let t14 = a14 + t15;
    let t13 = a13 + t14;
    let t12 = a12 + t13;
    let t11 = a11 + t12;
    let t10 = a10 + t11;
    let t9 = a9 + t10;
    let t8 = a8 + t9;
    let t7 = a7 + t8;
    let t6 = a6 + t7;
    let t5 = a5 + t6;
    let t4 = a4 + t5;
    let t3 = a3 + t4;
    let t2 = a2 + t3;
    let t1 = a1 + t2;
    let l2 = a1 + a2;
    let l3 = l2 + a3;
    let l4 = l3 + a4;
    let l5 = l4 + a5;
    let l6 = l5 + a6;
    let l7 = l6 + a7;
    let l8 = l7 + a8;
    let l9 = l8 + a9;
    let l10 = l9 + a10;
    let l11 = l10 + a11;
    let l12 = l11 + a12;
    let l13 = l12 + a13;
    let l14 = l13 + a14;
    let l15 = l14 + a15;
    let l16 = l15 + a16;
    let l17 = l16 + a17;
    let l18 = l17 + a18;
    let l19 = l18 + a19;
    let l20 = l19 + a20;
    let l21 = l20 + a21;
    let l22 = l21 + a22;
    let l23 = l22 + a23;
    let l24 = l23 + a24;
    let l25 = l24 + a25;
    let l26 = l25 + a26;
    assert(cmd_json(v, p) == l26);
    lemma_concat_associative(l24, a25, t26);
    lemma_concat_associative(l23, a24, t25);
    lemma_concat_associative(l22, a23, t24);
    lemma_concat_associative(l21, a22, t23);
    lemma_concat_associative(l20, a21, t22);
    lemma_concat_associative(l19, a20, t21);
    lemma_concat_associative(l18, a19, t20);
    lemma_concat_associative(l17, a18, t19);
    lemma_concat_associative(l16, a17, t18);
    lemma_concat_associative(l15, a16, t17);
    lemma_concat_associative(l14, a15, t16);
    lemma_concat_associative(l13, a14, t15);
    lemma_concat_associative(l12, a13, t14);
    lemma_concat_associative(l11, a12, t13);
    lemma_concat_associative(l10, a11, t12);
    lemma_concat_associative(l9, a10, t11);
    lemma_concat_associative(l8, a9, t10);
    lemma_concat_associative(l7, a8, t9);
    lemma_concat_associative(l6, a7, t8);
    lemma_concat_associative(l5, a6, t7);
    lemma_concat_associative(l4, a5, t6);
    lemma_concat_associative(l3, a4, t5);
    lemma_concat_associative(l2, a3, t4);
    lemma_concat_associative(a1, a2, t3);
    assert(cmd_json(v, p) == t1);
    assert(t1 == cmd_text(v, p));
}

/// The tail of the document parses back to the record's last two fields.
#[verifier::rlimit(100)]
proof fn lemma_cmd_tail_parse(
    v: CmdResultV,
    p: bool,
    s: Seq<char>,
    i: int,
    sout: Seq<char>,
    serr: Seq<char>,
)
    requires
        0 <= i <= s.len(),
        s.subrange(i, s.len() as int) == cmd_tail_text(v, p),
    ensures
        parse_cmd_tail(s, i, sout, serr) == Some(
            CmdResultV { stdout: sout, stderr: serr, exit_code: v.exit_code, success: v.success },
        ),
{
    reveal_strlit("{");
    reveal_strlit("}");
    reveal_strlit(":");
    reveal_strlit(",");
    reveal_strlit("\"exit_code\"");
    reveal_strlit("\"success\"");
    reveal_strlit("true");
    reveal_strlit("false");
    lemma_ws_chars(p);
    assert((' ' as u32) == 32 && ('\n' as u32) == 10 && ('\t' as u32) == 9 && ('\r' as u32)
        == 13);
    assert((',' as u32) == 44 && ('}' as u32) == 125);
    assert(('t' as u32) == 116 && ('f' as u32) == 102);
    proof_dec_int_head_not_ws(v.exit_code as int);
    let r26 = "}"@;
    let r25 = ws_close(p) + r26;
    let r24 = bool_lit(v.success) + r25;
    let r23 = ws_sp(p) + r24;
    let r22 = ":"@ + r23;
    let r21 = "\"success\""@ + r22;
    let r20 = ws_mid(p) + r21;
    let r19 = ","@ + r20;
    let r18 = dec_int(v.exit_code as int) + r19;
    let r17 = ws_sp(p) + r18;
    let r16 = ":"@ + r17;
    let r15 = "\"exit_code\""@ + r16;
    assert(s.subrange(i, s.len() as int) == ws_mid(p) + r15);
    assert(r15[0] == "\"exit_code\""@[0]);
    lemma_skip_ws_run(s, i, ws_mid(p), r15);
    let i14: int = i + ws_mid(p).len() as int;
    lemma_parse_lit_at(s, i14, "\"exit_code\""@, r16);
    let i15: int = i14 + "\"exit_code\""@.len() as int;
    lemma_parse_lit_at(s, i15, ":"@, r17);
    let i16: int = i15 + ":"@.len() as int;
    assert(r18[0] == dec_int(v.exit_code as int)[0]);
    lemma_skip_ws_run(s, i16, ws_sp(p), r18);
    let i17: int = i16 + ws_sp(p).len() as int;
    assert(r19[0] == ',');
    lemma_parse_i32_at(v.exit_code, s, i17, r19);
    let i18: int = i17 + dec_int(v.exit_code as int).len() as int;
    lemma_parse_lit_at(s, i18, ","@, r20);
    let i19: int = i18 + ","@.len() as int;
    assert(r21[0] == "\"success\""@[0]);
    lemma_skip_ws_run(s, i19, ws_mid(p), r21);
    let i20: int = i19 + ws_mid(p).len() as int;
    lemma_parse_lit_at(s, i20, "\"success\""@, r22);
    let i21: int = i20 + "\"success\""@.len() as int;
    lemma_parse_lit_at(s, i21, ":"@, r23);
    let i22: int = i21 + ":"@.len() as int;
    assert(r24[0] == bool_lit(v.success)[0]);
    assert(!crate::parse::is_ws(bool_lit(v.success)[0]));
    lemma_skip_ws_run(s, i22, ws_sp(p), r24);
    let i23: int = i22 + ws_sp(p).len() as int;
    lemma_parse_bool_at(v.success, s, i23, r25);
    let i24: int = i23 + bool_lit(v.success).len() as int;
    assert(r26[0] == '}');
    lemma_skip_ws_run(s, i24, ws_close(p), r26);
    let i25: int = i24 + ws_close(p).len() as int;
    assert(s.subrange(i25, s.len() as int) == "}"@ + Seq::<char>::empty());
    lemma_parse_lit_at(s, i25, "}"@, Seq::empty());
    let i26: int = i25 + "}"@.len() as int;
    assert(i26 == s.len());
}

/// The middle of the document parses back to the record's `stderr` field
/// and the rest.
#[verifier::rlimit(100)]
proof fn lemma_cmd_mid_parse(v: CmdResultV, p: bool, s: Seq<char>, i: int, sout: Seq<char>)
    requires
        0 <= i <= s.len(),
        s.subrange(i, s.len() as int) == cmd_mid_text(v, p),
    ensures
        parse_cmd_mid(s, i, sout) == Some(
            CmdResultV {
                stdout: sout,
                stderr: v.stderr,
                exit_code: v.exit_code,
                success: v.success,
            },
        ),
{
    reveal_strlit(":");
    reveal_strlit(",");
    reveal_strlit("\"stderr\"");
    lemma_ws_chars(p);
    assert((' ' as u32) == 32 && ('\n' as u32) == 10 && ('\t' as u32) == 9 && ('\r' as u32)
        == 13);
    let r13 = cmd_tail_text(v, p);
    let r12 = ","@ + r13;
    let r11 = json_string(v.stderr) + r12;
    let r10 = ws_sp(p) + r11;
    let r9 = ":"@ + r10;
    let r8 = "\"stderr\""@ + r9;
    assert(s.subrange(i, s.len() as int) == ws_mid(p) + r8);
    assert(r8[0] == "\"stderr\""@[0]);
    lemma_skip_ws_run(s, i, ws_mid(p), r8);
    let i8: int = i + ws_mid(p).len() as int;
    lemma_parse_lit_at(s, i8, "\"stderr\""@, r9);
    let i9: int = i8 + "\"stderr\""@.len() as int;
    lemma_parse_lit_at(s, i9, ":"@, r10);
    let i10: int = i9 + ":"@.len() as int;
    assert(r11[0] == json_string(v.stderr)[0]);
    assert(json_string(v.stderr)[0] == '"');
    assert(('"' as u32) == 34);
    lemma_skip_ws_run(s, i10, ws_sp(p), r11);
    let i11: int = i10 + ws_sp(p).len() as int;
    lemma_parse_string_at(v.stderr, s, i11, r12);
    let i12: int = i11 + json_string(v.stderr).len() as int;
    lemma_parse_lit_at(s, i12, ","@, r13);
    let i13: int = i12 + ","@.len() as int;
    lemma_cmd_tail_parse(v, p, s, i13, sout, v.stderr);
}

/// The re-grouped document parses back to exactly its record value.
#[verifier::rlimit(100)]
proof fn lemma_cmd_text_parse(v: CmdResultV, p: bool)
    ensures
        parse_cmd(cmd_text(v, p)) == Some(v),
{
    let s = cmd_text(v, p);
    reveal_strlit("{");
    reveal_strlit(":");
    reveal_strlit(",");
    reveal_strlit("\"stdout\"");
    lemma_ws_chars(p);
    assert((' ' as u32) == 32 && ('\n' as u32) == 10 && ('\t' as u32) == 9 && ('\r' as u32)
        == 13);
    let r7 = cmd_mid_text(v, p);
    let r6 = ","@ + r7;
    let r5 = json_string(v.stdout) + r6;
    let r4 = ws_sp(p) + r5;
    let r3 = ":"@ + r4;
    let r2 = "\"stdout\""@ + r3;
    let r1 = ws_open(p) + r2;
    assert(s.subrange(0, s.len() as int) =~= s);
    assert(s == "{"@ + r1);
    lemma_parse_lit_at(s, 0, "{"@, r1);
    let i1: int = "{"@.len() as int;
    assert(r2[0] == "\"stdout\""@[0]);
    lemma_skip_ws_run(s, i1, ws_open(p), r2);
    let i2: int = i1 + ws_open(p).len() as int;
    lemma_parse_lit_at(s, i2, "\"stdout\""@, r3);
    let i3: int = i2 + "\"stdout\""@.len() as int;
    lemma_parse_lit_at(s, i3, ":"@, r4);
    let i4: int = i3 + ":"@.len() as int;
    assert(r5[0] == json_string(v.stdout)[0]);
    assert(json_string(v.stdout)[0] == '"');
    assert(('"' as u32) == 34);
    lemma_skip_ws_run(s, i4, ws_sp(p), r5);
    let i5: int = i4 + ws_sp(p).len() as int;
    lemma_parse_string_at(v.stdout, s, i5, r6);
    let i6: int = i5 + json_string(v.stdout).len() as int;
    lemma_parse_lit_at(s, i6, ","@, r7);
    let i7: int = i6 + ","@.len() as int;
    lemma_cmd_mid_parse(v, p, s, i7, v.stdout);
    assert(parse_cmd(s) == Some(
        CmdResultV {
            stdout: v.stdout,
            stderr: v.stderr,
            exit_code: v.exit_code,
            success: v.success,
        },
    ));
    assert(CmdResultV {
        stdout: v.stdout,
        stderr: v.stderr,
        exit_code: v.exit_code,
        success: v.success,
    } == v);
}

/// JSON round trip: the document rendered for any command-result value, in
/// either mode, deserializes back to exactly that value.
pub proof fn lemma_cmd_json_round_trip(v: CmdResultV, pretty: bool)
    ensures
        parse_cmd(cmd_json(v, pretty)) == Some(v),
{
    lemma_cmd_json_shape(v, pretty);
    lemma_cmd_text_parse(v, pretty);
}

/// The first character of a rendered number is a digit or a minus sign, so
/// never whitespace.
proof fn proof_dec_int_head_not_ws(n: int)
    ensures
        dec_int(n).len() > 0,
        !crate::parse::is_ws(dec_int(n)[0]),
        n >= 0 ==> crate::json::is_digit(dec_int(n)[0]),
{
    assert((' ' as u32) == 32 && ('\n' as u32) == 10 && ('\t' as u32) == 9 && ('\r' as u32) == 13);
    assert(('-' as u32) == 45);
    if n >= 0 {
        lemma_dec_nat_digits(n as nat);
        assert(dec_int(n) == dec_nat(n as nat));
    } else {
        lemma_dec_nat_digits((-n) as nat);
        assert(dec_int(n)[0] == '-');
    }
}

/// Compact and pretty renderings of the same command result carry the same
/// value: both parse back to it.
pub proof fn lemma_cmd_json_modes_agree(v: CmdResultV)
    ensures
        parse_cmd(cmd_json(v, true)) == parse_cmd(cmd_json(v, false)),
        parse_cmd(cmd_json(v, true)) == Some(v),
{
    lemma_cmd_json_round_trip(v, true);
    lemma_cmd_json_round_trip(v, false);
}

} // verus!
