//! The counter-report decoder: the first line is always the aggregate CPU
//! line; every later line whose label begins with the per-core prefix adds a
//! per-core row; the remaining lines are matched by a left-anchored label
//! and parsed as one counter or a row of counters. Unmatched lines are
//! ignored and missing lines leave their fields at zero.

use vstd::prelude::*;
use vstd::string::StringSliceAdditionalSpecFns;
use crate::DecodeError;
use crate::numbers::{
    dec_digits, dec_u32_of, dec_u64_of, lemma_dec_digits_val, lemma_digits_clean, parse_u32_dec,
    parse_u64_dec, u64_to_dec,
};
use crate::scan::{
    has_prefix, join_bytes, lemma_differs, lemma_nl_join_lines, lemma_sp_join_clean,
    lemma_sp_join_tokens, line_clean, lines_of, nl_join, push_all, sp_join, split_lines,
    split_tokens, starts_with, token_clean, tokens_of, views_of, NL, SP,
};

verus! {

/// One snapshot of system-wide scheduling and interrupt counters.
#[derive(Clone, Debug, PartialEq)]
pub struct Stat {
    /// Aggregate CPU tick counters, from the first line.
    pub cpu: Vec<u64>,
    /// Per-core tick counter rows, in document order.
    pub cpus: Vec<Vec<u64>>,
    /// Interrupt totals.
    pub intr: Vec<u64>,
    /// Context switches.
    pub ctxt: u64,
    /// Boot time, seconds since the epoch.
    pub btime: u32,
    /// Processes created.
    pub processes: u32,
    pub procs_running: u32,
    pub procs_blocked: u32,
    /// Soft-interrupt totals.
    pub softirq: Vec<u64>,
}

/// The mathematical content of a counter report.
#[verifier::ext_equal]
pub ghost struct StatView {
    pub cpu: Seq<u64>,
    pub cpus: Seq<Seq<u64>>,
    pub intr: Seq<u64>,
    pub ctxt: u64,
    pub btime: u32,
    pub processes: u32,
    pub procs_running: u32,
    pub procs_blocked: u32,
    pub softirq: Seq<u64>,
}

impl View for Stat {
    type V = StatView;

    open spec fn view(&self) -> StatView {
        StatView {
            cpu: self.cpu@,
            cpus: self.cpus@.map_values(|v: Vec<u64>| v@),
            intr: self.intr@,
            ctxt: self.ctxt,
            btime: self.btime,
            processes: self.processes,
            procs_running: self.procs_running,
            procs_blocked: self.procs_blocked,
            softirq: self.softirq@,
        }
    }
}

/// The all-zero, all-empty report: what an empty input decodes to.
pub open spec fn stat_zero() -> StatView {
    StatView {
        cpu: Seq::empty(),
        cpus: Seq::empty(),
        intr: Seq::empty(),
        ctxt: 0,
        btime: 0,
        processes: 0,
        procs_running: 0,
        procs_blocked: 0,
        softirq: Seq::empty(),
    }
}

impl Default for Stat {
    /// The explicit all-zero record.
    fn default() -> (r: Stat)
        ensures
            r@ == stat_zero(),
    {
        let r = Stat {
            cpu: Vec::new(),
            cpus: Vec::new(),
            intr: Vec::new(),
            ctxt: 0,
            btime: 0,
            processes: 0,
            procs_running: 0,
            procs_blocked: 0,
            softirq: Vec::new(),
        };
        proof {
            assert(r@.cpus =~= stat_zero().cpus);
            assert(r@ =~= stat_zero());
        }
        r
    }
}

// ---------------------------------------------------------------------------
// Labels.
// ---------------------------------------------------------------------------

pub open spec fn lab_cpu() -> Seq<u8> {
    seq!['c' as u8, 'p' as u8, 'u' as u8]
}

pub open spec fn lab_intr() -> Seq<u8> {
    seq!['i' as u8, 'n' as u8, 't' as u8, 'r' as u8]
}

pub open spec fn lab_ctxt() -> Seq<u8> {
    seq!['c' as u8, 't' as u8, 'x' as u8, 't' as u8]
}

pub open spec fn lab_btime() -> Seq<u8> {
    seq!['b' as u8, 't' as u8, 'i' as u8, 'm' as u8, 'e' as u8]
}

pub open spec fn lab_processes() -> Seq<u8> {
    seq!['p' as u8, 'r' as u8, 'o' as u8, 'c' as u8, 'e' as u8, 's' as u8, 's' as u8, 'e' as u8, 's' as u8]
}

pub open spec fn lab_procs_running() -> Seq<u8> {
    seq![
        'p' as u8, 'r' as u8, 'o' as u8, 'c' as u8, 's' as u8, '_' as u8, 'r' as u8, 'u' as u8,
        'n' as u8, 'n' as u8, 'i' as u8, 'n' as u8, 'g' as u8,
    ]
}

pub open spec fn lab_procs_blocked() -> Seq<u8> {
    seq![
        'p' as u8, 'r' as u8, 'o' as u8, 'c' as u8, 's' as u8, '_' as u8, 'b' as u8, 'l' as u8,
        'o' as u8, 'c' as u8, 'k' as u8, 'e' as u8, 'd' as u8,
    ]
}

pub open spec fn lab_softirq() -> Seq<u8> {
    seq!['s' as u8, 'o' as u8, 'f' as u8, 't' as u8, 'i' as u8, 'r' as u8, 'q' as u8]
}

// ---------------------------------------------------------------------------
// Token parsing shared by the counter and memory reports.
// ---------------------------------------------------------------------------

/// The tokens of a line after its label token.
pub open spec fn rest_tokens(line: Seq<u8>) -> Seq<Seq<u8>> {
    let toks = tokens_of(line);
    if toks.len() == 0 {
        toks
    } else {
        toks.drop_first()
    }
}

pub open spec fn u64s_go(ts: Seq<Seq<u8>>, acc: Seq<u64>) -> Result<Seq<u64>, DecodeError>
    decreases ts.len(),
{
    if ts.len() == 0 {
        Ok(acc)
    } else {
        match dec_u64_of(ts[0]) {
            Err(e) => Err(e),
            Ok(v) => u64s_go(ts.drop_first(), acc.push(v)),
        }
    }
}

/// The values of all tokens after the label; the first malformed token
/// fails the line.
pub open spec fn vals_after(line: Seq<u8>) -> Result<Seq<u64>, DecodeError> {
    u64s_go(rest_tokens(line), Seq::empty())
}

/// The value of the single token after the label.
pub open spec fn second_u64(line: Seq<u8>) -> Result<u64, DecodeError> {
    let toks = tokens_of(line);
    if toks.len() < 2 {
        Err(DecodeError::MissingField)
    } else {
        dec_u64_of(toks[1])
    }
}

pub open spec fn second_u32(line: Seq<u8>) -> Result<u32, DecodeError> {
    let toks = tokens_of(line);
    if toks.len() < 2 {
        Err(DecodeError::MissingField)
    } else {
        dec_u32_of(toks[1])
    }
}

pub open spec fn vals_view(r: Result<Vec<u64>, DecodeError>) -> Result<Seq<u64>, DecodeError> {
    match r {
        Ok(v) => Ok(v@),
        Err(e) => Err(e),
    }
}

/// Parse every token after the label as a decimal counter.
pub fn to_vecu64(line: &[u8]) -> (r: Result<Vec<u64>, DecodeError>)
    ensures
        vals_view(r) == vals_after(line@),
{
    let toks = split_tokens(line);
    let ghost rest = rest_tokens(line@);
    let mut out: Vec<u64> = Vec::new();
    if toks.len() == 0 {
        proof {
            assert(out@ =~= Seq::<u64>::empty());
            assert(rest =~= Seq::<Seq<u8>>::empty());
        }
        return Ok(out);
    }
    let mut i: usize = 1;
    proof {
        assert(rest =~= views_of(toks@).drop_first());
        assert(rest.skip(0) =~= rest);
        assert(out@ =~= Seq::<u64>::empty());
    }
    while i < toks.len()
        invariant
            1 <= i <= toks@.len(),
            views_of(toks@) == tokens_of(line@),
            tokens_of(line@).len() == toks@.len(),
            tokens_of(line@).len() >= 1,
            rest == rest_tokens(line@),
            rest == views_of(toks@).drop_first(),
            u64s_go(rest, Seq::empty()) == u64s_go(rest.skip(i - 1), out@),
        decreases toks@.len() - i,
    {
        proof {
            assert(rest.skip(i - 1)[0] == rest[i - 1]);
            assert(rest[i - 1] == views_of(toks@)[i as int]);
            assert(views_of(toks@)[i as int] == toks@[i as int]@);
            assert(rest.skip(i - 1).drop_first() =~= rest.skip(i as int));
        }
        match parse_u64_dec(toks[i].as_slice()) {
            Ok(v) => {
                out.push(v);
            },
            Err(e) => {
                return Err(e);
            },
        }
        i = i + 1;
    }
    proof {
        assert(rest.skip(i - 1) =~= Seq::<Seq<u8>>::empty());
    }
    Ok(out)
}

/// Parse the single token after the label as a decimal counter.
pub fn to_u64(line: &[u8]) -> (r: Result<u64, DecodeError>)
    ensures
        r == second_u64(line@),
{
    let toks = split_tokens(line);
    if toks.len() < 2 {
        return Err(DecodeError::MissingField);
    }
    proof {
        assert(views_of(toks@)[1] == toks@[1]@);
    }
    parse_u64_dec(toks[1].as_slice())
}

pub fn to_u32(line: &[u8]) -> (r: Result<u32, DecodeError>)
    ensures
        r == second_u32(line@),
{
    let toks = split_tokens(line);
    if toks.len() < 2 {
        return Err(DecodeError::MissingField);
    }
    proof {
        assert(views_of(toks@)[1] == toks@[1]@);
    }
    parse_u32_dec(toks[1].as_slice())
}

// ---------------------------------------------------------------------------
// Line rules.
// ---------------------------------------------------------------------------

/// The label-matched rules, applied to every line independently of its
/// position; at most one label matches a line.
pub open spec fn stat_label_update(st: StatView, line: Seq<u8>, idx: int) -> Result<
    StatView,
    DecodeError,
> {
    if has_prefix(line, lab_cpu()) && idx > 0 {
        match vals_after(line) {
            Err(e) => Err(e),
            Ok(vs) => Ok(StatView { cpus: st.cpus.push(vs), ..st }),
        }
    } else if has_prefix(line, lab_intr()) {
        match vals_after(line) {
            Err(e) => Err(e),
            Ok(vs) => Ok(StatView { intr: vs, ..st }),
        }
    } else if has_prefix(line, lab_ctxt()) {
        match second_u64(line) {
            Err(e) => Err(e),
            Ok(v) => Ok(StatView { ctxt: v, ..st }),
        }
    } else if has_prefix(line, lab_btime()) {
        match second_u32(line) {
            Err(e) => Err(e),
            Ok(v) => Ok(StatView { btime: v, ..st }),
        }
    } else if has_prefix(line, lab_processes()) {
        match second_u32(line) {
            Err(e) => Err(e),
            Ok(v) => Ok(StatView { processes: v, ..st }),
        }
    } else if has_prefix(line, lab_procs_running()) {
        match second_u32(line) {
            Err(e) => Err(e),
            Ok(v) => Ok(StatView { procs_running: v, ..st }),
        }
    } else if has_prefix(line, lab_procs_blocked()) {
        match second_u32(line) {
            Err(e) => Err(e),
            Ok(v) => Ok(StatView { procs_blocked: v, ..st }),
        }
    } else if has_prefix(line, lab_softirq()) {
        match vals_after(line) {
            Err(e) => Err(e),
            Ok(vs) => Ok(StatView { softirq: vs, ..st }),
        }
    } else {
        Ok(st)
    }
}

/// What one line contributes: the first line is unconditionally the
/// aggregate CPU line, and every line is also matched against the labels.
pub open spec fn stat_line_update(st: StatView, line: Seq<u8>, idx: int) -> Result<
    StatView,
    DecodeError,
> {
    if idx == 0 {
        match vals_after(line) {
            Err(e) => Err(e),
            Ok(vs) => stat_label_update(StatView { cpu: vs, ..st }, line, idx),
        }
    } else {
        stat_label_update(st, line, idx)
    }
}

pub open spec fn stat_go(ls: Seq<Seq<u8>>, idx: int, st: StatView) -> Result<StatView, DecodeError>
    decreases ls.len(),
{
    if ls.len() == 0 {
        Ok(st)
    } else {
        match stat_line_update(st, ls[0], idx) {
            Err(e) => Err(e),
            Ok(st2) => stat_go(ls.drop_first(), idx + 1, st2),
        }
    }
}

/// What decoding a counter-report text yields.
pub open spec fn spec_stat(text: Seq<u8>) -> Result<StatView, DecodeError> {
    stat_go(lines_of(text), 0, stat_zero())
}

pub open spec fn stat_res_view(r: Result<Stat, DecodeError>) -> Result<StatView, DecodeError> {
    match r {
        Ok(s) => Ok(s@),
        Err(e) => Err(e),
    }
}

/// Decoding an empty input yields the all-zero record, never a failure.
pub proof fn lemma_stat_empty(text: Seq<u8>)
    requires
        text.len() == 0,
    ensures
        spec_stat(text) == Ok::<StatView, DecodeError>(stat_zero()),
{
    assert(text =~= Seq::<u8>::empty());
    assert(lines_of(text).len() == 0);
}

fn stat_apply_line(st: Stat, line: &[u8], idx: usize) -> (r: Result<Stat, DecodeError>)
    ensures
        stat_res_view(r) == stat_line_update(st@, line@, idx as int),
{
    let mut s = st;
    let ghost st0 = st@;
    if idx == 0 {
        match to_vecu64(line) {
            Ok(vs) => {
                s.cpu = vs;
                proof {
                    assert(s@ =~= StatView { cpu: vs@, ..st0 });
                }
            },
            Err(e) => {
                return Err(e);
            },
        }
    }
    let ghost st1 = s@;
    let lab_cpu_a: [u8; 3] = ['c' as u8, 'p' as u8, 'u' as u8];
    let lab_intr_a: [u8; 4] = ['i' as u8, 'n' as u8, 't' as u8, 'r' as u8];
    let lab_ctxt_a: [u8; 4] = ['c' as u8, 't' as u8, 'x' as u8, 't' as u8];
    let lab_btime_a: [u8; 5] = ['b' as u8, 't' as u8, 'i' as u8, 'm' as u8, 'e' as u8];
    let lab_processes_a: [u8; 9] = [
        'p' as u8, 'r' as u8, 'o' as u8, 'c' as u8, 'e' as u8, 's' as u8, 's' as u8, 'e' as u8,
        's' as u8,
    ];
    let lab_procs_running_a: [u8; 13] = [
        'p' as u8, 'r' as u8, 'o' as u8, 'c' as u8, 's' as u8, '_' as u8, 'r' as u8, 'u' as u8,
        'n' as u8, 'n' as u8, 'i' as u8, 'n' as u8, 'g' as u8,
    ];
    let lab_procs_blocked_a: [u8; 13] = [
        'p' as u8, 'r' as u8, 'o' as u8, 'c' as u8, 's' as u8, '_' as u8, 'b' as u8, 'l' as u8,
        'o' as u8, 'c' as u8, 'k' as u8, 'e' as u8, 'd' as u8,
    ];
    let lab_softirq_a: [u8; 7] = [
        's' as u8, 'o' as u8, 'f' as u8, 't' as u8, 'i' as u8, 'r' as u8, 'q' as u8,
    ];
    proof {
        assert(lab_cpu_a@ =~= lab_cpu());
        assert(lab_intr_a@ =~= lab_intr());
        assert(lab_ctxt_a@ =~= lab_ctxt());
        assert(lab_btime_a@ =~= lab_btime());
        assert(lab_processes_a@ =~= lab_processes());
        assert(lab_procs_running_a@ =~= lab_procs_running());
        assert(lab_procs_blocked_a@ =~= lab_procs_blocked());
        assert(lab_softirq_a@ =~= lab_softirq());
    }
    if starts_with(line, lab_cpu_a.as_slice()) && idx > 0 {
        match to_vecu64(line) {
            Ok(vs) => {
                let ghost prev = s@;
                s.cpus.push(vs);
                proof {
                    assert(s@.cpus =~= prev.cpus.push(vs@));
                    assert(s@ =~= StatView { cpus: prev.cpus.push(vs@), ..prev });
                }
                Ok(s)
            },
            Err(e) => Err(e),
        }
    } else if starts_with(line, lab_intr_a.as_slice()) {
        match to_vecu64(line) {
            Ok(vs) => {
                s.intr = vs;
                proof {
                    assert(s@ =~= StatView { intr: vs@, ..st1 });
                }
                Ok(s)
            },
            Err(e) => Err(e),
        }
    } else if starts_with(line, lab_ctxt_a.as_slice()) {
        match to_u64(line) {
            Ok(v) => {
                s.ctxt = v;
                proof {
                    assert(s@ =~= StatView { ctxt: v, ..st1 });
                }
                Ok(s)
            },
            Err(e) => Err(e),
        }
    } else if starts_with(line, lab_btime_a.as_slice()) {
        match to_u32(line) {
            Ok(v) => {
                s.btime = v;
                proof {
                    assert(s@ =~= StatView { btime: v, ..st1 });
                }
                Ok(s)
            },
            Err(e) => Err(e),
        }
    } else if starts_with(line, lab_processes_a.as_slice()) {
        match to_u32(line) {
            Ok(v) => {
                s.processes = v;
                proof {
                    assert(s@ =~= StatView { processes: v, ..st1 });
                }
                Ok(s)
            },
            Err(e) => Err(e),
        }
    } else if starts_with(line, lab_procs_running_a.as_slice()) {
        match to_u32(line) {
            Ok(v) => {
                s.procs_running = v;
                proof {
                    assert(s@ =~= StatView { procs_running: v, ..st1 });
                }
                Ok(s)
            },
            Err(e) => Err(e),
        }
    } else if starts_with(line, lab_procs_blocked_a.as_slice()) {
        match to_u32(line) {
            Ok(v) => {
                s.procs_blocked = v;
                proof {
                    assert(s@ =~= StatView { procs_blocked: v, ..st1 });
                }
                Ok(s)
            },
            Err(e) => Err(e),
        }
    } else if starts_with(line, lab_softirq_a.as_slice()) {
        match to_vecu64(line) {
            Ok(vs) => {
                s.softirq = vs;
                proof {
                    assert(s@ =~= StatView { softirq: vs@, ..st1 });
                }
                Ok(s)
            },
            Err(e) => Err(e),
        }
    } else {
        Ok(s)
    }
}

/// Decode a counter report from its text, given as bytes.
pub fn stat_bytes(text: &[u8]) -> (r: Result<Stat, DecodeError>)
    ensures
        stat_res_view(r) == spec_stat(text@),
{
    let lines = split_lines(text);
    let ghost ls = lines_of(text@);
    let mut st = Stat::default();
    let mut i: usize = 0;
    proof {
        assert(ls.skip(0) =~= ls);
    }
    while i < lines.len()
        invariant
            0 <= i <= lines@.len(),
            views_of(lines@) == lines_of(text@),
            lines_of(text@).len() == lines@.len(),
            ls == lines_of(text@),
            stat_go(ls, 0, stat_zero()) == stat_go(ls.skip(i as int), i as int, st@),
        decreases lines@.len() - i,
    {
        proof {
            assert(ls.skip(i as int)[0] == ls[i as int]);
            assert(ls[i as int] == views_of(lines@)[i as int]);
            assert(views_of(lines@)[i as int] == lines@[i as int]@);
            assert(ls.skip(i as int).drop_first() =~= ls.skip(i as int + 1));
        }
        match stat_apply_line(st, lines[i].as_slice(), i) {
            Ok(s2) => {
                st = s2;
            },
            Err(e) => {
                return Err(e);
            },
        }
        i = i + 1;
    }
    proof {
        assert(ls.skip(i as int) =~= Seq::<Seq<u8>>::empty());
    }
    Ok(st)
}

/// Decode a counter report from its text.
pub fn stat(text: &str) -> (r: Result<Stat, DecodeError>)
    ensures
        stat_res_view(r) == spec_stat(text.spec_bytes()),
{
    stat_bytes(text.as_bytes())
}

// ---------------------------------------------------------------------------
// Canonical text, and the round trip back through the decoder.
// ---------------------------------------------------------------------------

/// The label every per-core line of a canonical text carries: the core
/// index is implicit in document order and is not decoded, so the label
/// need only begin with the per-core prefix.
pub open spec fn lab_cpu0() -> Seq<u8> {
    seq!['c' as u8, 'p' as u8, 'u' as u8, '0' as u8]
}

pub open spec fn dec_tokens(vs: Seq<u64>) -> Seq<Seq<u8>> {
    vs.map_values(|x: u64| dec_digits(x as nat))
}

/// A canonical line holding a label and a row of counters.
pub open spec fn stat_vec_line(lab: Seq<u8>, vs: Seq<u64>) -> Seq<u8> {
    sp_join(seq![lab] + dec_tokens(vs))
}

/// A canonical line holding a label and one counter.
pub open spec fn stat_scalar_line(lab: Seq<u8>, v: u64) -> Seq<u8> {
    sp_join(seq![lab, dec_digits(v as nat)])
}

pub open spec fn canon_stat_lines(v: StatView) -> Seq<Seq<u8>> {
    seq![stat_vec_line(lab_cpu(), v.cpu)] + v.cpus.map_values(
        |row: Seq<u64>| stat_vec_line(lab_cpu0(), row),
    ) + seq![
        stat_vec_line(lab_intr(), v.intr),
        stat_scalar_line(lab_ctxt(), v.ctxt),
        stat_scalar_line(lab_btime(), v.btime as u64),
        stat_scalar_line(lab_processes(), v.processes as u64),
        stat_scalar_line(lab_procs_running(), v.procs_running as u64),
        stat_scalar_line(lab_procs_blocked(), v.procs_blocked as u64),
        stat_vec_line(lab_softirq(), v.softirq),
    ]
}

/// The canonical text of a counter report: one line per field in a fixed
/// order, tokens joined by single blanks, lines by single line breaks.
pub open spec fn canon_stat(v: StatView) -> Seq<u8> {
    nl_join(canon_stat_lines(v))
}

proof fn lemma_u64s_digits(vs: Seq<u64>, acc: Seq<u64>)
    ensures
        u64s_go(dec_tokens(vs), acc) == Ok::<Seq<u64>, DecodeError>(acc + vs),
    decreases vs.len(),
{
    if vs.len() == 0 {
        assert(dec_tokens(vs).len() == 0);
        assert(acc + vs =~= acc);
    } else {
        let d = dec_tokens(vs);
        assert(d[0] == dec_digits(vs[0] as nat));
        lemma_dec_digits_val(vs[0] as nat);
        assert(dec_u64_of(d[0]) == Ok::<u64, DecodeError>(vs[0]));
        assert(d.drop_first() =~= dec_tokens(vs.drop_first()));
        lemma_u64s_digits(vs.drop_first(), acc.push(vs[0]));
        assert(acc.push(vs[0]) + vs.drop_first() =~= acc + vs);
    }
}

/// What a canonical counter-row line looks like to the scanner.
proof fn lemma_vec_line(lab: Seq<u8>, vs: Seq<u64>)
    requires
        token_clean(lab),
    ensures
        tokens_of(stat_vec_line(lab, vs)) == seq![lab] + dec_tokens(vs),
        line_clean(stat_vec_line(lab, vs)),
        vals_after(stat_vec_line(lab, vs)) == Ok::<Seq<u64>, DecodeError>(vs),
        stat_vec_line(lab, vs).len() >= lab.len(),
        forall|k: int| 0 <= k < lab.len() ==> #[trigger] stat_vec_line(lab, vs)[k] == lab[k],
        has_prefix(stat_vec_line(lab, vs), lab),
{
    let ts = seq![lab] + dec_tokens(vs);
    assert forall|i: int| 0 <= i < ts.len() implies token_clean(#[trigger] ts[i]) by {
        if i > 0 {
            assert(ts[i] == dec_tokens(vs)[i - 1]);
            assert(dec_tokens(vs)[i - 1] == dec_digits(vs[i - 1] as nat));
            lemma_dec_digits_val(vs[i - 1] as nat);
            lemma_digits_clean(dec_digits(vs[i - 1] as nat));
        }
    }
    lemma_sp_join_tokens(ts);
    lemma_sp_join_clean(ts);
    let line = stat_vec_line(lab, vs);
    if vs.len() == 0 {
        assert(ts =~= seq![lab]);
        assert(line == lab);
    } else {
        assert(ts.len() >= 2);
        assert(line == ts[0] + seq![SP] + sp_join(ts.drop_first()));
        assert(ts[0] == lab);
        assert forall|k: int| 0 <= k < lab.len() implies #[trigger] line[k] == lab[k] by {
            assert(line[k] == (lab + seq![SP] + sp_join(ts.drop_first()))[k]);
        }
    }
    assert(has_prefix(line, lab));
    assert(rest_tokens(line) =~= dec_tokens(vs));
    lemma_u64s_digits(vs, Seq::empty());
    assert(Seq::<u64>::empty() + vs =~= vs);
}

/// What a canonical one-counter line looks like to the scanner.
pub proof fn lemma_scalar_line(lab: Seq<u8>, v: u64)
    requires
        token_clean(lab),
    ensures
        tokens_of(stat_scalar_line(lab, v)) == seq![lab, dec_digits(v as nat)],
        line_clean(stat_scalar_line(lab, v)),
        second_u64(stat_scalar_line(lab, v)) == Ok::<u64, DecodeError>(v),
        v <= u32::MAX ==> second_u32(stat_scalar_line(lab, v)) == Ok::<u32, DecodeError>(
            v as u32,
        ),
        stat_scalar_line(lab, v).len() >= lab.len(),
        forall|k: int| 0 <= k < lab.len() ==> #[trigger] stat_scalar_line(lab, v)[k] == lab[k],
        has_prefix(stat_scalar_line(lab, v), lab),
{
    let ts = seq![lab, dec_digits(v as nat)];
    lemma_dec_digits_val(v as nat);
    lemma_digits_clean(dec_digits(v as nat));
    assert forall|i: int| 0 <= i < ts.len() implies token_clean(#[trigger] ts[i]) by {
        if i == 0 {
            assert(ts[i] == lab);
        } else {
            assert(ts[i] == dec_digits(v as nat));
        }
    }
    lemma_sp_join_tokens(ts);
    lemma_sp_join_clean(ts);
    let line = stat_scalar_line(lab, v);
    assert(ts.drop_first() =~= seq![dec_digits(v as nat)]);
    assert(sp_join(ts.drop_first()) == dec_digits(v as nat));
    assert(line == ts[0] + seq![SP] + dec_digits(v as nat));
    assert forall|k: int| 0 <= k < lab.len() implies #[trigger] line[k] == lab[k] by {
        assert(line[k] == (lab + seq![SP] + dec_digits(v as nat))[k]);
    }
    assert(has_prefix(line, lab));
    assert(tokens_of(line)[1] == dec_digits(v as nat));
    assert(dec_u64_of(dec_digits(v as nat)) == Ok::<u64, DecodeError>(v));
}

/// Per-core canonical lines append their rows, one per line, in order.
proof fn lemma_stat_cores(rows: Seq<Seq<u64>>, rest: Seq<Seq<u8>>, idx: int, st: StatView)
    requires
        idx >= 1,
    ensures
        stat_go(rows.map_values(|r: Seq<u64>| stat_vec_line(lab_cpu0(), r)) + rest, idx, st)
            == stat_go(rest, idx + rows.len(), StatView { cpus: st.cpus + rows, ..st }),
    decreases rows.len(),
{
    let lines = rows.map_values(|r: Seq<u64>| stat_vec_line(lab_cpu0(), r)) + rest;
    if rows.len() == 0 {
        assert(lines =~= rest);
        assert(st.cpus + rows =~= st.cpus);
        assert(StatView { cpus: st.cpus + rows, ..st } =~= st);
    } else {
        assert(token_clean(lab_cpu0()));
        lemma_vec_line(lab_cpu0(), rows[0]);
        let line = stat_vec_line(lab_cpu0(), rows[0]);
        assert(lines[0] == line);
        assert forall|k: int| 0 <= k < lab_cpu().len() implies #[trigger] line[k] == lab_cpu()[k]
            by {
            assert(line[k] == lab_cpu0()[k]);
        }
        assert(has_prefix(line, lab_cpu()));
        let st2 = StatView { cpus: st.cpus.push(rows[0]), ..st };
        assert(stat_line_update(st, line, idx) == Ok::<StatView, DecodeError>(st2));
        assert(lines.drop_first() =~= rows.drop_first().map_values(
            |r: Seq<u64>| stat_vec_line(lab_cpu0(), r),
        ) + rest);
        lemma_stat_cores(rows.drop_first(), rest, idx + 1, st2);
        assert(st2.cpus + rows.drop_first() =~= st.cpus + rows);
        assert(StatView { cpus: st2.cpus + rows.drop_first(), ..st2 } =~= StatView {
            cpus: st.cpus + rows,
            ..st
        });
    }
}

/// Decoding the canonical text of any report recovers the report exactly.
#[verifier::rlimit(100)]
#[verifier::spinoff_prover]
pub proof fn lemma_stat_round_trip(v: StatView)
    ensures
        spec_stat(canon_stat(v)) == Ok::<StatView, DecodeError>(v),
{
    let cores = v.cpus.map_values(|row: Seq<u64>| stat_vec_line(lab_cpu0(), row));
    let tail = seq![
        stat_vec_line(lab_intr(), v.intr),
        stat_scalar_line(lab_ctxt(), v.ctxt),
        stat_scalar_line(lab_btime(), v.btime as u64),
        stat_scalar_line(lab_processes(), v.processes as u64),
        stat_scalar_line(lab_procs_running(), v.procs_running as u64),
        stat_scalar_line(lab_procs_blocked(), v.procs_blocked as u64),
        stat_vec_line(lab_softirq(), v.softirq),
    ];
    let ls = canon_stat_lines(v);
    assert(token_clean(lab_cpu()));
    assert(token_clean(lab_cpu0()));
    assert(token_clean(lab_intr()));
    assert(token_clean(lab_ctxt()));
    assert(token_clean(lab_btime()));
    assert(token_clean(lab_processes()));
    assert(token_clean(lab_procs_running()));
    assert(token_clean(lab_procs_blocked()));
    assert(token_clean(lab_softirq()));
    lemma_vec_line(lab_cpu(), v.cpu);
    lemma_vec_line(lab_intr(), v.intr);
    lemma_scalar_line(lab_ctxt(), v.ctxt);
    lemma_scalar_line(lab_btime(), v.btime as u64);
    lemma_scalar_line(lab_processes(), v.processes as u64);
    lemma_scalar_line(lab_procs_running(), v.procs_running as u64);
    lemma_scalar_line(lab_procs_blocked(), v.procs_blocked as u64);
    lemma_vec_line(lab_softirq(), v.softirq);
    assert forall|i: int| 0 <= i < ls.len() implies line_clean(#[trigger] ls[i]) by {
        if 1 <= i < 1 + cores.len() {
            assert(ls[i] == cores[i - 1]);
            assert(cores[i - 1] == stat_vec_line(lab_cpu0(), v.cpus[i - 1]));
            lemma_vec_line(lab_cpu0(), v.cpus[i - 1]);
        } else if i >= 1 + cores.len() {
            assert(ls[i] == tail[i - 1 - cores.len()]);
        }
    }
    lemma_nl_join_lines(ls);
    assert(lines_of(canon_stat(v)) == ls);
    // Line 0: the aggregate CPU line.
    let l0 = stat_vec_line(lab_cpu(), v.cpu);
    assert(ls[0] == l0);
    let st1 = StatView { cpu: v.cpu, ..stat_zero() };
    assert(l0[0] == 'c' as u8 && l0[1] == 'p' as u8 && l0[2] == 'u' as u8);
    lemma_differs(l0, lab_intr(), 0);
    lemma_differs(l0, lab_ctxt(), 1);
    lemma_differs(l0, lab_btime(), 0);
    lemma_differs(l0, lab_processes(), 0);
    lemma_differs(l0, lab_procs_running(), 0);
    lemma_differs(l0, lab_procs_blocked(), 0);
    lemma_differs(l0, lab_softirq(), 0);
    assert(stat_label_update(st1, l0, 0) == Ok::<StatView, DecodeError>(st1));
    assert(stat_line_update(stat_zero(), l0, 0) == Ok::<StatView, DecodeError>(st1));
    assert(ls.drop_first() =~= cores + tail);
    // The per-core lines.
    lemma_stat_cores(v.cpus, tail, 1, st1);
    let st2 = StatView { cpus: st1.cpus + v.cpus, ..st1 };
    assert(st1.cpus + v.cpus =~= v.cpus);
    assert(stat_go(ls, 0, stat_zero()) == stat_go(tail, 1 + v.cpus.len() as int, st2));
    // The labelled tail lines, in order.
    let i0 = 1 + v.cpus.len() as int;
    let l_intr = stat_vec_line(lab_intr(), v.intr);
    assert(l_intr[0] == 'i' as u8);
    lemma_differs(l_intr, lab_cpu(), 0);
    let st3 = StatView { intr: v.intr, ..st2 };
    assert(stat_line_update(st2, l_intr, i0) == Ok::<StatView, DecodeError>(st3));
    assert(tail[0] == l_intr);
    assert(stat_go(tail, i0, st2) == stat_go(tail.drop_first(), i0 + 1, st3));
    assert(tail.drop_first() =~= seq![
        stat_scalar_line(lab_ctxt(), v.ctxt),
        stat_scalar_line(lab_btime(), v.btime as u64),
        stat_scalar_line(lab_processes(), v.processes as u64),
        stat_scalar_line(lab_procs_running(), v.procs_running as u64),
        stat_scalar_line(lab_procs_blocked(), v.procs_blocked as u64),
        stat_vec_line(lab_softirq(), v.softirq),
    ]);
    let t2 = tail.drop_first();
    let l_ctxt = stat_scalar_line(lab_ctxt(), v.ctxt);
    assert(l_ctxt[0] == 'c' as u8 && l_ctxt[1] == 't' as u8);
    lemma_differs(l_ctxt, lab_cpu(), 1);
    lemma_differs(l_ctxt, lab_intr(), 0);
    let st4 = StatView { ctxt: v.ctxt, ..st3 };
    assert(stat_line_update(st3, l_ctxt, i0 + 1) == Ok::<StatView, DecodeError>(st4));
    assert(t2[0] == l_ctxt);
    assert(stat_go(t2, i0 + 1, st3) == stat_go(t2.drop_first(), i0 + 2, st4));
    let t3 = t2.drop_first();
    assert(t3 =~= seq![
        stat_scalar_line(lab_btime(), v.btime as u64),
        stat_scalar_line(lab_processes(), v.processes as u64),
        stat_scalar_line(lab_procs_running(), v.procs_running as u64),
        stat_scalar_line(lab_procs_blocked(), v.procs_blocked as u64),
        stat_vec_line(lab_softirq(), v.softirq),
    ]);
    let l_btime = stat_scalar_line(lab_btime(), v.btime as u64);
    assert(l_btime[0] == 'b' as u8);
    lemma_differs(l_btime, lab_cpu(), 0);
    lemma_differs(l_btime, lab_intr(), 0);
    lemma_differs(l_btime, lab_ctxt(), 0);
    assert(v.btime as u64 <= u32::MAX);
    let st5 = StatView { btime: v.btime, ..st4 };
    assert(second_u32(l_btime) == Ok::<u32, DecodeError>(v.btime));
    assert(stat_line_update(st4, l_btime, i0 + 2) == Ok::<StatView, DecodeError>(st5));
    assert(t3[0] == l_btime);
    assert(stat_go(t3, i0 + 2, st4) == stat_go(t3.drop_first(), i0 + 3, st5));
    let t4 = t3.drop_first();
    assert(t4 =~= seq![
        stat_scalar_line(lab_processes(), v.processes as u64),
        stat_scalar_line(lab_procs_running(), v.procs_running as u64),
        stat_scalar_line(lab_procs_blocked(), v.procs_blocked as u64),
        stat_vec_line(lab_softirq(), v.softirq),
    ]);
    let l_processes = stat_scalar_line(lab_processes(), v.processes as u64);
    assert(l_processes[0] == 'p' as u8 && l_processes[1] == 'r' as u8);
    lemma_differs(l_processes, lab_cpu(), 0);
    lemma_differs(l_processes, lab_intr(), 0);
    lemma_differs(l_processes, lab_ctxt(), 0);
    lemma_differs(l_processes, lab_btime(), 0);
    let st6 = StatView { processes: v.processes, ..st5 };
    assert(stat_line_update(st5, l_processes, i0 + 3) == Ok::<StatView, DecodeError>(st6));
    assert(t4[0] == l_processes);
    assert(stat_go(t4, i0 + 3, st5) == stat_go(t4.drop_first(), i0 + 4, st6));
    let t5 = t4.drop_first();
    assert(t5 =~= seq![
        stat_scalar_line(lab_procs_running(), v.procs_running as u64),
        stat_scalar_line(lab_procs_blocked(), v.procs_blocked as u64),
        stat_vec_line(lab_softirq(), v.softirq),
    ]);
    let l_run = stat_scalar_line(lab_procs_running(), v.procs_running as u64);
    assert(l_run[0] == 'p' as u8 && l_run[4] == 's' as u8);
    lemma_differs(l_run, lab_cpu(), 0);
    lemma_differs(l_run, lab_intr(), 0);
    lemma_differs(l_run, lab_ctxt(), 0);
    lemma_differs(l_run, lab_btime(), 0);
    lemma_differs(l_run, lab_processes(), 4);
    let st7 = StatView { procs_running: v.procs_running, ..st6 };
    assert(stat_line_update(st6, l_run, i0 + 4) == Ok::<StatView, DecodeError>(st7));
    assert(t5[0] == l_run);
    assert(stat_go(t5, i0 + 4, st6) == stat_go(t5.drop_first(), i0 + 5, st7));
    let t6 = t5.drop_first();
    assert(t6 =~= seq![
        stat_scalar_line(lab_procs_blocked(), v.procs_blocked as u64),
        stat_vec_line(lab_softirq(), v.softirq),
    ]);
    let l_blk = stat_scalar_line(lab_procs_blocked(), v.procs_blocked as u64);
    assert(l_blk[0] == 'p' as u8 && l_blk[4] == 's' as u8 && l_blk[6] == 'b' as u8);
    lemma_differs(l_blk, lab_cpu(), 0);
    lemma_differs(l_blk, lab_intr(), 0);
    lemma_differs(l_blk, lab_ctxt(), 0);
    lemma_differs(l_blk, lab_btime(), 0);
    lemma_differs(l_blk, lab_processes(), 4);
    lemma_differs(l_blk, lab_procs_running(), 6);
    let st8 = StatView { procs_blocked: v.procs_blocked, ..st7 };
    assert(stat_line_update(st7, l_blk, i0 + 5) == Ok::<StatView, DecodeError>(st8));
    assert(t6[0] == l_blk);
    assert(stat_go(t6, i0 + 5, st7) == stat_go(t6.drop_first(), i0 + 6, st8));
    let t7 = t6.drop_first();
    assert(t7 =~= seq![stat_vec_line(lab_softirq(), v.softirq)]);
    let l_soft = stat_vec_line(lab_softirq(), v.softirq);
    assert(l_soft[0] == 's' as u8);
    lemma_differs(l_soft, lab_cpu(), 0);
    lemma_differs(l_soft, lab_intr(), 0);
    lemma_differs(l_soft, lab_ctxt(), 0);
    lemma_differs(l_soft, lab_btime(), 0);
    lemma_differs(l_soft, lab_processes(), 0);
    lemma_differs(l_soft, lab_procs_running(), 0);
    lemma_differs(l_soft, lab_procs_blocked(), 0);
    let st9 = StatView { softirq: v.softirq, ..st8 };
    assert(stat_line_update(st8, l_soft, i0 + 6) == Ok::<StatView, DecodeError>(st9));
    assert(t7[0] == l_soft);
    assert(stat_go(t7, i0 + 6, st8) == stat_go(t7.drop_first(), i0 + 7, st9));
    let t8 = t7.drop_first();
    assert(t8 =~= Seq::<Seq<u8>>::empty());
    assert(stat_go(t8, i0 + 7, st9) == Ok::<StatView, DecodeError>(st9));
    assert(st9 =~= v);
    assert(t2 == tail.drop_first() && t3 == t2.drop_first() && t4 == t3.drop_first() && t5
        == t4.drop_first() && t6 == t5.drop_first() && t7 == t6.drop_first() && t8
        == t7.drop_first());
    assert(stat_go(tail, i0, st2) == Ok::<StatView, DecodeError>(v));
    assert(spec_stat(canon_stat(v)) == stat_go(ls, 0, stat_zero()));
    assert(stat_go(ls, 0, stat_zero()) == stat_go(cores + tail, 1, st1));
}

/// Render the canonical text of a counter report.
pub fn stat_text(st: &Stat) -> (r: Vec<u8>)
    ensures
        r@ == canon_stat(st@),
{
    let mut lines: Vec<Vec<u8>> = Vec::new();
    let lab_cpu_a: [u8; 3] = ['c' as u8, 'p' as u8, 'u' as u8];
    let lab_cpu0_a: [u8; 4] = ['c' as u8, 'p' as u8, 'u' as u8, '0' as u8];
    let lab_intr_a: [u8; 4] = ['i' as u8, 'n' as u8, 't' as u8, 'r' as u8];
    let lab_ctxt_a: [u8; 4] = ['c' as u8, 't' as u8, 'x' as u8, 't' as u8];
    let lab_btime_a: [u8; 5] = ['b' as u8, 't' as u8, 'i' as u8, 'm' as u8, 'e' as u8];
    let lab_processes_a: [u8; 9] = [
        'p' as u8, 'r' as u8, 'o' as u8, 'c' as u8, 'e' as u8, 's' as u8, 's' as u8, 'e' as u8,
        's' as u8,
    ];
    let lab_procs_running_a: [u8; 13] = [
        'p' as u8, 'r' as u8, 'o' as u8, 'c' as u8, 's' as u8, '_' as u8, 'r' as u8, 'u' as u8,
        'n' as u8, 'n' as u8, 'i' as u8, 'n' as u8, 'g' as u8,
    ];
    let lab_procs_blocked_a: [u8; 13] = [
        'p' as u8, 'r' as u8, 'o' as u8, 'c' as u8, 's' as u8, '_' as u8, 'b' as u8, 'l' as u8,
        'o' as u8, 'c' as u8, 'k' as u8, 'e' as u8, 'd' as u8,
    ];
    let lab_softirq_a: [u8; 7] = [
        's' as u8, 'o' as u8, 'f' as u8, 't' as u8, 'i' as u8, 'r' as u8, 'q' as u8,
    ];
    proof {
        assert(lab_cpu_a@ =~= lab_cpu());
        assert(lab_cpu0_a@ =~= lab_cpu0());
        assert(lab_intr_a@ =~= lab_intr());
        assert(lab_ctxt_a@ =~= lab_ctxt());
        assert(lab_btime_a@ =~= lab_btime());
        assert(lab_processes_a@ =~= lab_processes());
        assert(lab_procs_running_a@ =~= lab_procs_running());
        assert(lab_procs_blocked_a@ =~= lab_procs_blocked());
        assert(lab_softirq_a@ =~= lab_softirq());
    }
    lines.push(vec_line(lab_cpu_a.as_slice(), &st.cpu));
    let mut i: usize = 0;
    proof {
        assert(views_of(lines@) =~= seq![stat_vec_line(lab_cpu(), st@.cpu)] + st@.cpus.take(
            0,
        ).map_values(|row: Seq<u64>| stat_vec_line(lab_cpu0(), row)));
    }
    while i < st.cpus.len()
        invariant
            0 <= i <= st.cpus@.len(),
            st.cpus@.len() == st@.cpus.len(),
            lab_cpu_a@ == lab_cpu(),
            lab_cpu0_a@ == lab_cpu0(),
            views_of(lines@) == seq![stat_vec_line(lab_cpu(), st@.cpu)] + st@.cpus.take(
                i as int,
            ).map_values(|row: Seq<u64>| stat_vec_line(lab_cpu0(), row)),
        decreases st.cpus@.len() - i,
    {
        let ghost before = views_of(lines@);
        lines.push(vec_line(lab_cpu0_a.as_slice(), &st.cpus[i]));
        proof {
            assert(st@.cpus[i as int] == st.cpus@[i as int]@);
            assert(views_of(lines@) =~= before.push(stat_vec_line(lab_cpu0(), st@.cpus[i as int])));
            assert(st@.cpus.take(i as int + 1).map_values(
                |row: Seq<u64>| stat_vec_line(lab_cpu0(), row),
            ) =~= st@.cpus.take(i as int).map_values(|row: Seq<u64>| stat_vec_line(lab_cpu0(), row)).push(
                stat_vec_line(lab_cpu0(), st@.cpus[i as int]),
            ));
            assert(views_of(lines@) =~= seq![stat_vec_line(lab_cpu(), st@.cpu)] + st@.cpus.take(
                i as int + 1,
            ).map_values(|row: Seq<u64>| stat_vec_line(lab_cpu0(), row)));
        }
        i = i + 1;
    }
    lines.push(vec_line(lab_intr_a.as_slice(), &st.intr));
    lines.push(scalar_line(lab_ctxt_a.as_slice(), st.ctxt));
    lines.push(scalar_line(lab_btime_a.as_slice(), st.btime as u64));
    lines.push(scalar_line(lab_processes_a.as_slice(), st.processes as u64));
    lines.push(scalar_line(lab_procs_running_a.as_slice(), st.procs_running as u64));
    lines.push(scalar_line(lab_procs_blocked_a.as_slice(), st.procs_blocked as u64));
    lines.push(vec_line(lab_softirq_a.as_slice(), &st.softirq));
    proof {
        assert(st@.cpus.take(st@.cpus.len() as int) =~= st@.cpus);
        assert(views_of(lines@) =~= canon_stat_lines(st@));
    }
    join_bytes(&lines, NL)
}

/// Render a label and a row of counters as one line.
fn vec_line(lab: &[u8], vs: &Vec<u64>) -> (r: Vec<u8>)
    ensures
        r@ == stat_vec_line(lab@, vs@),
{
    let mut parts: Vec<Vec<u8>> = Vec::new();
    let mut lab_v: Vec<u8> = Vec::new();
    push_all(&mut lab_v, lab);
    proof {
        assert(lab_v@ =~= lab@);
    }
    parts.push(lab_v);
    let mut i: usize = 0;
    proof {
        assert(views_of(parts@) =~= seq![lab@] + dec_tokens(vs@.take(0)));
    }
    while i < vs.len()
        invariant
            0 <= i <= vs@.len(),
            views_of(parts@) == seq![lab@] + dec_tokens(vs@.take(i as int)),
        decreases vs@.len() - i,
    {
        let ghost before = views_of(parts@);
        parts.push(u64_to_dec(vs[i]));
        proof {
            assert(views_of(parts@) =~= before.push(dec_digits(vs@[i as int] as nat)));
            assert(dec_tokens(vs@.take(i as int + 1)) =~= dec_tokens(vs@.take(i as int)).push(
                dec_digits(vs@[i as int] as nat),
            ));
            assert(views_of(parts@) =~= seq![lab@] + dec_tokens(vs@.take(i as int + 1)));
        }
        i = i + 1;
    }
    proof {
        assert(vs@.take(vs@.len() as int) =~= vs@);
    }
    join_bytes(&parts, SP)
}

/// Render a label and one counter as one line.
pub fn scalar_line(lab: &[u8], v: u64) -> (r: Vec<u8>)
    ensures
        r@ == stat_scalar_line(lab@, v),
{
    let mut parts: Vec<Vec<u8>> = Vec::new();
    let mut lab_v: Vec<u8> = Vec::new();
    push_all(&mut lab_v, lab);
    proof {
        assert(lab_v@ =~= lab@);
    }
    parts.push(lab_v);
    parts.push(u64_to_dec(v));
    proof {
        assert(views_of(parts@) =~= seq![lab@, dec_digits(v as nat)]);
    }
    join_bytes(&parts, SP)
}

} // verus!
