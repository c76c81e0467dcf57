//! The line and token scanner shared by the three decoders: splitting a
//! report into lines, a line into whitespace-separated tokens, and a token
//! into colon-separated fields, together with the joining functions and
//! lemmas that relate a joined text back to its parts.

use vstd::prelude::*;

verus! {

pub const NL: u8 = 10;

pub const CR: u8 = 13;

pub const SP: u8 = 32;

pub const TAB: u8 = 9;

pub const COLON: u8 = 58;

pub open spec fn is_space(b: u8) -> bool {
    b == SP || b == TAB
}

/// A line as reported: without one trailing carriage return, if present.
pub open spec fn strip_cr(l: Seq<u8>) -> Seq<u8> {
    if l.len() > 0 && l.last() == CR {
        l.drop_last()
    } else {
        l
    }
}

/// The views of a vector of byte vectors.
pub open spec fn views_of(v: Seq<Vec<u8>>) -> Seq<Seq<u8>> {
    v.map_values(|x: Vec<u8>| x@)
}

// ---------------------------------------------------------------------------
// Lines: separated by newline bytes; a final line break is optional and adds
// no empty line; each line loses one trailing carriage return.
// ---------------------------------------------------------------------------

pub open spec fn lines_go(s: Seq<u8>, cur: Seq<u8>) -> Seq<Seq<u8>>
    decreases s.len(),
{
    if s.len() == 0 {
        if cur.len() == 0 {
            Seq::empty()
        } else {
            seq![strip_cr(cur)]
        }
    } else if s[0] == NL {
        seq![strip_cr(cur)] + lines_go(s.skip(1), Seq::empty())
    } else {
        lines_go(s.skip(1), cur.push(s[0]))
    }
}

/// The lines of a report text.
pub open spec fn lines_of(s: Seq<u8>) -> Seq<Seq<u8>> {
    lines_go(s, Seq::empty())
}

// ---------------------------------------------------------------------------
// Tokens: maximal runs of non-blank bytes, with blanks at either end ignored.
// ---------------------------------------------------------------------------

pub open spec fn tokens_go(s: Seq<u8>, cur: Seq<u8>) -> Seq<Seq<u8>>
    decreases s.len(),
{
    if s.len() == 0 {
        if cur.len() == 0 {
            Seq::empty()
        } else {
            seq![cur]
        }
    } else if is_space(s[0]) {
        if cur.len() == 0 {
            tokens_go(s.skip(1), Seq::empty())
        } else {
            seq![cur] + tokens_go(s.skip(1), Seq::empty())
        }
    } else {
        tokens_go(s.skip(1), cur.push(s[0]))
    }
}

/// The whitespace-separated tokens of a line.
pub open spec fn tokens_of(s: Seq<u8>) -> Seq<Seq<u8>> {
    tokens_go(s, Seq::empty())
}

// ---------------------------------------------------------------------------
// Colon-separated fields of a token; empty fields are kept, so the result
// always has one more field than the token has colons.
// ---------------------------------------------------------------------------

pub open spec fn fields_go(s: Seq<u8>, cur: Seq<u8>) -> Seq<Seq<u8>>
    decreases s.len(),
{
    if s.len() == 0 {
        seq![cur]
    } else if s[0] == COLON {
        seq![cur] + fields_go(s.skip(1), Seq::empty())
    } else {
        fields_go(s.skip(1), cur.push(s[0]))
    }
}

/// The colon-separated fields of a token.
pub open spec fn fields_of(s: Seq<u8>) -> Seq<Seq<u8>> {
    fields_go(s, Seq::empty())
}

// ---------------------------------------------------------------------------
// Executable splitters.
// ---------------------------------------------------------------------------

/// Split a report text into its lines.
pub fn split_lines(s: &[u8]) -> (r: Vec<Vec<u8>>)
    ensures
        views_of(r@) == lines_of(s@),
{
    let mut out: Vec<Vec<u8>> = Vec::new();
    let mut cur: Vec<u8> = Vec::new();
    let mut i: usize = 0;
    proof {
        assert(s@.skip(0) =~= s@);
        assert(views_of(out@) =~= Seq::<Seq<u8>>::empty());
        assert(views_of(out@) + lines_go(s@, cur@) =~= lines_go(s@, cur@));
    }
    while i < s.len()
        invariant
            0 <= i <= s@.len(),
            lines_of(s@) == views_of(out@) + lines_go(s@.skip(i as int), cur@),
        decreases s@.len() - i,
    {
        let b = s[i];
        proof {
            assert(s@.skip(i as int)[0] == s@[i as int]);
            assert(s@.skip(i as int).skip(1) =~= s@.skip(i as int + 1));
        }
        if b == NL {
            let ghost prev = cur@;
            let mut line = cur;
            cur = Vec::new();
            if line.len() > 0 && line[line.len() - 1] == CR {
                line.pop();
            }
            assert(line@ == strip_cr(prev));
            let ghost out_prev = out@;
            out.push(line);
            proof {
                assert(views_of(out@) =~= views_of(out_prev) + seq![strip_cr(prev)]);
                assert((views_of(out_prev) + seq![strip_cr(prev)]) + lines_go(
                    s@.skip(i as int + 1),
                    Seq::<u8>::empty(),
                ) =~= views_of(out_prev) + (seq![strip_cr(prev)] + lines_go(
                    s@.skip(i as int + 1),
                    Seq::<u8>::empty(),
                )));
            }
        } else {
            cur.push(b);
        }
        i = i + 1;
    }
    proof {
        assert(s@.skip(i as int) =~= Seq::<u8>::empty());
    }
    if cur.len() > 0 {
        let ghost prev = cur@;
        let mut line = cur;
        if line.len() > 0 && line[line.len() - 1] == CR {
            line.pop();
        }
        assert(line@ == strip_cr(prev));
        let ghost out_prev = out@;
        out.push(line);
        proof {
            assert(views_of(out@) =~= views_of(out_prev).push(strip_cr(prev)));
            assert(views_of(out_prev).push(strip_cr(prev)) =~= views_of(out_prev) + seq![
                strip_cr(prev),
            ]);
        }
        out
    } else {
        out
    }
}

/// Split a line into its whitespace-separated tokens.
pub fn split_tokens(s: &[u8]) -> (r: Vec<Vec<u8>>)
    ensures
        views_of(r@) == tokens_of(s@),
{
    let mut out: Vec<Vec<u8>> = Vec::new();
    let mut cur: Vec<u8> = Vec::new();
    let mut i: usize = 0;
    proof {
        assert(s@.skip(0) =~= s@);
        assert(views_of(out@) =~= Seq::<Seq<u8>>::empty());
        assert(views_of(out@) + tokens_go(s@, cur@) =~= tokens_go(s@, cur@));
    }
    while i < s.len()
        invariant
            0 <= i <= s@.len(),
            tokens_of(s@) == views_of(out@) + tokens_go(s@.skip(i as int), cur@),
        decreases s@.len() - i,
    {
        let b = s[i];
        proof {
            assert(s@.skip(i as int)[0] == s@[i as int]);
            assert(s@.skip(i as int).skip(1) =~= s@.skip(i as int + 1));
        }
        if b == SP || b == TAB {
            proof {
                assert(is_space(s@.skip(i as int)[0]));
            }
            if cur.len() > 0 {
                let ghost prev = cur@;
                let tok = cur;
                cur = Vec::new();
                let ghost out_prev = out@;
                out.push(tok);
                proof {
                    assert(views_of(out@) =~= views_of(out_prev) + seq![prev]);
                    assert((views_of(out_prev) + seq![prev]) + tokens_go(
                        s@.skip(i as int + 1),
                        Seq::<u8>::empty(),
                    ) =~= views_of(out_prev) + (seq![prev] + tokens_go(
                        s@.skip(i as int + 1),
                        Seq::<u8>::empty(),
                    )));
                    assert(tokens_of(s@) == views_of(out@) + tokens_go(
                        s@.skip(i as int + 1),
                        cur@,
                    ));
                }
            } else {
                proof {
                    assert(cur@ =~= Seq::<u8>::empty());
                    assert(tokens_go(s@.skip(i as int), cur@) == tokens_go(
                        s@.skip(i as int + 1),
                        cur@,
                    ));
                    assert(tokens_of(s@) == views_of(out@) + tokens_go(
                        s@.skip(i as int + 1),
                        cur@,
                    ));
                }
            }
        } else {
            cur.push(b);
            proof {
                assert(tokens_of(s@) == views_of(out@) + tokens_go(s@.skip(i as int + 1), cur@));
            }
        }
        i = i + 1;
    }
    proof {
        assert(s@.skip(i as int) =~= Seq::<u8>::empty());
    }
    if cur.len() > 0 {
        let ghost prev = cur@;
        let ghost out_prev = out@;
        out.push(cur);
        proof {
            assert(views_of(out@) =~= views_of(out_prev) + seq![prev]);
        }
        out
    } else {
        out
    }
}

/// Split a token into its colon-separated fields.
pub fn split_fields(s: &[u8]) -> (r: Vec<Vec<u8>>)
    ensures
        views_of(r@) == fields_of(s@),
        r@.len() >= 1,
{
    let mut out: Vec<Vec<u8>> = Vec::new();
    let mut cur: Vec<u8> = Vec::new();
    let mut i: usize = 0;
    proof {
        assert(s@.skip(0) =~= s@);
        assert(views_of(out@) =~= Seq::<Seq<u8>>::empty());
        assert(views_of(out@) + fields_go(s@, cur@) =~= fields_go(s@, cur@));
    }
    while i < s.len()
        invariant
            0 <= i <= s@.len(),
            fields_of(s@) == views_of(out@) + fields_go(s@.skip(i as int), cur@),
        decreases s@.len() - i,
    {
        let b = s[i];
        proof {
            assert(s@.skip(i as int)[0] == s@[i as int]);
            assert(s@.skip(i as int).skip(1) =~= s@.skip(i as int + 1));
        }
        if b == COLON {
            let ghost prev = cur@;
            let tok = cur;
            cur = Vec::new();
            let ghost out_prev = out@;
            out.push(tok);
            proof {
                assert(views_of(out@) =~= views_of(out_prev) + seq![prev]);
                assert((views_of(out_prev) + seq![prev]) + fields_go(
                    s@.skip(i as int + 1),
                    Seq::<u8>::empty(),
                ) =~= views_of(out_prev) + (seq![prev] + fields_go(
                    s@.skip(i as int + 1),
                    Seq::<u8>::empty(),
                )));
            }
        } else {
            cur.push(b);
        }
        i = i + 1;
    }
    proof {
        assert(s@.skip(i as int) =~= Seq::<u8>::empty());
    }
    let ghost prev = cur@;
    let ghost out_prev = out@;
    out.push(cur);
    proof {
        assert(views_of(out@) =~= views_of(out_prev) + seq![prev]);
    }
    out
}

/// Whether a line begins with the given label.
pub open spec fn has_prefix(s: Seq<u8>, p: Seq<u8>) -> bool {
    p.len() <= s.len() && forall|k: int| 0 <= k < p.len() ==> s[k] == #[trigger] p[k]
}

/// Left-anchored comparison of a line against a label.
pub fn starts_with(line: &[u8], lab: &[u8]) -> (r: bool)
    ensures
        r == has_prefix(line@, lab@),
{
    if lab.len() > line.len() {
        return false;
    }
    let mut k: usize = 0;
    while k < lab.len()
        invariant
            0 <= k <= lab@.len(),
            lab@.len() <= line@.len(),
            forall|j: int| 0 <= j < k ==> line@[j] == #[trigger] lab@[j],
        decreases lab@.len() - k,
    {
        if line[k] != lab[k] {
            return false;
        }
        k = k + 1;
    }
    true
}

// ---------------------------------------------------------------------------
// Joins: canonical texts are lines joined by newlines, lines are tokens
// joined by single blanks. The lemmas say that splitting recovers the parts.
// ---------------------------------------------------------------------------

/// Parts joined by a single separator byte; no trailing separator.
pub open spec fn byte_join(ps: Seq<Seq<u8>>, sep: u8) -> Seq<u8>
    decreases ps.len(),
{
    if ps.len() == 0 {
        Seq::empty()
    } else if ps.len() == 1 {
        ps[0]
    } else {
        ps[0] + seq![sep] + byte_join(ps.drop_first(), sep)
    }
}

/// Parts joined by a single newline; no final line break.
pub open spec fn nl_join(ls: Seq<Seq<u8>>) -> Seq<u8> {
    byte_join(ls, NL)
}

/// Parts joined by a single blank.
pub open spec fn sp_join(ts: Seq<Seq<u8>>) -> Seq<u8> {
    byte_join(ts, SP)
}

pub proof fn lemma_byte_join_push(ps: Seq<Seq<u8>>, sep: u8, x: Seq<u8>)
    ensures
        byte_join(ps.push(x), sep) == if ps.len() == 0 {
            x
        } else {
            byte_join(ps, sep) + seq![sep] + x
        },
    decreases ps.len(),
{
    if ps.len() == 0 {
        assert(ps.push(x) =~= seq![x]);
        assert(byte_join(seq![x], sep) == x);
    } else if ps.len() == 1 {
        assert(ps.push(x)[0] == ps[0]);
        assert(ps.push(x).drop_first() =~= seq![x]);
        assert(byte_join(seq![x], sep) == x);
        assert(byte_join(ps.push(x), sep) == ps[0] + seq![sep] + x);
        assert(byte_join(ps, sep) == ps[0]);
    } else {
        assert(ps.push(x)[0] == ps[0]);
        assert(ps.push(x).drop_first() =~= ps.drop_first().push(x));
        lemma_byte_join_push(ps.drop_first(), sep, x);
        assert(byte_join(ps.drop_first().push(x), sep) == byte_join(ps.drop_first(), sep) + seq![
            sep,
        ] + x);
        assert(ps[0] + seq![sep] + (byte_join(ps.drop_first(), sep) + seq![sep] + x) =~= (ps[0]
            + seq![sep] + byte_join(ps.drop_first(), sep)) + seq![sep] + x);
    }
}

/// Append a slice's bytes.
pub fn push_all(out: &mut Vec<u8>, part: &[u8])
    ensures
        final(out)@ == old(out)@ + part@,
{
    let mut j: usize = 0;
    proof {
        assert(out@ =~= out@ + part@.take(0));
    }
    while j < part.len()
        invariant
            0 <= j <= part@.len(),
            out@ == old(out)@ + part@.take(j as int),
        decreases part@.len() - j,
    {
        out.push(part[j]);
        proof {
            assert(old(out)@ + part@.take(j as int + 1) =~= (old(out)@ + part@.take(j as int)).push(
                part@[j as int],
            ));
        }
        j = j + 1;
    }
    proof {
        assert(part@.take(part@.len() as int) =~= part@);
    }
}

/// Join parts with a separator byte.
pub fn join_bytes(parts: &Vec<Vec<u8>>, sep: u8) -> (r: Vec<u8>)
    ensures
        r@ == byte_join(views_of(parts@), sep),
{
    let mut out: Vec<u8> = Vec::new();
    let mut i: usize = 0;
    proof {
        assert(views_of(parts@).take(0) =~= Seq::<Seq<u8>>::empty());
        assert(out@ =~= byte_join(views_of(parts@).take(0), sep));
    }
    while i < parts.len()
        invariant
            0 <= i <= parts@.len(),
            views_of(parts@).len() == parts@.len(),
            out@ == byte_join(views_of(parts@).take(i as int), sep),
        decreases parts@.len() - i,
    {
        if i > 0 {
            out.push(sep);
        }
        push_all(&mut out, parts[i].as_slice());
        proof {
            let ps = views_of(parts@).take(i as int);
            lemma_byte_join_push(ps, sep, parts@[i as int]@);
            assert(ps.push(parts@[i as int]@) =~= views_of(parts@).take(i as int + 1));
            if i > 0 {
                assert(out@ =~= (byte_join(ps, sep) + seq![sep]) + parts@[i as int]@);
                assert((byte_join(ps, sep) + seq![sep]) + parts@[i as int]@ =~= byte_join(ps, sep)
                    + seq![sep] + parts@[i as int]@);
            }
        }
        i = i + 1;
    }
    proof {
        assert(views_of(parts@).take(parts@.len() as int) =~= views_of(parts@));
    }
    out
}

/// A token fit for joining: non-empty, and free of blanks and line breaks.
pub open spec fn token_clean(t: Seq<u8>) -> bool {
    t.len() > 0 && forall|k: int|
        0 <= k < t.len() ==> !is_space(#[trigger] t[k]) && t[k] != NL && t[k] != CR
}

/// A token part that holds no colon.
pub open spec fn colon_free(t: Seq<u8>) -> bool {
    forall|k: int| 0 <= k < t.len() ==> #[trigger] t[k] != COLON
}

/// A line does not begin with a label it differs from within the label's length.
pub proof fn lemma_differs(s: Seq<u8>, p: Seq<u8>, k: int)
    requires
        0 <= k < p.len(),
        k < s.len(),
        s[k] != p[k],
    ensures
        !has_prefix(s, p),
{
    if has_prefix(s, p) {
        assert(s[k] == p[k]);
    }
}

/// A line fit for joining: non-empty, free of line breaks, and not ending
/// in a carriage return.
pub open spec fn line_clean(l: Seq<u8>) -> bool {
    l.len() > 0 && l.last() != CR && forall|k: int| 0 <= k < l.len() ==> #[trigger] l[k] != NL
}

pub proof fn lemma_lines_go_plain(a: Seq<u8>, b: Seq<u8>, cur: Seq<u8>)
    requires
        forall|k: int| 0 <= k < a.len() ==> #[trigger] a[k] != NL,
    ensures
        lines_go(a + b, cur) == lines_go(b, cur + a),
    decreases a.len(),
{
    if a.len() == 0 {
        assert(a + b =~= b);
        assert(cur + a =~= cur);
    } else {
        assert((a + b)[0] == a[0]);
        assert((a + b).skip(1) =~= a.skip(1) + b);
        assert(cur.push(a[0]) + a.skip(1) =~= cur + a);
        assert(forall|k: int| 0 <= k < a.skip(1).len() ==> #[trigger] a.skip(1)[k] != NL);
        lemma_lines_go_plain(a.skip(1), b, cur.push(a[0]));
    }
}

pub proof fn lemma_tokens_go_plain(a: Seq<u8>, b: Seq<u8>, cur: Seq<u8>)
    requires
        forall|k: int| 0 <= k < a.len() ==> !is_space(#[trigger] a[k]),
    ensures
        tokens_go(a + b, cur) == tokens_go(b, cur + a),
    decreases a.len(),
{
    if a.len() == 0 {
        assert(a + b =~= b);
        assert(cur + a =~= cur);
    } else {
        assert((a + b)[0] == a[0]);
        assert((a + b).skip(1) =~= a.skip(1) + b);
        assert(cur.push(a[0]) + a.skip(1) =~= cur + a);
        assert(forall|k: int| 0 <= k < a.skip(1).len() ==> !is_space(#[trigger] a.skip(1)[k]));
        lemma_tokens_go_plain(a.skip(1), b, cur.push(a[0]));
    }
}

pub proof fn lemma_fields_go_plain(a: Seq<u8>, b: Seq<u8>, cur: Seq<u8>)
    requires
        forall|k: int| 0 <= k < a.len() ==> #[trigger] a[k] != COLON,
    ensures
        fields_go(a + b, cur) == fields_go(b, cur + a),
    decreases a.len(),
{
    if a.len() == 0 {
        assert(a + b =~= b);
        assert(cur + a =~= cur);
    } else {
        assert((a + b)[0] == a[0]);
        assert((a + b).skip(1) =~= a.skip(1) + b);
        assert(cur.push(a[0]) + a.skip(1) =~= cur + a);
        assert(forall|k: int| 0 <= k < a.skip(1).len() ==> #[trigger] a.skip(1)[k] != COLON);
        lemma_fields_go_plain(a.skip(1), b, cur.push(a[0]));
    }
}

/// Splitting a colon-free token on colons yields the token alone.
pub proof fn lemma_fields_whole(a: Seq<u8>)
    requires
        forall|k: int| 0 <= k < a.len() ==> #[trigger] a[k] != COLON,
    ensures
        fields_of(a) == seq![a],
{
    lemma_fields_go_plain(a, Seq::empty(), Seq::empty());
    assert(a + Seq::<u8>::empty() =~= a);
    assert(Seq::<u8>::empty() + a =~= a);
    assert(fields_go(Seq::<u8>::empty(), a) == seq![a]);
}

/// Splitting `a:rest` on colons yields `a` followed by the fields of `rest`,
/// when `a` itself is colon-free.
pub proof fn lemma_fields_pair(a: Seq<u8>, b: Seq<u8>)
    requires
        forall|k: int| 0 <= k < a.len() ==> #[trigger] a[k] != COLON,
    ensures
        fields_of(a + seq![COLON] + b) == seq![a] + fields_of(b),
{
    assert(a + seq![COLON] + b =~= a + (seq![COLON] + b));
    lemma_fields_go_plain(a, seq![COLON] + b, Seq::empty());
    assert(Seq::<u8>::empty() + a =~= a);
    assert((seq![COLON] + b)[0] == COLON);
    assert((seq![COLON] + b).skip(1) =~= b);
}

/// Joining clean tokens with blanks and splitting on whitespace recovers them.
pub proof fn lemma_sp_join_tokens(ts: Seq<Seq<u8>>)
    requires
        forall|i: int| 0 <= i < ts.len() ==> token_clean(#[trigger] ts[i]),
    ensures
        tokens_of(sp_join(ts)) == ts,
    decreases ts.len(),
{
    if ts.len() == 0 {
    } else if ts.len() == 1 {
        let a = ts[0];
        lemma_tokens_go_plain(a, Seq::empty(), Seq::empty());
        assert(a + Seq::<u8>::empty() =~= a);
        assert(Seq::<u8>::empty() + a =~= a);
        assert(tokens_go(Seq::<u8>::empty(), a) == seq![a]);
        assert(seq![a] =~= ts);
    } else {
        let a = ts[0];
        let rest = ts.drop_first();
        assert(sp_join(ts) =~= a + (seq![SP] + sp_join(rest)));
        lemma_tokens_go_plain(a, seq![SP] + sp_join(rest), Seq::empty());
        assert(Seq::<u8>::empty() + a =~= a);
        assert((seq![SP] + sp_join(rest))[0] == SP);
        assert((seq![SP] + sp_join(rest)).skip(1) =~= sp_join(rest));
        assert(forall|i: int| 0 <= i < rest.len() ==> token_clean(#[trigger] rest[i]));
        lemma_sp_join_tokens(rest);
        assert(tokens_of(sp_join(ts)) =~= seq![a] + rest);
        assert(seq![a] + rest =~= ts);
    }
}

/// A line joined from clean tokens is itself clean.
pub proof fn lemma_sp_join_clean(ts: Seq<Seq<u8>>)
    requires
        ts.len() > 0,
        forall|i: int| 0 <= i < ts.len() ==> token_clean(#[trigger] ts[i]),
    ensures
        line_clean(sp_join(ts)),
    decreases ts.len(),
{
    if ts.len() == 1 {
        assert(sp_join(ts) == ts[0]);
        assert(ts[0].last() != CR);
    } else {
        let a = ts[0];
        let rest = ts.drop_first();
        assert(forall|i: int| 0 <= i < rest.len() ==> token_clean(#[trigger] rest[i]));
        lemma_sp_join_clean(rest);
        let l = sp_join(ts);
        assert(l =~= a + seq![SP] + sp_join(rest));
        assert(sp_join(rest).len() > 0);
        assert(l.last() == sp_join(rest).last());
        assert forall|k: int| 0 <= k < l.len() implies #[trigger] l[k] != NL by {
            if k < a.len() {
                assert(l[k] == a[k]);
            } else if k == a.len() {
                assert(l[k] == SP);
            } else {
                assert(l[k] == sp_join(rest)[k - a.len() - 1]);
            }
        }
    }
}

/// Joining clean lines with newlines and splitting into lines recovers them.
pub proof fn lemma_nl_join_lines(ls: Seq<Seq<u8>>)
    requires
        forall|i: int| 0 <= i < ls.len() ==> line_clean(#[trigger] ls[i]),
    ensures
        lines_of(nl_join(ls)) == ls,
    decreases ls.len(),
{
    if ls.len() == 0 {
    } else if ls.len() == 1 {
        let a = ls[0];
        lemma_lines_go_plain(a, Seq::empty(), Seq::empty());
        assert(a + Seq::<u8>::empty() =~= a);
        assert(Seq::<u8>::empty() + a =~= a);
        assert(strip_cr(a) == a);
        assert(lines_go(Seq::<u8>::empty(), a) == seq![a]);
        assert(seq![a] =~= ls);
    } else {
        let a = ls[0];
        let rest = ls.drop_first();
        assert(nl_join(ls) =~= a + (seq![NL] + nl_join(rest)));
        lemma_lines_go_plain(a, seq![NL] + nl_join(rest), Seq::empty());
        assert(Seq::<u8>::empty() + a =~= a);
        assert((seq![NL] + nl_join(rest))[0] == NL);
        assert((seq![NL] + nl_join(rest)).skip(1) =~= nl_join(rest));
        assert(strip_cr(a) == a);
        assert(forall|i: int| 0 <= i < rest.len() ==> line_clean(#[trigger] rest[i]));
        lemma_nl_join_lines(rest);
        assert(lines_of(nl_join(ls)) =~= seq![a] + rest);
        assert(seq![a] + rest =~= ls);
    }
}

} // verus!
