//! Writing values into a buffer of bounded capacity.
use vstd::prelude::*;

use crate::escape::{escaped, escaped_len, push_escaped, lemma_escaped_push};
use crate::fmt::FmtKind;
use crate::panic_val::{PanicVal, PanicVariant, Piece, StrFmt};
use crate::utils::{is_cut, is_display_cut, is_debug_cut, truncated_str_len, truncated_debug_str_len,
    WasTruncated, min_usize};

verus! {

/// `n` spaces.
pub open spec fn spaces(n: nat) -> Seq<u8> {
    Seq::new(n, |i: int| 32u8)
}

/// The longest cut at or below `b` that splits no character.
pub open spec fn display_cut_from(s: Seq<u8>, b: nat) -> nat
    decreases b,
{
    if is_cut(s, b as int) || b == 0 {
        b
    } else {
        display_cut_from(s, (b - 1) as nat)
    }
}

/// Where a Display string is cut to fit `k` bytes.
pub open spec fn display_cut(s: Seq<u8>, k: nat) -> nat {
    display_cut_from(s, if k < s.len() { k } else { s.len() })
}

/// The longest cut at or below `b` that splits no character and whose
/// escaped form, after the opening quote, fits in `k` bytes.
pub open spec fn debug_cut_from(s: Seq<u8>, k: nat, b: nat) -> nat
    decreases b,
{
    if (is_cut(s, b as int) && 1 + escaped_len(s.take(b as int)) <= k) || b == 0 {
        b
    } else {
        debug_cut_from(s, k, (b - 1) as nat)
    }
}

/// Where a Debug string is cut so that its opening quote and escaped form
/// fit in `k` bytes.
pub open spec fn debug_cut(s: Seq<u8>, k: nat) -> nat {
    if k == 0 {
        0
    } else {
        debug_cut_from(s, k, s.len())
    }
}

/// The left and right padding of a piece.
pub open spec fn pads(p: Piece) -> (nat, nat) {
    match p {
        Piece::Str(f, _) => (f.leftpad as nat, f.rightpad as nat),
        _ => (0, 0),
    }
}

/// The bytes of a string piece written in `k` bytes of room, and whether they
/// were cut short.
pub open spec fn str_content(f: StrFmt, s: Seq<u8>, k: nat) -> (Seq<u8>, bool) {
    if f.fmt_kind == FmtKind::Display {
        if s.len() <= k {
            (s, false)
        } else {
            (s.take(display_cut(s, k) as int), true)
        }
    } else {
        if escaped_len(s) + 2 <= k {
            (seq![34u8] + escaped(s) + seq![34u8], false)
        } else {
            ((if k >= 1 { seq![34u8] } else { Seq::empty() }) + escaped(s.take(debug_cut(s, k) as int)), true)
        }
    }
}

/// Text that is shown whole or not at all.
pub open spec fn whole_content(t: Seq<u8>, k: nat) -> (Seq<u8>, bool) {
    if t.len() <= k {
        (t, false)
    } else {
        (Seq::empty(), true)
    }
}

/// The bytes of a piece, padding left out, written in `k` bytes of room.
pub open spec fn content(p: Piece, k: nat) -> (Seq<u8>, bool) {
    match p {
        Piece::Str(f, b) => str_content(f, b@, k),
        Piece::PreFmt(b) => whole_content(b@, k),
        Piece::Int(i) => whole_content(i.text(), k),
    }
}

/// What a piece writes in `k` bytes of room: its left padding, its content
/// and its right padding, each cut to the room left; and whether anything
/// was cut.
pub open spec fn render_piece(p: Piece, k: nat) -> (Seq<u8>, bool) {
    let lp = pads(p).0;
    let rp = pads(p).1;
    if lp > k {
        (spaces(k), true)
    } else {
        let c = content(p, (k - lp) as nat);
        let rem = (k - lp - c.0.len()) as nat;
        let r = if rp <= rem { rp } else { rem };
        (spaces(lp) + c.0 + spaces(r), c.1 || rp > rem)
    }
}

/// Writes `ps` after the output so far, `st`, in a buffer of `cap` bytes;
/// once something is cut short, the rest is left out.
pub open spec fn run(st: (Seq<u8>, bool), ps: Seq<Piece>, cap: nat) -> (Seq<u8>, bool)
    decreases ps.len(),
{
    if st.1 || ps.len() == 0 {
        st
    } else {
        let o = render_piece(ps[0], (cap - st.0.len()) as nat);
        run((st.0 + o.0, o.1), ps.drop_first(), cap)
    }
}

/// The pieces of a sequence of values, in order.
pub open spec fn flat_vals(vs: Seq<PanicVal>) -> Seq<Piece>
    decreases vs.len(),
{
    if vs.len() == 0 {
        Seq::empty()
    } else {
        flat_vals(vs.drop_last()) + vs.last().pieces()
    }
}

/// The pieces of groups of values, in order.
pub open spec fn flat_args(args: Seq<&[PanicVal]>) -> Seq<Piece>
    decreases args.len(),
{
    if args.len() == 0 {
        Seq::empty()
    } else {
        flat_args(args.drop_last()) + flat_vals(args.last()@)
    }
}

/// All values in the groups are well formed.
pub open spec fn args_wf(args: Seq<&[PanicVal]>) -> bool {
    forall|a: int, v: int| 0 <= a < args.len() && 0 <= v < args[a]@.len() ==> (#[trigger] args[a]@[v]).wf()
}

/// The output and truncation flag of writing `args` into `cap` bytes.
pub open spec fn render_args(args: Seq<&[PanicVal]>, cap: nat) -> (Seq<u8>, bool) {
    run((Seq::empty(), false), flat_args(args), cap)
}

proof fn lemma_display_cut_from(s: Seq<u8>, b: nat)
    requires
        b <= s.len(),
    ensures
        display_cut_from(s, b) <= b,
        is_cut(s, display_cut_from(s, b) as int),
        forall|j: int| display_cut_from(s, b) < j <= b ==> !#[trigger] is_cut(s, j),
    decreases b,
{
    if !(is_cut(s, b as int) || b == 0) {
        lemma_display_cut_from(s, (b - 1) as nat);
    }
}

proof fn lemma_debug_cut_from(s: Seq<u8>, k: nat, b: nat)
    requires
        b <= s.len(),
        k >= 1,
    ensures
        debug_cut_from(s, k, b) <= b,
        is_cut(s, debug_cut_from(s, k, b) as int),
        1 + escaped_len(s.take(debug_cut_from(s, k, b) as int)) <= k,
        forall|j: int| debug_cut_from(s, k, b) < j <= b && #[trigger] is_cut(s, j) ==> 1 + escaped_len(s.take(j)) > k,
    decreases b,
{
    if b == 0 {
        assert(s.take(0) =~= Seq::<u8>::empty());
        assert(escaped(Seq::<u8>::empty()).len() == 0);
    } else if !(is_cut(s, b as int) && 1 + escaped_len(s.take(b as int)) <= k) {
        lemma_debug_cut_from(s, k, (b - 1) as nat);
    }
}

/// The cut that `truncated_str_len` reports is `display_cut`.
pub proof fn lemma_display_cut_unique(s: Seq<u8>, k: nat, i: nat)
    requires
        is_display_cut(s, k, i),
        k < s.len(),
    ensures
        i == display_cut(s, k),
{
    lemma_display_cut_from(s, k);
    let c = display_cut(s, k);
    if i < c {
        assert(is_cut(s, c as int));
    } else if c < i {
        assert(is_cut(s, i as int));
    }
}

/// The cut that `truncated_debug_str_len` reports is `debug_cut`.
pub proof fn lemma_debug_cut_unique(s: Seq<u8>, k: nat, i: nat)
    requires
        is_debug_cut(s, k, i),
    ensures
        i == debug_cut(s, k),
{
    if k > 0 {
        lemma_debug_cut_from(s, k, s.len());
        let c = debug_cut(s, k);
        if i < c {
            assert(is_cut(s, c as int));
        } else if c < i {
            assert(is_cut(s, i as int));
        }
    }
}

/// A piece never writes more than the room it is given.
pub proof fn lemma_render_piece_fits(p: Piece, k: nat)
    ensures
        render_piece(p, k).0.len() <= k,
{
    let lp = pads(p).0;
    if lp <= k {
        lemma_content_fits(p, (k - lp) as nat);
    }
}

proof fn lemma_content_fits(p: Piece, k: nat)
    ensures
        content(p, k).0.len() <= k,
{
    match p {
        Piece::Str(f, b) => {
            let s = b@;
            if f.fmt_kind == FmtKind::Display {
                if s.len() > k {
                    lemma_display_cut_from(s, k);
                }
            } else if escaped_len(s) + 2 > k {
                if k >= 1 {
                    lemma_debug_cut_from(s, k, s.len());
                } else {
                    assert(s.take(0) =~= Seq::<u8>::empty());
                    assert(escaped(Seq::<u8>::empty()).len() == 0);
                }
            }
        },
        _ => {},
    }
}

/// Appends `n` spaces.
fn push_spaces(out: &mut Vec<u8>, n: usize)
    ensures
        final(out)@ == old(out)@ + spaces(n as nat),
{
    let ghost start = out@;
    let mut i: usize = 0;
    while i < n
        invariant
            i <= n,
            out@ == start + spaces(i as nat),
        decreases n - i,
    {
        out.push(32);
        i = i + 1;
        assert(out@ =~= start + spaces(i as nat));
    }
    assert(out@ =~= start + spaces(n as nat));
}

/// Appends the first `n` bytes of `b`.
fn push_prefix(out: &mut Vec<u8>, b: &[u8], n: usize)
    requires
        n <= b@.len(),
    ensures
        final(out)@ == old(out)@ + b@.take(n as int),
{
    let ghost start = out@;
    let mut i: usize = 0;
    while i < n
        invariant
            i <= n <= b@.len(),
            out@ == start + b@.take(i as int),
        decreases n - i,
    {
        out.push(b[i]);
        i = i + 1;
        assert(out@ =~= start + b@.take(i as int));
    }
}

/// Appends the Debug escape of the first `n` bytes of `b`.
fn push_escaped_prefix(out: &mut Vec<u8>, b: &[u8], n: usize)
    requires
        n <= b@.len(),
    ensures
        final(out)@ == old(out)@ + escaped(b@.take(n as int)),
{
    let ghost start = out@;
    let mut i: usize = 0;
    proof {
        assert(b@.take(0) =~= Seq::<u8>::empty());
        assert(start + escaped(Seq::<u8>::empty()) =~= start);
    }
    while i < n
        invariant
            i <= n <= b@.len(),
            out@ == start + escaped(b@.take(i as int)),
        decreases n - i,
    {
        proof { lemma_escaped_push(b@, i as int); }
        push_escaped(b[i], out);
        i = i + 1;
        assert(out@ =~= start + escaped(b@.take(i as int)));
    }
}

/// Writes the content of a string piece in `k` bytes of room.
fn write_str_content(f: StrFmt, b: &[u8], k: usize, out: &mut Vec<u8>) -> (t: bool)
    ensures
        final(out)@ == old(out)@ + str_content(f, b@, k as nat).0,
        t == str_content(f, b@, k as nat).1,
{
    let ghost s = b@;
    match f.fmt_kind {
        FmtKind::Display => {
            let w = truncated_str_len(b, k);
            match w {
                WasTruncated::No => {
                    push_prefix(out, b, b.len());
                    assert(s.take(s.len() as int) =~= s);
                    false
                },
                WasTruncated::Yes(i) => {
                    proof { lemma_display_cut_unique(s, k as nat, i as nat); }
                    push_prefix(out, b, i);
                    true
                },
            }
        },
        FmtKind::Debug => {
            let w = truncated_debug_str_len(b, k);
            match w {
                WasTruncated::No => {
                    out.push(34);
                    push_escaped_prefix(out, b, b.len());
                    out.push(34);
                    assert(s.take(s.len() as int) =~= s);
                    assert(final(out)@ =~= old(out)@ + (seq![34u8] + escaped(s) + seq![34u8]));
                    false
                },
                WasTruncated::Yes(i) => {
                    proof { lemma_debug_cut_unique(s, k as nat, i as nat); }
                    if k >= 1 {
                        out.push(34);
                    }
                    push_escaped_prefix(out, b, i);
                    assert(final(out)@ =~= old(out)@ + str_content(f, s, k as nat).0);
                    true
                },
            }
        },
    }
}

/// Writes one piece in the room that `cap` leaves after `out`, and says
/// whether anything was cut.
pub fn write_piece(p: &Piece, out: &mut Vec<u8>, cap: usize) -> (t: bool)
    requires
        old(out)@.len() <= cap,
        p.wf(),
    ensures
        final(out)@ == old(out)@ + render_piece(*p, (cap - old(out)@.len()) as nat).0,
        t == render_piece(*p, (cap - old(out)@.len()) as nat).1,
        final(out)@.len() <= cap,
{
    let k = cap - out.len();
    let ghost start = out@;
    proof { lemma_render_piece_fits(*p, k as nat); }
    let (lp, rp): (usize, usize) = match p {
        Piece::Str(f, _) => (f.leftpad as usize, f.rightpad as usize),
        _ => (0, 0),
    };
    if lp > k {
        push_spaces(out, k);
        return true;
    }
    push_spaces(out, lp);
    let ghost after_pad = out@;
    let k1 = k - lp;
    let t = match p {
        Piece::Str(f, b) => write_str_content(*f, b.as_slice(), k1, out),
        Piece::PreFmt(b) => {
            if b.len() <= k1 {
                push_prefix(out, b.as_slice(), b.len());
                assert(b@.take(b@.len() as int) =~= b@);
                false
            } else {
                assert(out@ =~= after_pad + Seq::<u8>::empty());
                true
            }
        },
        Piece::Int(iv) => {
            if iv.len() <= k1 {
                let text = iv.fmt();
                push_prefix(out, text.as_slice(), text.len());
                assert(text@.take(text@.len() as int) =~= text@);
                false
            } else {
                assert(out@ =~= after_pad + Seq::<u8>::empty());
                true
            }
        },
    };
    let ghost c = content(*p, k1 as nat);
    assert(out@ == after_pad + c.0);
    proof { lemma_content_fits(*p, k1 as nat); }
    let rem = cap - out.len();
    let r = min_usize(rp, rem);
    push_spaces(out, r);
    assert(out@ =~= start + (spaces(lp as nat) + c.0 + spaces(r as nat)));
    t || rp > rem
}

/// Writing two runs of pieces one after the other is writing their
/// concatenation.
pub proof fn lemma_run_concat(st: (Seq<u8>, bool), a: Seq<Piece>, b: Seq<Piece>, cap: nat)
    ensures
        run(st, a + b, cap) == run(run(st, a, cap), b, cap),
    decreases a.len(),
{
    if st.1 {
        lemma_run_truncated(st, b, cap);
        lemma_run_truncated(st, a + b, cap);
        lemma_run_truncated(st, a, cap);
    } else if a.len() == 0 {
        assert(a + b =~= b);
    } else {
        let o = render_piece(a[0], (cap - st.0.len()) as nat);
        assert((a + b).drop_first() =~= a.drop_first() + b);
        lemma_run_concat((st.0 + o.0, o.1), a.drop_first(), b, cap);
    }
}

proof fn lemma_run_truncated(st: (Seq<u8>, bool), ps: Seq<Piece>, cap: nat)
    requires
        st.1,
    ensures
        run(st, ps, cap) == st,
{
}

proof fn lemma_run_single(st: (Seq<u8>, bool), p: Piece, cap: nat)
    ensures
        !st.1 ==> run(st, seq![p], cap) == (st.0 + render_piece(p, (cap - st.0.len()) as nat).0,
            render_piece(p, (cap - st.0.len()) as nat).1),
        st.1 ==> run(st, seq![p], cap) == st,
{
    if !st.1 {
        let o = render_piece(p, (cap - st.0.len()) as nat);
        assert(seq![p].drop_first() =~= Seq::<Piece>::empty());
        assert(seq![p][0] == p);
        assert(run((st.0 + o.0, o.1), Seq::<Piece>::empty(), cap) == (st.0 + o.0, o.1));
        assert(run(st, seq![p], cap) == run((st.0 + o.0, o.1), seq![p].drop_first(), cap));
    }
}

/// Writes the pieces of one value after `out`, unless something was
/// already cut.
fn write_val(v: &PanicVal, out: &mut Vec<u8>, cap: usize, truncated: bool) -> (t: bool)
    requires
        old(out)@.len() <= cap,
        v.wf(),
    ensures
        (final(out)@, t) == run((old(out)@, truncated), v.pieces(), cap as nat),
        final(out)@.len() <= cap,
{
    match &v.var {
        PanicVariant::Single(p) => {
            proof { lemma_run_single((out@, truncated), *p, cap as nat); }
            if truncated {
                true
            } else {
                assert(v.pieces()[0] == *p);
                write_piece(p, out, cap)
            }
        },
        PanicVariant::Slice(ps) => {
            let ghost st0 = (out@, truncated);
            let mut t = truncated;
            let mut j: usize = 0;
            assert(ps@.take(0) =~= Seq::<Piece>::empty());
            while j < ps.len()
                invariant
                    j <= ps@.len(),
                    v.pieces() == ps@,
                    v.wf(),
                    (out@, t) == run(st0, ps@.take(j as int), cap as nat),
                    out@.len() <= cap,
                decreases ps@.len() - j,
            {
                proof {
                    lemma_run_concat(st0, ps@.take(j as int), seq![ps@[j as int]], cap as nat);
                    assert(ps@.take(j + 1) =~= ps@.take(j as int) + seq![ps@[j as int]]);
                    lemma_run_single((out@, t), ps@[j as int], cap as nat);
                    assert(v.pieces()[j as int].wf());
                }
                if !t {
                    t = write_piece(&ps[j], out, cap);
                }
                j = j + 1;
            }
            assert(ps@.take(j as int) =~= ps@);
            t
        },
    }
}

/// Writes all groups of values into a buffer of `cap` bytes; the flag says
/// whether something was cut short.
pub fn write_args(args: &[&[PanicVal]], cap: usize) -> (r: (Vec<u8>, bool))
    requires
        args_wf(args@),
    ensures
        (r.0@, r.1) == render_args(args@, cap as nat),
        r.0@.len() <= cap,
{
    let mut out: Vec<u8> = Vec::new();
    let mut t = false;
    let ghost st0 = (Seq::<u8>::empty(), false);
    let mut a: usize = 0;
    assert(args@.take(0) =~= Seq::<&[PanicVal]>::empty());
    assert(out@ =~= Seq::<u8>::empty());
    while a < args.len()
        invariant
            a <= args@.len(),
            args_wf(args@),
            (out@, t) == run(st0, flat_args(args@.take(a as int)), cap as nat),
            out@.len() <= cap,
        decreases args@.len() - a,
    {
        let group: &[PanicVal] = args[a];
        let ghost prefix = flat_args(args@.take(a as int));
        let mut v: usize = 0;
        assert(group@.take(0) =~= Seq::<PanicVal>::empty());
        assert(prefix + flat_vals(Seq::<PanicVal>::empty()) =~= prefix);
        while v < group.len()
            invariant
                a < args@.len(),
                group == args@[a as int],
                v <= group@.len(),
                args_wf(args@),
                (out@, t) == run(st0, prefix + flat_vals(group@.take(v as int)), cap as nat),
                out@.len() <= cap,
            decreases group@.len() - v,
        {
            proof {
                let pre = group@.take(v as int);
                assert(group@.take(v + 1).drop_last() =~= pre);
                assert(flat_vals(group@.take(v + 1)) == flat_vals(pre) + group@[v as int].pieces());
                assert(prefix + flat_vals(group@.take(v + 1)) =~= (prefix + flat_vals(pre)) + group@[v as int].pieces());
                lemma_run_concat(st0, prefix + flat_vals(pre), group@[v as int].pieces(), cap as nat);
                assert(group@[v as int].wf());
            }
            t = write_val(&group[v], &mut out, cap, t);
            v = v + 1;
        }
        proof {
            assert(group@.take(v as int) =~= group@);
            assert(args@.take(a + 1).drop_last() =~= args@.take(a as int));
        }
        a = a + 1;
    }
    assert(args@.take(a as int) =~= args@);
    (out, t)
}

/// A rendering that nothing cut short comes out the same in any larger
/// buffer.
pub proof fn lemma_larger_capacity(args: Seq<&[PanicVal]>, c1: nat, c2: nat)
    requires
        c1 <= c2,
        !render_args(args, c1).1,
    ensures
        render_args(args, c2) == render_args(args, c1),
{
    lemma_run_larger((Seq::empty(), false), flat_args(args), c1, c2);
}

proof fn lemma_run_larger(st: (Seq<u8>, bool), ps: Seq<Piece>, c1: nat, c2: nat)
    requires
        c1 <= c2,
        st.0.len() <= c1,
        !run(st, ps, c1).1,
    ensures
        run(st, ps, c2) == run(st, ps, c1),
    decreases ps.len(),
{
    if !(st.1 || ps.len() == 0) {
        let k1 = (c1 - st.0.len()) as nat;
        let k2 = (c2 - st.0.len()) as nat;
        let o = render_piece(ps[0], k1);
        if o.1 {
            lemma_run_truncated((st.0 + o.0, o.1), ps.drop_first(), c1);
        }
        lemma_piece_larger(ps[0], k1, k2);
        lemma_render_piece_fits(ps[0], k1);
        lemma_run_larger((st.0 + o.0, o.1), ps.drop_first(), c1, c2);
    }
}

proof fn lemma_piece_larger(p: Piece, k1: nat, k2: nat)
    requires
        k1 <= k2,
        !render_piece(p, k1).1,
    ensures
        render_piece(p, k2) == render_piece(p, k1),
{
}

} // verus!
