//! Flattening groups of values into one sequence of a fixed length.
use vstd::prelude::*;

use crate::panic_val::{PanicVal, Piece, StrFmt, is_str_piece};
use crate::render::{flat_args, flat_vals, render_args, render_piece, run, lemma_run_concat};

verus! {

/// The values of all groups, in order.
pub open spec fn flat_values(args: Seq<&[PanicVal]>) -> Seq<PanicVal>
    decreases args.len(),
{
    if args.len() == 0 {
        Seq::empty()
    } else {
        flat_values(args.drop_last()) + args.last()@
    }
}

proof fn lemma_flat_values_prefix(args: Seq<&[PanicVal]>, a: nat)
    requires
        a <= args.len(),
    ensures
        flat_values(args.take(a as int)).len() <= flat_values(args).len(),
    decreases args.len() - a,
{
    if a < args.len() {
        lemma_flat_values_prefix(args, a + 1);
        assert(args.take((a + 1) as int).drop_last() =~= args.take(a as int));
    } else {
        assert(args.take(a as int) =~= args);
    }
}

proof fn lemma_run_same(st: (Seq<u8>, bool), ps: Seq<Piece>, qs: Seq<Piece>, cap: nat)
    requires
        ps.len() == qs.len(),
        forall|i: int| 0 <= i < ps.len() ==> (#[trigger] ps[i]).same(qs[i]),
    ensures
        run(st, ps, cap) == run(st, qs, cap),
    decreases ps.len(),
{
    if !(st.1 || ps.len() == 0) {
        assert(ps[0].same(qs[0]));
        assert(render_piece(ps[0], (cap - st.0.len()) as nat) == render_piece(qs[0], (cap - st.0.len()) as nat));
        let o = render_piece(ps[0], (cap - st.0.len()) as nat);
        assert forall|i: int| 0 <= i < ps.drop_first().len() implies (#[trigger] ps.drop_first()[i]).same(qs.drop_first()[i]) by {
            assert(ps[i + 1].same(qs[i + 1]));
        }
        lemma_run_same((st.0 + o.0, o.1), ps.drop_first(), qs.drop_first(), cap);
    }
}

proof fn lemma_run_empty_pieces(st: (Seq<u8>, bool), ps: Seq<Piece>, cap: nat)
    requires
        forall|i: int| 0 <= i < ps.len() ==> is_str_piece(#[trigger] ps[i], StrFmt::display_spec(), Seq::empty()),
    ensures
        run(st, ps, cap) == st,
    decreases ps.len(),
{
    if !(st.1 || ps.len() == 0) {
        assert(is_str_piece(ps[0], StrFmt::display_spec(), Seq::empty()));
        let o = render_piece(ps[0], (cap - st.0.len()) as nat);
        assert(o.0 =~= Seq::<u8>::empty());
        assert(st.0 + o.0 =~= st.0);
        assert forall|i: int| 0 <= i < ps.drop_first().len() implies is_str_piece(#[trigger] ps.drop_first()[i], StrFmt::display_spec(), Seq::empty()) by {
            assert(is_str_piece(ps[i + 1], StrFmt::display_spec(), Seq::empty()));
        }
        lemma_run_empty_pieces((st.0 + o.0, o.1), ps.drop_first(), cap);
    }
}

proof fn lemma_flat_vals_concat(a: Seq<PanicVal>, b: Seq<PanicVal>)
    ensures
        flat_vals(a + b) == flat_vals(a) + flat_vals(b),
    decreases b.len(),
{
    if b.len() == 0 {
        assert(a + b =~= a);
        assert(flat_vals(a) + Seq::<Piece>::empty() =~= flat_vals(a));
    } else {
        assert((a + b).drop_last() =~= a + b.drop_last());
        lemma_flat_vals_concat(a, b.drop_last());
        assert(flat_vals(a) + flat_vals(b.drop_last()) + b.last().pieces() =~= flat_vals(a) + (flat_vals(b.drop_last()) + b.last().pieces()));
    }
}

proof fn lemma_flat_args_values(args: Seq<&[PanicVal]>)
    ensures
        flat_args(args) == flat_vals(flat_values(args)),
    decreases args.len(),
{
    if args.len() == 0 {
        assert(flat_vals(Seq::<PanicVal>::empty()) == Seq::<Piece>::empty());
    } else {
        lemma_flat_args_values(args.drop_last());
        lemma_flat_vals_concat(flat_values(args.drop_last()), args.last()@);
    }
}

proof fn lemma_flat_vals_same(vs: Seq<PanicVal>, ws: Seq<PanicVal>)
    requires
        vs.len() == ws.len(),
        forall|i: int| 0 <= i < vs.len() ==> (#[trigger] vs[i]).same(ws[i]),
    ensures
        flat_vals(vs).len() == flat_vals(ws).len(),
        forall|j: int| 0 <= j < flat_vals(vs).len() ==> (#[trigger] flat_vals(vs)[j]).same(flat_vals(ws)[j]),
    decreases vs.len(),
{
    if vs.len() > 0 {
        assert forall|i: int| 0 <= i < vs.drop_last().len() implies (#[trigger] vs.drop_last()[i]).same(ws.drop_last()[i]) by {
            assert(vs[i].same(ws[i]));
        }
        lemma_flat_vals_same(vs.drop_last(), ws.drop_last());
        assert(vs.last().same(ws.last()));
        let a = flat_vals(vs.drop_last());
        let b = flat_vals(ws.drop_last());
        assert forall|j: int| 0 <= j < flat_vals(vs).len() implies (#[trigger] flat_vals(vs)[j]).same(flat_vals(ws)[j]) by {
            if j >= a.len() {
                assert(vs.last().pieces()[j - a.len()].same(ws.last().pieces()[j - a.len()]));
            }
        }
    }
}

proof fn lemma_flat_vals_empties(vs: Seq<PanicVal>)
    requires
        forall|i: int| 0 <= i < vs.len() ==> (#[trigger] vs[i]).is_str(StrFmt::display_spec(), Seq::empty()),
    ensures
        forall|j: int| 0 <= j < flat_vals(vs).len() ==> is_str_piece(#[trigger] flat_vals(vs)[j], StrFmt::display_spec(), Seq::empty()),
    decreases vs.len(),
{
    if vs.len() > 0 {
        assert forall|i: int| 0 <= i < vs.drop_last().len() implies (#[trigger] vs.drop_last()[i]).is_str(StrFmt::display_spec(), Seq::empty()) by {
            assert(vs[i].is_str(StrFmt::display_spec(), Seq::empty()));
        }
        lemma_flat_vals_empties(vs.drop_last());
        assert(vs.last().is_str(StrFmt::display_spec(), Seq::empty()));
        let a = flat_vals(vs.drop_last());
        assert(flat_vals(vs) == a + vs.last().pieces());
        assert forall|j: int| 0 <= j < flat_vals(vs).len() implies is_str_piece(#[trigger] flat_vals(vs)[j], StrFmt::display_spec(), Seq::empty()) by {
            if j >= a.len() {
                assert(vs.last().pieces().len() == 1);
                assert(flat_vals(vs)[j] == vs.last().pieces()[j - a.len()]);
            } else {
                assert(flat_vals(vs)[j] == a[j]);
            }
        }
    }
}

/// A flattened sequence, whose leading values have the contents of the
/// groups' values and whose other values are empty, renders exactly as the
/// groups do, at every capacity.
pub proof fn lemma_flatten_keeps_rendering(input: Seq<&[PanicVal]>, out: Seq<PanicVal>, cap: nat)
    requires
        flat_values(input).len() <= out.len(),
        forall|i: int| 0 <= i < flat_values(input).len() ==> (#[trigger] out[i]).same(flat_values(input)[i]),
        forall|i: int| flat_values(input).len() <= i < out.len() ==> (#[trigger] out[i]).is_str(StrFmt::display_spec(), Seq::empty()),
    ensures
        run((Seq::empty(), false), flat_vals(out), cap) == render_args(input, cap),
{
    let all = flat_values(input);
    let n = all.len() as int;
    let head = out.take(n);
    let tail = out.skip(n);
    assert(out =~= head + tail);
    lemma_flat_vals_concat(head, tail);
    assert forall|i: int| 0 <= i < head.len() implies (#[trigger] head[i]).same(all[i]) by {
        assert(out[i].same(all[i]));
    }
    lemma_flat_vals_same(head, all);
    assert forall|i: int| 0 <= i < tail.len() implies (#[trigger] tail[i]).is_str(StrFmt::display_spec(), Seq::empty()) by {
        assert(out[i + n].is_str(StrFmt::display_spec(), Seq::empty()));
    }
    lemma_flat_vals_empties(tail);
    let st0 = (Seq::<u8>::empty(), false);
    lemma_run_concat(st0, flat_vals(head), flat_vals(tail), cap);
    lemma_run_empty_pieces(run(st0, flat_vals(head), cap), flat_vals(tail), cap);
    lemma_run_same(st0, flat_vals(head), flat_vals(all), cap);
    lemma_flat_args_values(input);
}

/// The values of an array, as a slice.
pub fn panicvals_id<const LEN: usize>(array: &[PanicVal; LEN]) -> (r: &[PanicVal])
    ensures
        r@ == array@,
{
    array.as_slice()
}

/// Copies the values of all groups, in order, into `LEN` values, the rest
/// of them empty; there must be room for all of them.
pub fn flatten_panicvals<const LEN: usize>(input: &[&[PanicVal]]) -> (r: Vec<PanicVal>)
    requires
        flat_values(input@).len() <= LEN,
    ensures
        r@.len() == LEN,
        forall|i: int| 0 <= i < flat_values(input@).len() ==> (#[trigger] r@[i]).same(flat_values(input@)[i]),
        forall|i: int| flat_values(input@).len() <= i < LEN ==> (#[trigger] r@[i]).is_str(StrFmt::display_spec(), Seq::empty()),
        forall|cap: nat| #[trigger] run((Seq::empty(), false), flat_vals(r@), cap) == render_args(input@, cap),
{
    let ghost all = flat_values(input@);
    let mut out: Vec<PanicVal> = Vec::new();
    let mut a: usize = 0;
    assert(input@.take(0) =~= Seq::<&[PanicVal]>::empty());
    while a < input.len()
        invariant
            a <= input@.len(),
            all == flat_values(input@),
            all.len() <= LEN,
            out@.len() == flat_values(input@.take(a as int)).len(),
            forall|i: int| 0 <= i < out@.len() ==> (#[trigger] out@[i]).same(flat_values(input@.take(a as int))[i]),
        decreases input@.len() - a,
    {
        let group: &[PanicVal] = input[a];
        let ghost pre = flat_values(input@.take(a as int));
        proof {
            assert(input@.take(a + 1).drop_last() =~= input@.take(a as int));
            assert(flat_values(input@.take(a + 1)) == pre + group@);
            lemma_flat_values_prefix(input@, (a + 1) as nat);
        }
        let mut v: usize = 0;
        while v < group.len()
            invariant
                v <= group@.len(),
                group == input@[a as int],
                pre.len() + group@.len() <= LEN,
                out@.len() == pre.len() + v,
                forall|i: int| 0 <= i < out@.len() ==> (#[trigger] out@[i]).same((pre + group@)[i]),
            decreases group@.len() - v,
        {
            out.push(group[v].copy());
            v = v + 1;
        }
        a = a + 1;
    }
    assert(input@.take(a as int) =~= input@);
    while out.len() < LEN
        invariant
            all.len() <= out@.len() <= LEN,
            forall|i: int| 0 <= i < all.len() ==> (#[trigger] out@[i]).same(all[i]),
            forall|i: int| all.len() <= i < out@.len() ==> (#[trigger] out@[i]).is_str(StrFmt::display_spec(), Seq::empty()),
        decreases LEN - out@.len(),
    {
        out.push(PanicVal::empty());
    }
    assert forall|cap: nat| #[trigger] run((Seq::empty(), false), flat_vals(out@), cap) == render_args(input@, cap) by {
        lemma_flatten_keeps_rendering(input@, out@, cap);
    }
    out
}

} // verus!
