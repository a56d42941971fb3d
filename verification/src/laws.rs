use vstd::prelude::*;

use crate::running::ChunkState;
use crate::running::WindowState;
use crate::running::apply_update;
use crate::running::min_i32;
use crate::running::update_accepted;

verus! {

/// Shapes of a contribution agree with the window's buffers.
pub open spec fn chunk_fits<S>(m: WindowState<S>, c: ChunkState<S>) -> bool {
    &&& c.sample_sizes.len() == m.sample_sizes.len()
    &&& c.gpv_update.len() == m.gpv.len()
    &&& c.beta_update.len() == m.beta.len()
    &&& forall|i: int|
        0 <= i < m.beta.len() ==> (#[trigger] c.beta_update[i]).len() == m.beta[i].len()
}

/// Updates commute: two contributions applied to the same window state in
/// either order leave identical accumulated beta, variance, sample-size and
/// identifier state, provided the scalar addition `f` is commutative and
/// associative. (On a fresh window the two contributions must carry the same
/// variant identifiers, or one order would be rejected.)
pub proof fn lemma_update_commutes<S>(
    m: WindowState<S>,
    c1: ChunkState<S>,
    c2: ChunkState<S>,
    f: spec_fn(S, S) -> S,
)
    requires
        m.seen >= 0,
        chunk_fits(m, c1),
        chunk_fits(m, c2),
        m.seen == 0 ==> c1.variant_ids == c2.variant_ids,
        m.seen != 0 ==> update_accepted(m, c1) && update_accepted(m, c2),
        forall|a: S, b: S| #[trigger] f(a, b) == f(b, a),
        forall|a: S, b: S, c: S| #[trigger] f(f(a, b), c) == f(a, f(b, c)),
    ensures
        apply_update(apply_update(m, c1, f), c2, f) == apply_update(apply_update(m, c2, f), c1, f),
{
    let l = apply_update(apply_update(m, c1, f), c2, f);
    let r = apply_update(apply_update(m, c2, f), c1, f);
    assert forall|a: S, b: S, c: S| #[trigger] f(f(a, b), c) == f(f(a, c), b) by {
        assert(f(f(a, b), c) == f(a, f(b, c)));
        assert(f(b, c) == f(c, b));
        assert(f(a, f(c, b)) == f(f(a, c), b));
    }
    assert(l.beta =~~= r.beta);
    assert(l.gpv =~~= r.gpv);
    assert forall|i: int| 0 <= i < l.sample_sizes.len() implies l.sample_sizes[i]
        == r.sample_sizes[i] by {
        assert(min_i32(min_i32(m.sample_sizes[i], c1.sample_sizes[i]), c2.sample_sizes[i])
            == min_i32(min_i32(m.sample_sizes[i], c2.sample_sizes[i]), c1.sample_sizes[i]));
    }
    assert(l.sample_sizes =~= r.sample_sizes);
    assert(l.variant_ids == r.variant_ids);
    assert(l == r);
}

/// The window state after a whole sequence of contributions, applied in
/// order.
pub open spec fn apply_updates<S>(
    m: WindowState<S>,
    cs: Seq<ChunkState<S>>,
    f: spec_fn(S, S) -> S,
) -> WindowState<S>
    decreases cs.len(),
{
    if cs.len() == 0 {
        m
    } else {
        apply_updates(apply_update(m, cs[0], f), cs.drop_first(), f)
    }
}

/// Folding a sequence of contributions ending in `c` is folding the prefix,
/// then applying `c`.
pub proof fn lemma_apply_updates_snoc<S>(
    m: WindowState<S>,
    cs: Seq<ChunkState<S>>,
    c: ChunkState<S>,
    f: spec_fn(S, S) -> S,
)
    ensures
        apply_updates(m, cs.push(c), f) == apply_update(apply_updates(m, cs, f), c, f),
    decreases cs.len(),
{
    assert(apply_updates(m, cs.push(c), f) == apply_updates(
        apply_update(m, cs.push(c)[0], f),
        cs.push(c).drop_first(),
        f,
    ));
    if cs.len() == 0 {
        assert(cs.push(c).drop_first() =~= Seq::<ChunkState<S>>::empty());
        assert(cs.push(c)[0] == c);
        assert(apply_updates(apply_update(m, c, f), Seq::<ChunkState<S>>::empty(), f)
            == apply_update(m, c, f));
        assert(apply_updates(m, cs, f) == m);
    } else {
        assert(cs.push(c).drop_first() =~= cs.drop_first().push(c));
        assert(cs.push(c)[0] == cs[0]);
        lemma_apply_updates_snoc(apply_update(m, cs[0], f), cs.drop_first(), c, f);
        assert(apply_updates(m, cs, f) == apply_updates(
            apply_update(m, cs[0], f),
            cs.drop_first(),
            f,
        ));
    }
}

/// The minimum sample size of entry `i` across all contributions.
pub open spec fn fold_min_at<S>(cs: Seq<ChunkState<S>>, i: int) -> i32
    decreases cs.len(),
{
    if cs.len() <= 1 {
        cs[0].sample_sizes[i]
    } else {
        min_i32(fold_min_at(cs.drop_last(), i), cs.last().sample_sizes[i])
    }
}

/// After any number of contributions to a fresh window, the running
/// sample-size vector holds, entry by entry, the elementwise minimum of
/// every contributed sample-size vector — whatever the scalar addition does.
pub proof fn lemma_min_sample_sizes<S>(
    m: WindowState<S>,
    cs: Seq<ChunkState<S>>,
    f: spec_fn(S, S) -> S,
    i: int,
)
    requires
        m.seen == 0,
        cs.len() >= 1,
        forall|k: int|
            0 <= k < cs.len() ==> (#[trigger] cs[k]).sample_sizes.len() == m.sample_sizes.len(),
        0 <= i < m.sample_sizes.len(),
    ensures
        apply_updates(m, cs, f).sample_sizes.len() == m.sample_sizes.len(),
        apply_updates(m, cs, f).sample_sizes[i] == fold_min_at(cs, i),
        apply_updates(m, cs, f).seen == cs.len(),
    decreases cs.len(),
{
    if cs.len() == 1 {
        assert(cs.drop_first() =~= Seq::<ChunkState<S>>::empty());
        assert(apply_updates(m, cs, f) == apply_updates(
            apply_update(m, cs[0], f),
            cs.drop_first(),
            f,
        ));
        assert(apply_updates(apply_update(m, cs[0], f), Seq::<ChunkState<S>>::empty(), f)
            == apply_update(m, cs[0], f));
    } else {
        let pre = cs.drop_last();
        let c = cs.last();
        assert(cs =~= pre.push(c));
        lemma_min_sample_sizes(m, pre, f, i);
        lemma_apply_updates_snoc(m, pre, c, f);
        let mid = apply_updates(m, pre, f);
        assert(mid.seen == pre.len());
        assert(apply_update(mid, c, f).sample_sizes[i] == min_i32(
            mid.sample_sizes[i],
            c.sample_sizes[i],
        ));
    }
}

} // verus!

use vstd::seq_lib::commutative_foldl;
use vstd::seq_lib::lemma_fold_left_permutation;

verus! {

/// Whether the window accepts contribution `c` outright: a sensible seen
/// counter, matching shapes, and matching variant identifiers.
pub open spec fn update_ok<S>(m: WindowState<S>, c: ChunkState<S>) -> bool {
    m.seen >= 0 && chunk_fits(m, c) && update_accepted(m, c)
}

/// One checked update step as a total fold operator: a rejected
/// contribution — or any step after one — collapses the state to `None`.
pub open spec fn checked_update<S>(f: spec_fn(S, S) -> S) -> spec_fn(
    Option<WindowState<S>>,
    ChunkState<S>,
) -> Option<WindowState<S>> {
    |acc: Option<WindowState<S>>, c: ChunkState<S>|
        match acc {
            Option::Some(m) => if update_ok(m, c) {
                Option::Some(apply_update(m, c, f))
            } else {
                Option::None
            },
            Option::None => Option::None,
        }
}

/// The window state after a whole sequence of checked contributions.
pub open spec fn checked_apply_updates<S>(
    m: WindowState<S>,
    cs: Seq<ChunkState<S>>,
    f: spec_fn(S, S) -> S,
) -> Option<WindowState<S>> {
    cs.fold_left(Option::Some(m), checked_update(f))
}

/// An accepted update keeps the buffer shapes, grows the seen counter by
/// one, and fixes the canonical identifiers.
pub proof fn lemma_apply_update_shapes<S>(m: WindowState<S>, c: ChunkState<S>, f: spec_fn(S, S) -> S)
    requires
        update_ok(m, c),
    ensures
        apply_update(m, c, f).sample_sizes.len() == m.sample_sizes.len(),
        apply_update(m, c, f).gpv.len() == m.gpv.len(),
        apply_update(m, c, f).beta.len() == m.beta.len(),
        forall|i: int|
            0 <= i < m.beta.len() ==> (#[trigger] apply_update(m, c, f).beta[i]).len()
                == m.beta[i].len(),
        apply_update(m, c, f).seen == m.seen + 1,
        apply_update(m, c, f).variant_ids is Some,
        apply_update(m, c, f).variant_ids->0 == if m.seen == 0 {
            c.variant_ids
        } else {
            m.variant_ids->0
        },
{
}

/// The checked update operator commutes unconditionally, provided the
/// scalar addition is commutative and associative: whichever of two
/// contributions a worker applies first, the window state — or the
/// rejection — is the same.
pub proof fn lemma_checked_update_commutative<S>(f: spec_fn(S, S) -> S)
    requires
        forall|a: S, b: S| #[trigger] f(a, b) == f(b, a),
        forall|a: S, b: S, c: S| #[trigger] f(f(a, b), c) == f(a, f(b, c)),
    ensures
        commutative_foldl(checked_update(f)),
{
    let g = checked_update(f);
    assert forall|x: ChunkState<S>, y: ChunkState<S>, v: Option<WindowState<S>>| #[trigger] g(
        g(v, x),
        y,
    ) == g(g(v, y), x) by {
        if let Option::Some(m) = v {
            let ok_x = update_ok(m, x);
            let ok_y = update_ok(m, y);
            if ok_x && ok_y {
                let mx = apply_update(m, x, f);
                let my = apply_update(m, y, f);
                lemma_apply_update_shapes(m, x, f);
                lemma_apply_update_shapes(m, y, f);
                assert(chunk_fits(mx, y) == chunk_fits(m, y));
                assert(chunk_fits(my, x) == chunk_fits(m, x));
                if m.seen == 0 {
                    if x.variant_ids == y.variant_ids {
                        lemma_update_commutes(m, x, y, f);
                        assert(update_ok(mx, y) && update_ok(my, x));
                    } else {
                        assert(!update_ok(mx, y) && !update_ok(my, x));
                    }
                } else {
                    assert(update_ok(mx, y) && update_ok(my, x));
                    lemma_update_commutes(m, x, y, f);
                }
            } else if ok_x {
                let mx = apply_update(m, x, f);
                lemma_apply_update_shapes(m, x, f);
                assert(!update_ok(mx, y));
            } else if ok_y {
                let my = apply_update(m, y, f);
                lemma_apply_update_shapes(m, y, f);
                assert(!update_ok(my, x));
            }
        }
    }
}

/// Updates from different phenotypes within a window may be applied in any
/// order: two sequences of contributions holding the same multiset lead the
/// checked fold to the identical window state — or to the identical
/// rejection — whenever the scalar addition is commutative and associative.
pub proof fn lemma_update_order_irrelevant<S>(
    m: WindowState<S>,
    cs1: Seq<ChunkState<S>>,
    cs2: Seq<ChunkState<S>>,
    f: spec_fn(S, S) -> S,
)
    requires
        cs1.to_multiset() == cs2.to_multiset(),
        forall|a: S, b: S| #[trigger] f(a, b) == f(b, a),
        forall|a: S, b: S, c: S| #[trigger] f(f(a, b), c) == f(a, f(b, c)),
    ensures
        checked_apply_updates(m, cs1, f) == checked_apply_updates(m, cs2, f),
{
    lemma_checked_update_commutative::<S>(f);
    lemma_fold_left_permutation(cs1, cs2, checked_update(f), Option::Some(m));
}

/// A checked fold that succeeds computes exactly the unchecked fold.
pub proof fn lemma_checked_matches_unchecked<S>(
    m: WindowState<S>,
    cs: Seq<ChunkState<S>>,
    f: spec_fn(S, S) -> S,
    w: WindowState<S>,
)
    requires
        checked_apply_updates(m, cs, f) == Option::Some(w),
    ensures
        w == apply_updates(m, cs, f),
    decreases cs.len(),
{
    let g = checked_update(f);
    if cs.len() == 0 {
        assert(apply_updates(m, cs, f) == m);
    } else {
        let prefix = cs.drop_last();
        let c = cs.last();
        assert(checked_apply_updates(m, cs, f) == g(checked_apply_updates(m, prefix, f), c));
        let acc = checked_apply_updates(m, prefix, f);
        assert(acc is Some);
        let w0 = acc->0;
        lemma_checked_matches_unchecked(m, prefix, f, w0);
        assert(cs =~= prefix.push(c));
        lemma_apply_updates_snoc(m, prefix, c, f);
    }
}

} // verus!
