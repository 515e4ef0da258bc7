//! The piece supply: a "random bag" holding each of the seven kinds exactly
//! once, handed out one piece at a time and refilled with a fresh shuffled
//! bag when it runs out.

use vstd::prelude::*;
use rand::seq::SliceRandom;
use crate::tetrimino::{is_canonical, Tetrimino, TetriminoKind};

verus! {

/// How many pieces of the given kind the sequence holds.
pub open spec fn kind_count(s: Seq<Tetrimino>, kind: TetriminoKind) -> nat
    decreases s.len(),
{
    if s.len() == 0 {
        0
    } else {
        kind_count(s.drop_last(), kind) + if s.last().kind == kind {
            1nat
        } else {
            0nat
        }
    }
}

/// Appending one piece raises the count of its kind by one and leaves every
/// other count alone.
pub proof fn lemma_kind_count_push(s: Seq<Tetrimino>, t: Tetrimino)
    ensures
        forall|kind: TetriminoKind| #[trigger] kind_count(s.push(t), kind) == kind_count(s, kind)
            + if t.kind == kind {
            1nat
        } else {
            0nat
        },
{
    assert forall|kind: TetriminoKind| #[trigger] kind_count(s.push(t), kind) == kind_count(s, kind)
        + if t.kind == kind {
        1nat
    } else {
        0nat
    } by {
        assert(s.push(t).drop_last() =~= s);
        assert(s.push(t).last() == t);
    }
}

/// A kind that appears at some position is counted at least once.
pub proof fn lemma_kind_count_ge_one(s: Seq<Tetrimino>, i: int)
    requires
        0 <= i < s.len(),
    ensures
        kind_count(s, s[i].kind) >= 1,
    decreases s.len(),
{
    if i < s.len() - 1 {
        lemma_kind_count_ge_one(s.drop_last(), i);
    }
}

/// A full bag: seven pieces, one of each kind, all straight out of the
/// catalog.
pub open spec fn is_full_bag(s: Seq<Tetrimino>) -> bool {
    &&& s.len() == 7
    &&& forall|kind: TetriminoKind| #[trigger] kind_count(s, kind) == 1
    &&& forall|i: int| 0 <= i < s.len() ==> #[trigger] is_canonical(s[i])
}

/// When each element of `post` is drawn from `pre` and every piece of `pre`
/// is canonical, every piece of `post` is canonical too.
proof fn lemma_all_canonical(pre: Seq<Tetrimino>, post: Seq<Tetrimino>)
    requires
        forall|i: int| 0 <= i < pre.len() ==> #[trigger] is_canonical(pre[i]),
        forall|i: int| 0 <= i < post.len() ==> pre.contains(#[trigger] post[i]),
    ensures
        forall|i: int| 0 <= i < post.len() ==> #[trigger] is_canonical(post[i]),
{
    assert forall|i: int| 0 <= i < post.len() implies #[trigger] is_canonical(post[i]) by {
        assert(pre.contains(post[i]));
        let j = choose|j: int| 0 <= j < pre.len() && pre[j] == post[i];
        assert(is_canonical(pre[j]));
    }
}

/// Relies on rand's `SliceRandom::shuffle` with `rand::thread_rng`: a
/// Fisher-Yates shuffle that reorders the elements in place by swaps, so
/// afterwards the vector holds exactly the elements it held before, in some
/// order. Nothing is promised about which order comes out.
#[verifier::external_body]
fn shuffle_bag(bag: &mut Vec<Tetrimino>)
    ensures
        final(bag)@.len() == old(bag)@.len(),
        forall|kind: TetriminoKind| #[trigger] kind_count(final(bag)@, kind) == kind_count(
            old(bag)@,
            kind,
        ),
        forall|i: int| 0 <= i < final(bag)@.len() ==> old(bag)@.contains(#[trigger] final(bag)@[i]),
{
    bag.shuffle(&mut rand::thread_rng());
}

/// Creates a vector holding one piece of each of the seven kinds, in a
/// randomized order.
pub fn create_random_bag() -> (bag: Vec<Tetrimino>)
    ensures
        is_full_bag(bag@),
{
    let mut bag: Vec<Tetrimino> = Vec::new();
    push_kind(&mut bag, TetriminoKind::I);
    push_kind(&mut bag, TetriminoKind::J);
    push_kind(&mut bag, TetriminoKind::L);
    push_kind(&mut bag, TetriminoKind::O);
    push_kind(&mut bag, TetriminoKind::S);
    push_kind(&mut bag, TetriminoKind::T);
    push_kind(&mut bag, TetriminoKind::Z);
    let ghost full = bag@;
    proof {
        assert(forall|kind: TetriminoKind| #[trigger] kind_count(full, kind) == 1);
        assert(forall|i: int| 0 <= i < full.len() ==> #[trigger] is_canonical(full[i]));
    }
    let ghost mid1 = bag@;
    shuffle_bag(&mut bag);
    proof {
        lemma_all_canonical(mid1, bag@);
    }
    let ghost mid2 = bag@;
    shuffle_bag(&mut bag);
    proof {
        lemma_all_canonical(mid2, bag@);
    }
    let ghost mid3 = bag@;
    shuffle_bag(&mut bag);
    proof {
        lemma_all_canonical(mid3, bag@);
    }
    bag
}

/// Appends the canonical piece of one kind, tracking the kind counts.
fn push_kind(bag: &mut Vec<Tetrimino>, kind: TetriminoKind)
    ensures
        final(bag)@.len() == old(bag)@.len() + 1,
        forall|k: TetriminoKind| #[trigger] kind_count(final(bag)@, k) == kind_count(old(bag)@, k)
            + if kind == k {
            1nat
        } else {
            0nat
        },
        forall|i: int| 0 <= i < old(bag)@.len() ==> #[trigger] final(bag)@[i] == old(bag)@[i],
        is_canonical(final(bag)@[old(bag)@.len() as int]),
        final(bag)@[old(bag)@.len() as int].kind == kind,
{
    let t = Tetrimino::new(kind);
    proof {
        lemma_kind_count_push(bag@, t);
    }
    bag.push(t);
}

/// Within one bag each kind shows up at most once, so no two positions of
/// the bag hold the same kind: a repeat can only come from a later bag.
pub proof fn lemma_bag_no_repeat(s: Seq<Tetrimino>, i: int, j: int)
    requires
        forall|kind: TetriminoKind| #[trigger] kind_count(s, kind) <= 1,
        0 <= i < j < s.len(),
    ensures
        s[i].kind != s[j].kind,
    decreases s.len(),
{
    if j == s.len() - 1 {
        if s[i].kind == s[j].kind {
            assert(s.drop_last()[i] == s[i]);
            lemma_kind_count_ge_one(s.drop_last(), i);
            assert(kind_count(s, s[j].kind) >= 2);
        }
    } else {
        assert forall|kind: TetriminoKind| #[trigger] kind_count(s.drop_last(), kind) <= 1 by {
            assert(kind_count(s, kind) <= 1);
        }
        lemma_bag_no_repeat(s.drop_last(), i, j);
    }
}

} // verus!
