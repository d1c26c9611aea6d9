//! Equivalence classes of copy-constrained cells.
//!
//! Declared copy constraints are unordered pairs of cell identifiers; the
//! classes they induce are the reflexive-symmetric-transitive closure of
//! those pairs.  [`related`] is the mathematical closure, defined through
//! chains of declared links; [`build_classes`] is the verified algorithm
//! that labels every identifier so that two identifiers get the same label
//! exactly when they are related.  This equality-class checking is the
//! logical equivalent, at witness level, of a proving system's permutation
//! argument.

use vstd::prelude::*;

verus! {

/// Some declared pair joins `x` and `y` directly, in either order.
pub open spec fn linked(pairs: Seq<(nat, nat)>, x: nat, y: nat) -> bool {
    exists|i: int| 0 <= i < pairs.len() && (pairs[i] == (x, y) || pairs[i] == (y, x))
}

/// `p` is a chain of directly linked identifiers from `x` to `y`.
pub open spec fn is_path(pairs: Seq<(nat, nat)>, p: Seq<nat>, x: nat, y: nat) -> bool {
    &&& p.len() >= 1
    &&& p[0] == x
    &&& p[p.len() - 1] == y
    &&& forall|j: int| 0 <= j < p.len() - 1 ==> #[trigger] linked(pairs, p[j], p[j + 1])
}

/// `x` and `y` lie in the same equivalence class: some chain of declared
/// pairs joins them.  Every identifier is related to itself.
pub open spec fn related(pairs: Seq<(nat, nat)>, x: nat, y: nat) -> bool {
    exists|p: Seq<nat>| is_path(pairs, p, x, y)
}

/// Relatedness is reflexive.
pub proof fn lemma_related_refl(pairs: Seq<(nat, nat)>, x: nat)
    ensures
        related(pairs, x, x),
{
    let p = seq![x];
    assert(is_path(pairs, p, x, x));
}

/// The two cells of any declared pair are related, in both orders.
pub proof fn lemma_related_step(pairs: Seq<(nat, nat)>, i: int)
    requires
        0 <= i < pairs.len(),
    ensures
        related(pairs, pairs[i].0, pairs[i].1),
        related(pairs, pairs[i].1, pairs[i].0),
{
    let a = pairs[i].0;
    let b = pairs[i].1;
    assert(pairs[i] == (a, b));
    assert(linked(pairs, a, b));
    assert(linked(pairs, b, a));
    let p = seq![a, b];
    assert(is_path(pairs, p, a, b));
    let q = seq![b, a];
    assert(is_path(pairs, q, b, a));
}

/// Relatedness is transitive: chains concatenate.
pub proof fn lemma_related_trans(pairs: Seq<(nat, nat)>, x: nat, y: nat, z: nat)
    requires
        related(pairs, x, y),
        related(pairs, y, z),
    ensures
        related(pairs, x, z),
{
    let p1 = choose|p: Seq<nat>| is_path(pairs, p, x, y);
    let p2 = choose|p: Seq<nat>| is_path(pairs, p, y, z);
    if p2.len() == 1 {
        assert(is_path(pairs, p1, x, z));
    } else {
        let p = p1 + p2.subrange(1, p2.len() as int);
        assert(p.len() == p1.len() + p2.len() - 1);
        assert(p[0] == x);
        assert(p[p.len() - 1] == p2[p2.len() - 1]);
        assert forall|j: int| 0 <= j < p.len() - 1 implies #[trigger] linked(
            pairs,
            p[j],
            p[j + 1],
        ) by {
            if j < p1.len() - 1 {
                assert(p[j] == p1[j]);
                assert(p[j + 1] == p1[j + 1]);
                assert(linked(pairs, p1[j], p1[j + 1]));
            } else if j == p1.len() - 1 {
                assert(p[j] == p1[j]);
                assert(p1[j] == y);
                assert(p[j + 1] == p2[1]);
                assert(linked(pairs, p2[0], p2[1]));
            } else {
                assert(p[j] == p2[j - p1.len() + 1]);
                assert(p[j + 1] == p2[j - p1.len() + 2]);
                assert(linked(pairs, p2[j - p1.len() + 1], p2[j - p1.len() + 2]));
            }
        }
        assert(is_path(pairs, p, x, z));
    }
}

proof fn lemma_path_sym(pairs: Seq<(nat, nat)>, p: Seq<nat>, x: nat, y: nat)
    requires
        is_path(pairs, p, x, y),
    ensures
        related(pairs, y, x),
    decreases p.len(),
{
    if p.len() == 1 {
        lemma_related_refl(pairs, x);
    } else {
        let rest = p.subrange(1, p.len() as int);
        assert forall|j: int| 0 <= j < rest.len() - 1 implies #[trigger] linked(
            pairs,
            rest[j],
            rest[j + 1],
        ) by {
            assert(rest[j] == p[j + 1]);
            assert(rest[j + 1] == p[j + 2]);
            assert(linked(pairs, p[j + 1], p[j + 2]));
        }
        assert(is_path(pairs, rest, p[1], y));
        lemma_path_sym(pairs, rest, p[1], y);
        assert(linked(pairs, p[0], p[1]));
        assert(linked(pairs, p[1], p[0])) by {
            let i = choose|i: int|
                0 <= i < pairs.len() && (pairs[i] == (p[0], p[1]) || pairs[i] == (p[1], p[0]));
            assert(0 <= i < pairs.len() && (pairs[i] == (p[1], p[0]) || pairs[i] == (
            p[0],
            p[1],
            )));
        }
        let q = seq![p[1], x];
        assert(is_path(pairs, q, p[1], x));
        lemma_related_trans(pairs, y, p[1], x);
    }
}

/// Relatedness is symmetric: chains reverse.
pub proof fn lemma_related_sym(pairs: Seq<(nat, nat)>, x: nat, y: nat)
    requires
        related(pairs, x, y),
    ensures
        related(pairs, y, x),
{
    let p = choose|p: Seq<nat>| is_path(pairs, p, x, y);
    lemma_path_sym(pairs, p, x, y);
}

/// Relatedness is preserved when more pairs are declared afterwards.
pub proof fn lemma_related_prefix(pairs1: Seq<(nat, nat)>, pairs2: Seq<(nat, nat)>, x: nat, y: nat)
    requires
        pairs1.len() <= pairs2.len(),
        forall|i: int| 0 <= i < pairs1.len() ==> pairs1[i] == pairs2[i],
        related(pairs1, x, y),
    ensures
        related(pairs2, x, y),
{
    let p = choose|p: Seq<nat>| is_path(pairs1, p, x, y);
    assert forall|j: int| 0 <= j < p.len() - 1 implies #[trigger] linked(pairs2, p[j], p[j + 1]) by {
        assert(linked(pairs1, p[j], p[j + 1]));
        let i = choose|i: int|
            0 <= i < pairs1.len() && (pairs1[i] == (p[j], p[j + 1]) || pairs1[i] == (
            p[j + 1],
            p[j],
            ));
        assert(pairs2[i] == pairs1[i]);
    }
    assert(is_path(pairs2, p, x, y));
}

proof fn lemma_path_respects(pairs: Seq<(nat, nat)>, f: spec_fn(nat) -> nat, p: Seq<nat>, x: nat, y: nat)
    requires
        forall|i: int| 0 <= i < pairs.len() ==> f((#[trigger] pairs[i]).0) == f(pairs[i].1),
        is_path(pairs, p, x, y),
    ensures
        f(x) == f(y),
    decreases p.len(),
{
    if p.len() == 1 {
    } else {
        assert(p.len() >= 2);
        assert(linked(pairs, p[0int], p[0int + 1]));
        assert(linked(pairs, p[0], p[1]));
        let i = choose|i: int|
            0 <= i < pairs.len() && (pairs[i] == (p[0], p[1]) || pairs[i] == (p[1], p[0]));
        assert(f(p[0]) == f(p[1]));
        let rest = p.subrange(1, p.len() as int);
        assert forall|j: int| 0 <= j < rest.len() - 1 implies #[trigger] linked(
            pairs,
            rest[j],
            rest[j + 1],
        ) by {
            assert(rest[j] == p[j + 1]);
            assert(rest[j + 1] == p[j + 2]);
            assert(linked(pairs, p[j + 1], p[j + 2]));
        }
        assert(is_path(pairs, rest, p[1], y));
        lemma_path_respects(pairs, f, rest, p[1], y);
    }
}

/// Any labelling that agrees on every declared pair agrees across whole
/// classes.
pub proof fn lemma_related_respects(
    pairs: Seq<(nat, nat)>,
    f: spec_fn(nat) -> nat,
    x: nat,
    y: nat,
)
    requires
        forall|i: int| 0 <= i < pairs.len() ==> f((#[trigger] pairs[i]).0) == f(pairs[i].1),
        related(pairs, x, y),
    ensures
        f(x) == f(y),
{
    let p = choose|p: Seq<nat>| is_path(pairs, p, x, y);
    lemma_path_respects(pairs, f, p, x, y);
}

/// Chains never leave the identifier domain: anything related to `x`
/// is `x` itself or an endpoint of some declared pair.
pub proof fn lemma_related_in_domain(pairs: Seq<(nat, nat)>, n: nat, x: nat, y: nat)
    requires
        forall|i: int| 0 <= i < pairs.len() ==> (#[trigger] pairs[i]).0 < n && pairs[i].1 < n,
        related(pairs, x, y),
    ensures
        y < n || y == x,
{
    let f = |id: nat| if id < n || id == x { 0nat } else { 1nat };
    lemma_related_respects(pairs, f, x, y);
}

/// With exactly one declared pair, a chain either stays at its start or
/// moves between the pair's two cells.
pub proof fn lemma_related_one_pair(pairs: Seq<(nat, nat)>, x: nat, y: nat)
    requires
        pairs.len() == 1,
        related(pairs, x, y),
    ensures
        x == y || ((x == pairs[0].0 || x == pairs[0].1) && (y == pairs[0].0 || y == pairs[0].1)),
{
    let f = |id: nat|
        if id == pairs[0].0 || id == pairs[0].1 {
            0nat
        } else {
            id + 1
        };
    lemma_related_respects(pairs, f, x, y);
}

/// The declared pairs, as mathematical identifiers.
pub open spec fn pairs_view(pairs: Seq<(usize, usize)>) -> Seq<(nat, nat)> {
    pairs.map_values(|p: (usize, usize)| (p.0 as nat, p.1 as nat))
}

/// The label a labelling sequence gives an identifier.
pub open spec fn label_of(labels: Seq<usize>, id: nat) -> nat {
    if id < labels.len() {
        labels[id as int] as nat
    } else {
        0
    }
}

/// Labels the identifiers `0 .. n` so that two identifiers carry the same
/// label exactly when the declared pairs make them [`related`].
pub fn build_classes(pairs: &Vec<(usize, usize)>, n: usize) -> (labels: Vec<usize>)
    requires
        forall|i: int|
            0 <= i < pairs@.len() ==> (#[trigger] pairs@[i]).0 < n && pairs@[i].1 < n,
    ensures
        labels@.len() == n,
        forall|x: int| 0 <= x < n ==> #[trigger] labels@[x] < n,
        forall|x: int, y: int|
            0 <= x < n && 0 <= y < n ==> ((#[trigger] labels@[x] == #[trigger] labels@[y])
                <==> related(pairs_view(pairs@), x as nat, y as nat)),
{
    let mut labels: Vec<usize> = Vec::new();
    let mut i: usize = 0;
    while i < n
        invariant
            i <= n,
            labels@.len() == i,
            forall|x: int| 0 <= x < i ==> #[trigger] labels@[x] == x,
        decreases n - i,
    {
        labels.push(i);
        i = i + 1;
    }

    let ghost all_pairs = pairs_view(pairs@);
    proof {
        assert(pairs_view(pairs@.take(0)) =~= Seq::<(nat, nat)>::empty());
        assert forall|x: int, y: int|
            0 <= x < n && 0 <= y < n implies ((#[trigger] labels@[x] == #[trigger] labels@[y])
            <==> related(pairs_view(pairs@.take(0)), x as nat, y as nat)) by {
            if labels@[x] == labels@[y] {
                assert(x == y);
                lemma_related_refl(pairs_view(pairs@.take(0)), x as nat);
            }
            if related(pairs_view(pairs@.take(0)), x as nat, y as nat) {
                let f = |id: nat| if id == x as nat { 0nat } else { 1nat };
                lemma_related_respects(pairs_view(pairs@.take(0)), f, x as nat, y as nat);
                assert(x == y);
            }
        }
    }

    let mut t: usize = 0;
    while t < pairs.len()
        invariant
            t <= pairs@.len(),
            labels@.len() == n,
            forall|i: int| 0 <= i < pairs@.len() ==> (#[trigger] pairs@[i]).0 < n && pairs@[i].1 < n,
            forall|x: int| 0 <= x < n ==> #[trigger] labels@[x] < n,
            forall|x: int, y: int|
                0 <= x < n && 0 <= y < n ==> ((#[trigger] labels@[x] == #[trigger] labels@[y])
                    <==> related(pairs_view(pairs@.take(t as int)), x as nat, y as nat)),
        decreases pairs@.len() - t,
    {
        let ghost prev = pairs_view(pairs@.take(t as int));
        let ghost next = pairs_view(pairs@.take(t as int + 1));
        proof {
            assert(next =~= prev.push((pairs@[t as int].0 as nat, pairs@[t as int].1 as nat)));
        }
        let pa = pairs[t].0;
        let pb = pairs[t].1;
        let la = labels[pa];
        let lb = labels[pb];
        let ghost old_labels = labels@;
        if la != lb {
            let mut j: usize = 0;
            while j < n
                invariant
                    j <= n,
                    labels@.len() == n,
                    forall|x: int|
                        0 <= x < j ==> #[trigger] labels@[x] == (if old_labels[x] == la {
                            lb
                        } else {
                            old_labels[x]
                        }),
                    forall|x: int| j <= x < n ==> #[trigger] labels@[x] == old_labels[x],
                decreases n - j,
            {
                if labels[j] == la {
                    labels[j] = lb;
                }
                j = j + 1;
            }
        }
        proof {
            let a = pa as nat;
            let b = pb as nat;
            assert(next[t as int] == (a, b));
            // Old equal labels stay equal, so everything related before
            // keeps a shared label, and the new pair's endpoints now
            // share one too.
            assert forall|x: int, y: int|
                0 <= x < n && 0 <= y < n implies ((#[trigger] labels@[x] == #[trigger] labels@[y])
                <==> related(next, x as nat, y as nat)) by {
                if labels@[x] == labels@[y] {
                    // Same new label: either same old label, or one side
                    // was in la's class and the other in lb's.
                    if old_labels[x] == old_labels[y] {
                        lemma_related_prefix(prev, next, x as nat, y as nat);
                    } else {
                        assert(la != lb);
                        lemma_related_step(next, t as int);
                        if old_labels[x] == la && old_labels[y] == lb {
                            assert(old_labels[pa as int] == la);
                            assert(old_labels[pb as int] == lb);
                            assert(related(prev, x as nat, a));
                            assert(related(prev, b, y as nat));
                            lemma_related_prefix(prev, next, x as nat, a);
                            lemma_related_prefix(prev, next, b, y as nat);
                            lemma_related_trans(next, x as nat, a, b);
                            lemma_related_trans(next, x as nat, b, y as nat);
                        } else {
                            assert(old_labels[x] == lb && old_labels[y] == la);
                            lemma_related_sym(next, a, b);
                            assert(related(prev, x as nat, b));
                            assert(related(prev, a, y as nat));
                            lemma_related_prefix(prev, next, x as nat, b);
                            lemma_related_prefix(prev, next, a, y as nat);
                            lemma_related_trans(next, x as nat, b, a);
                            lemma_related_trans(next, x as nat, a, y as nat);
                        }
                    }
                }
                if related(next, x as nat, y as nat) {
                    let f = |id: nat| label_of(labels@, id);
                    assert forall|i: int| 0 <= i < next.len() implies f(
                        (#[trigger] next[i]).0,
                    ) == f(next[i].1) by {
                        if i < prev.len() {
                            assert(next[i] == prev[i]);
                            lemma_related_step(prev, i);
                            assert(old_labels[next[i].0 as int] == old_labels[next[i].1 as int]);
                        } else {
                            assert(next[i] == (a, b));
                        }
                    }
                    lemma_related_respects(next, f, x as nat, y as nat);
                }
            }
        }
        t = t + 1;
    }
    proof {
        assert(pairs@.take(pairs@.len() as int) =~= pairs@);
    }
    labels
}

} // verus!
