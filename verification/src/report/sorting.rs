//! The order of the rows: by the rank of what a column shows, rows of equal
//! rank in the order of the table.

use vstd::prelude::*;

verus! {

/// Whether `a` comes before `b` in the order of the dictionary: at the
/// first place where they differ `a` has the smaller number, or `a` ends
/// there and `b` goes on.
pub open spec fn lex_less(a: Seq<nat>, b: Seq<nat>) -> bool
    decreases a.len(),
{
    if b.len() == 0 {
        false
    } else if a.len() == 0 {
        true
    } else if a[0] != b[0] {
        a[0] < b[0]
    } else {
        lex_less(a.skip(1), b.skip(1))
    }
}

/// Nothing comes before itself.
pub proof fn lemma_lex_irreflexive(a: Seq<nat>)
    ensures
        !lex_less(a, a),
    decreases a.len(),
{
    if a.len() > 0 {
        lemma_lex_irreflexive(a.skip(1));
    }
}

/// Of two different sequences one comes before the other.
pub proof fn lemma_lex_total(a: Seq<nat>, b: Seq<nat>)
    ensures
        a == b || lex_less(a, b) || lex_less(b, a),
        !(lex_less(a, b) && lex_less(b, a)),
    decreases a.len(),
{
    if a.len() == 0 || b.len() == 0 {
        if a.len() == 0 && b.len() == 0 {
            assert(a =~= b);
        }
    } else if a[0] == b[0] {
        lemma_lex_total(a.skip(1), b.skip(1));
        if a.skip(1) == b.skip(1) {
            assert forall|i: int| 0 <= i < a.len() implies a[i] == b[i] by {
                if i > 0 {
                    assert(a.skip(1)[i - 1] == b.skip(1)[i - 1]);
                }
            }
            assert(a.len() == a.skip(1).len() + 1);
            assert(b.len() == b.skip(1).len() + 1);
            assert(a =~= b);
        }
    }
}

/// What comes before something that comes before a third comes before the
/// third.
pub proof fn lemma_lex_transitive(a: Seq<nat>, b: Seq<nat>, c: Seq<nat>)
    requires
        lex_less(a, b),
        lex_less(b, c),
    ensures
        lex_less(a, c),
    decreases a.len(),
{
    if a.len() > 0 && a[0] == b[0] && b[0] == c[0] {
        lemma_lex_transitive(a.skip(1), b.skip(1), c.skip(1));
    }
}

/// The numbers as natural numbers.
pub open spec fn as_nats(numbers: Seq<u128>) -> Seq<nat> {
    Seq::new(numbers.len(), |i: int| numbers[i] as nat)
}

/// The ranks as sequences of natural numbers.
pub open spec fn as_ranks(ranks: Seq<Vec<u128>>) -> Seq<Seq<nat>> {
    Seq::new(ranks.len(), |i: int| as_nats(ranks[i]@))
}

/// Tells whether `a` comes before `b` in the order of the dictionary.
pub fn rank_less(a: &Vec<u128>, b: &Vec<u128>) -> (less: bool)
    ensures
        less == lex_less(as_nats(a@), as_nats(b@)),
{
    let mut i: usize = 0;
    assert(as_nats(a@).skip(0) =~= as_nats(a@));
    assert(as_nats(b@).skip(0) =~= as_nats(b@));
    while i < a.len() && i < b.len()
        invariant
            i <= a.len(),
            i <= b.len(),
            lex_less(as_nats(a@), as_nats(b@)) == lex_less(
                as_nats(a@).skip(i as int),
                as_nats(b@).skip(i as int),
            ),
        decreases a.len() - i,
    {
        proof {
            let rest_a = as_nats(a@).skip(i as int);
            let rest_b = as_nats(b@).skip(i as int);
            assert(rest_a[0] == a@[i as int] as nat);
            assert(rest_b[0] == b@[i as int] as nat);
            assert(rest_a.skip(1) =~= as_nats(a@).skip(i + 1));
            assert(rest_b.skip(1) =~= as_nats(b@).skip(i + 1));
        }
        if a[i] != b[i] {
            return a[i] < b[i];
        }
        i += 1;
    }
    i < b.len()
}

/// Whether the row at position `p` of the table comes before the row at
/// position `q`: by rank, from low to high or from high to low, and by
/// position where the ranks are equal.
pub open spec fn precedes(ranks: Seq<Seq<nat>>, descending: bool, p: int, q: int) -> bool {
    if descending {
        lex_less(ranks[q], ranks[p]) || (!lex_less(ranks[p], ranks[q]) && p < q)
    } else {
        lex_less(ranks[p], ranks[q]) || (!lex_less(ranks[q], ranks[p]) && p < q)
    }
}

/// Whether the positions stand in the order of the report.
pub open spec fn in_order(ranks: Seq<Seq<nat>>, descending: bool, positions: Seq<usize>) -> bool {
    forall|i: int, j: int|
        0 <= i < j < positions.len() ==> precedes(
            ranks,
            descending,
            #[trigger] positions[i] as int,
            #[trigger] positions[j] as int,
        )
}

/// Of two different positions one comes before the other, and not both
/// ways.
pub proof fn lemma_precedes_total(ranks: Seq<Seq<nat>>, descending: bool, p: int, q: int)
    ensures
        p != q ==> precedes(ranks, descending, p, q) || precedes(ranks, descending, q, p),
        !(precedes(ranks, descending, p, q) && precedes(ranks, descending, q, p)),
        !precedes(ranks, descending, p, p),
{
    lemma_lex_total(ranks[p], ranks[q]);
    lemma_lex_irreflexive(ranks[p]);
}

/// The order of the report is transitive.
pub proof fn lemma_precedes_transitive(
    ranks: Seq<Seq<nat>>,
    descending: bool,
    p: int,
    q: int,
    r: int,
)
    requires
        precedes(ranks, descending, p, q),
        precedes(ranks, descending, q, r),
    ensures
        precedes(ranks, descending, p, r),
{
    let a = if descending {
        ranks[r]
    } else {
        ranks[p]
    };
    let b = ranks[q];
    let c = if descending {
        ranks[p]
    } else {
        ranks[r]
    };
    lemma_lex_total(a, b);
    lemma_lex_total(b, c);
    lemma_lex_total(a, c);
    lemma_lex_irreflexive(a);
    if lex_less(a, b) && lex_less(b, c) {
        lemma_lex_transitive(a, b, c);
    }
    if lex_less(c, a) && lex_less(a, b) {
        lemma_lex_transitive(c, a, b);
    }
    if lex_less(b, c) && lex_less(c, a) {
        lemma_lex_transitive(b, c, a);
    }
}

/// Tells whether the row at position `p` comes before the row at position
/// `q`.
fn comes_before(ranks: &Vec<Vec<u128>>, descending: bool, p: usize, q: usize) -> (before: bool)
    requires
        p < ranks.len(),
        q < ranks.len(),
    ensures
        before == precedes(as_ranks(ranks@), descending, p as int, q as int),
{
    if descending {
        rank_less(&ranks[q], &ranks[p]) || (!rank_less(&ranks[p], &ranks[q]) && p < q)
    } else {
        rank_less(&ranks[p], &ranks[q]) || (!rank_less(&ranks[q], &ranks[p]) && p < q)
    }
}

/// Puts distinct positions of the table into the order of the report. The
/// result holds the same positions, each once; rows of equal rank keep the
/// order of their positions.
pub(crate) fn sort_positions(positions: &Vec<usize>, ranks: &Vec<Vec<u128>>, descending: bool) -> (sorted:
    Vec<usize>)
    requires
        positions@.no_duplicates(),
        forall|i: int| 0 <= i < positions.len() ==> positions[i] < ranks.len(),
    ensures
        in_order(as_ranks(ranks@), descending, sorted@),
        sorted.len() == positions.len(),
        forall|p: usize| sorted@.contains(p) <==> positions@.contains(p),
{
    let ghost spec_ranks = as_ranks(ranks@);
    let mut sorted: Vec<usize> = Vec::new();
    let mut k: usize = 0;
    while k < positions.len()
        invariant
            k <= positions.len(),
            spec_ranks == as_ranks(ranks@),
            positions@.no_duplicates(),
            forall|i: int| 0 <= i < positions.len() ==> positions[i] < ranks.len(),
            sorted.len() == k,
            in_order(spec_ranks, descending, sorted@),
            forall|p: usize| sorted@.contains(p) <==> positions@.take(k as int).contains(p),
        decreases positions.len() - k,
    {
        let x = positions[k];
        let ghost before = sorted@;
        proof {
            if before.contains(x) {
                let j = choose|j: int|
                    0 <= j < k && positions@.take(k as int)[j] == x;
                assert(positions@[j] == positions@[k as int]);
            }
            assert forall|i: int| 0 <= i < before.len() implies before[i] < ranks.len()
                && before[i] != x by {
                assert(before.contains(before[i]));
                let j = choose|j: int|
                    0 <= j < k && positions@.take(k as int)[j] == before[i];
                assert(positions@[j] == before[i]);
            }
        }
        let mut at: usize = sorted.len();
        while at > 0 && comes_before(ranks, descending, x, sorted[at - 1])
            invariant
                at <= sorted.len(),
                sorted@ == before,
                spec_ranks == as_ranks(ranks@),
                x < ranks.len(),
                forall|i: int| 0 <= i < before.len() ==> before[i] < ranks.len(),
                forall|i: int|
                    at <= i < before.len() ==> precedes(
                        spec_ranks,
                        descending,
                        x as int,
                        #[trigger] before[i] as int,
                    ),
            decreases at,
        {
            at -= 1;
        }
        sorted.insert(at, x);
        proof {
            let after = sorted@;
            assert(after == before.insert(at as int, x));
            assert forall|i: int, j: int| 0 <= i < j < after.len() implies precedes(
                spec_ranks,
                descending,
                #[trigger] after[i] as int,
                #[trigger] after[j] as int,
            ) by {
                if j < at {
                    assert(after[i] == before[i] && after[j] == before[j]);
                } else if j == at {
                    assert(after[i] == before[i]);
                    lemma_precedes_total(spec_ranks, descending, x as int, before[at - 1] as int);
                    if i < at - 1 {
                        assert(precedes(
                            spec_ranks,
                            descending,
                            before[i] as int,
                            before[at - 1] as int,
                        ));
                        lemma_precedes_transitive(
                            spec_ranks,
                            descending,
                            before[i] as int,
                            before[at - 1] as int,
                            x as int,
                        );
                    }
                } else if i < at {
                    assert(after[i] == before[i] && after[j] == before[j - 1]);
                    assert(precedes(spec_ranks, descending, before[i] as int, before[j - 1] as int));
                } else if i == at {
                    assert(after[j] == before[j - 1]);
                } else {
                    assert(after[i] == before[i - 1] && after[j] == before[j - 1]);
                    assert(precedes(
                        spec_ranks,
                        descending,
                        before[i - 1] as int,
                        before[j - 1] as int,
                    ));
                }
            }
            let taken = positions@.take(k + 1);
            assert forall|p: usize| after.contains(p) <==> taken.contains(p) by {
                if after.contains(p) {
                    let i = choose|i: int| 0 <= i < after.len() && after[i] == p;
                    if i == at {
                        assert(taken[k as int] == p);
                    } else {
                        if i < at {
                            assert(before[i] == p);
                        } else {
                            assert(before[i - 1] == p);
                        }
                        assert(before.contains(p));
                        let j = choose|j: int|
                            0 <= j < k && positions@.take(k as int)[j] == p;
                        assert(taken[j] == p);
                    }
                }
                if taken.contains(p) {
                    let j = choose|j: int| 0 <= j < taken.len() && taken[j] == p;
                    if j == k {
                        assert(after[at as int] == p);
                    } else {
                        assert(positions@.take(k as int)[j] == p);
                        assert(before.contains(p));
                        let i = choose|i: int| 0 <= i < before.len() && before[i] == p;
                        if i < at {
                            assert(after[i] == p);
                        } else {
                            assert(after[i + 1] == p);
                        }
                    }
                }
            }
        }
        k += 1;
    }
    assert(positions@.take(positions.len() as int) == positions@);
    sorted
}

} // verus!
