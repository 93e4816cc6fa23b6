//! Listing rows by their time stamps, the newest first.

use vstd::prelude::*;
use crate::text::{
    chars_of, deep, first_where, is_first, lemma_first, lemma_has_first, lemma_no_first,
    lemma_take_next,
};

verus! {

/// Dictionary order, character by character.
pub open spec fn text_less(a: Seq<char>, b: Seq<char>) -> bool
    decreases a.len(),
{
    if b.len() == 0 {
        false
    } else if a.len() == 0 {
        true
    } else if a[0] == b[0] {
        text_less(a.skip(1), b.skip(1))
    } else {
        (a[0] as int) < (b[0] as int)
    }
}

/// Where position `x` goes in a list of positions: behind everything that is not
/// older.
pub open spec fn place(order: Seq<int>, stamps: Seq<Seq<char>>, x: int) -> int {
    match first_where(order.len() as int, |k: int| text_less(stamps[order[k]], stamps[x])) {
        Some(k) => k,
        None => order.len() as int,
    }
}

/// The positions of the stamps, the newest first; of equal ones the earlier first.
pub open spec fn newest_order(stamps: Seq<Seq<char>>) -> Seq<int>
    decreases stamps.len(),
{
    if stamps.len() == 0 {
        Seq::empty()
    } else {
        let x = stamps.len() - 1;
        let order = newest_order(stamps.drop_last());
        order.insert(place(order, stamps, x), x)
    }
}

/// Two stamps are never older than each other.
pub proof fn lemma_less_asymmetric(a: Seq<char>, b: Seq<char>)
    ensures
        !(text_less(a, b) && text_less(b, a)),
    decreases a.len(),
{
    if a.len() > 0 && b.len() > 0 && a[0] == b[0] {
        lemma_less_asymmetric(a.skip(1), b.skip(1));
    }
}

/// What is not older than something not older is not older.
pub proof fn lemma_not_less_transitive(a: Seq<char>, b: Seq<char>, c: Seq<char>)
    requires
        !text_less(a, b),
        !text_less(b, c),
    ensures
        !text_less(a, c),
    decreases a.len(),
{
    if a.len() > 0 && b.len() > 0 && c.len() > 0 {
        if a[0] == b[0] && b[0] == c[0] {
            lemma_not_less_transitive(a.skip(1), b.skip(1), c.skip(1));
        }
    }
}

/// The list holds every position once, and no older stamp stands before a newer.
pub proof fn law_newest_order(stamps: Seq<Seq<char>>)
    ensures
        newest_order(stamps).len() == stamps.len(),
        newest_order(stamps).no_duplicates(),
        forall|k: int| 0 <= k < stamps.len() ==> 0 <= #[trigger] newest_order(stamps)[k] < stamps.len(),
        forall|a: int, b: int|
            0 <= a < b < stamps.len() ==> !text_less(
                stamps[#[trigger] newest_order(stamps)[a]],
                stamps[#[trigger] newest_order(stamps)[b]],
            ),
    decreases stamps.len(),
{
    if stamps.len() > 0 {
        let x = stamps.len() - 1;
        let s = stamps.drop_last();
        let order = newest_order(s);
        law_newest_order(s);
        let p = place(order, stamps, x);
        let older = |k: int| text_less(stamps[order[k]], stamps[x]);
        lemma_place(order, stamps, x);
        let all = order.insert(p, x);
        assert forall|k: int| 0 <= k < order.len() implies #[trigger] stamps[order[k]] == s[order[k]] by {}
        assert forall|a: int, b: int| 0 <= a < b < all.len() implies !text_less(
            stamps[#[trigger] all[a]],
            stamps[#[trigger] all[b]],
        ) by {
            if b < p {
                assert(!text_less(s[order[a]], s[order[b]]));
            } else if a < p && b == p {
                assert(!older(a));
            } else if a < p {
                assert(!text_less(s[order[a]], s[order[b - 1]]));
            } else if a == p {
                assert(older(p));
                if b - 1 > p {
                    assert(!text_less(s[order[p]], s[order[b - 1]]));
                    lemma_less_asymmetric(stamps[order[p]], stamps[x]);
                    lemma_not_less_transitive(stamps[x], stamps[order[p]], stamps[order[b - 1]]);
                } else {
                    lemma_less_asymmetric(stamps[order[p]], stamps[x]);
                }
            } else {
                assert(!text_less(s[order[a - 1]], s[order[b - 1]]));
            }
        }
        assert forall|k: int| 0 <= k < all.len() implies 0 <= #[trigger] all[k] < stamps.len() by {
            if k < p {
                assert(0 <= order[k] < s.len());
            } else if k > p {
                assert(0 <= order[k - 1] < s.len());
            }
        }
        assert forall|a: int, b: int| 0 <= a < b < all.len() implies all[a] != all[b] by {
            if a < p {
                assert(0 <= order[a] < s.len());
            } else if a > p {
                assert(0 <= order[a - 1] < s.len());
            }
            if b < p {
                assert(0 <= order[b] < s.len());
            } else if b > p {
                assert(0 <= order[b - 1] < s.len());
            }
        }
    }
}

/// Every position is in the list.
pub proof fn lemma_order_reaches(stamps: Seq<Seq<char>>, i: int)
    requires
        0 <= i < stamps.len(),
    ensures
        exists|k: int| 0 <= k < newest_order(stamps).len() && newest_order(stamps)[k] == i,
    decreases stamps.len(),
{
    let x = stamps.len() - 1;
    let order = newest_order(stamps.drop_last());
    let p = place(order, stamps, x);
    lemma_place(order, stamps, x);
    let all = newest_order(stamps);
    if i == x {
        assert(all[p] == x);
    } else {
        lemma_order_reaches(stamps.drop_last(), i);
        let k = choose|k: int| 0 <= k < order.len() && order[k] == i;
        if k < p {
            assert(all[k] == i);
        } else {
            assert(all[k + 1] == i);
        }
    }
}

proof fn lemma_place(order: Seq<int>, stamps: Seq<Seq<char>>, x: int)
    ensures
        0 <= place(order, stamps, x) <= order.len(),
        forall|k: int|
            0 <= k < place(order, stamps, x) ==> !text_less(stamps[#[trigger] order[k]], stamps[x]),
        place(order, stamps, x) < order.len() ==> text_less(
            stamps[order[place(order, stamps, x)]],
            stamps[x],
        ),
{
    let older = |k: int| text_less(stamps[order[k]], stamps[x]);
    let n = order.len() as int;
    if exists|k: int| is_first(n, older, k) {
        let k = choose|k: int| is_first(n, older, k);
        assert(older(k));
        assert forall|j: int| 0 <= j < k implies !text_less(stamps[#[trigger] order[j]], stamps[x]) by {
            assert(!older(j));
        }
    } else {
        assert forall|j: int| 0 <= j < n implies !text_less(stamps[#[trigger] order[j]], stamps[x]) by {
            if text_less(stamps[order[j]], stamps[x]) {
                assert(older(j));
                lemma_has_first(n, older, j);
            }
        }
    }
}

/// Whether `a` stands before `b` in a dictionary.
pub fn is_less(a: &str, b: &str) -> (r: bool)
    ensures
        r == text_less(a@, b@),
{
    let x = chars_of(a);
    let y = chars_of(b);
    let mut i: usize = 0;
    assert(a@.skip(0) =~= a@);
    assert(b@.skip(0) =~= b@);
    while i < x.len() && i < y.len() && x[i] == y[i]
        invariant
            x@ == a@,
            y@ == b@,
            i <= x@.len(),
            i <= y@.len(),
            text_less(a@, b@) == text_less(a@.skip(i as int), b@.skip(i as int)),
        decreases x@.len() - i,
    {
        assert(a@.skip(i as int).skip(1) =~= a@.skip(i + 1));
        assert(b@.skip(i as int).skip(1) =~= b@.skip(i + 1));
        i += 1;
    }
    if i >= y.len() {
        false
    } else if i >= x.len() {
        true
    } else {
        let c: char = x[i];
        let d: char = y[i];
        c < d
    }
}

/// The positions as numbers.
pub open spec fn positions(order: Seq<usize>) -> Seq<int> {
    Seq::new(order.len(), |k: int| order[k] as int)
}

/// The positions of the stamps, the newest first; of equal ones the earlier first.
pub fn order_newest(stamps: &Vec<String>) -> (r: Vec<usize>)
    ensures
        positions(r@) == newest_order(deep(stamps@)),
        forall|k: int| 0 <= k < r@.len() ==> (#[trigger] r@[k]) < stamps@.len(),
        r@.len() == stamps@.len(),
{
    let ghost all = deep(stamps@);
    let mut order: Vec<usize> = Vec::new();
    let mut x: usize = 0;
    assert(positions(order@) =~= newest_order(all.take(0)));
    while x < stamps.len()
        invariant
            x <= stamps@.len(),
            all == deep(stamps@),
            order@.len() == x,
            forall|k: int| 0 <= k < order@.len() ==> (#[trigger] order@[k]) < x,
            positions(order@) == newest_order(all.take(x as int)),
        decreases stamps@.len() - x,
    {
        let ghost o = positions(order@);
        let ghost s = all.take(x + 1);
        let ghost older = |k: int| text_less(s[o[k]], s[x as int]);
        proof {
            lemma_take_next(all, x as int);
            assert(s.drop_last() =~= all.take(x as int));
        }
        let mut p: usize = 0;
        while p < order.len() && !is_less(stamps[order[p]].as_str(), stamps[x].as_str())
            invariant
                p <= order@.len(),
                x < stamps@.len(),
                all == deep(stamps@),
                s == all.take(x + 1),
                o == positions(order@),
                older == (|k: int| text_less(s[o[k]], s[x as int])),
                forall|k: int| 0 <= k < order@.len() ==> (#[trigger] order@[k]) < x,
                forall|k: int| 0 <= k < p ==> !#[trigger] older(k),
            decreases order@.len() - p,
        {
            proof {
                assert(order@[p as int] < x);
                assert(s[o[p as int]] == stamps@[order@[p as int] as int]@);
                assert(s[x as int] == stamps@[x as int]@);
                assert(!older(p as int));
            }
            p += 1;
        }
        proof {
            if p < order@.len() {
                assert(order@[p as int] < x);
                assert(s[o[p as int]] == stamps@[order@[p as int] as int]@);
                assert(s[x as int] == stamps@[x as int]@);
                assert(older(p as int));
                lemma_first(o.len() as int, older, p as int);
            } else {
                lemma_no_first(o.len() as int, older);
            }
            assert(place(o, s, x as int) == p);
        }
        order.insert(p, x);
        x += 1;
        proof {
            assert(positions(order@) =~= o.insert(p as int, x - 1));
            assert(s.len() == x);
            assert(newest_order(s) == o.insert(place(o, s, x - 1), x - 1));
        }
    }
    assert(all.take(x as int) =~= all);
    order
}

} // verus!
