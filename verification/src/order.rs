//! The order of texts, and sorted lists of them.
use crate::text::{chars_of, texts};
use vstd::prelude::*;

verus! {

/// `a` stands before `b`: at the first place where they differ `a` has the smaller character, or
/// has ended.
pub open spec fn before(a: Seq<char>, b: Seq<char>) -> bool
    decreases a.len(),
{
    if b.len() == 0 {
        false
    } else if a.len() == 0 {
        true
    } else if a[0] == b[0] {
        before(a.skip(1), b.skip(1))
    } else {
        a[0] < b[0]
    }
}

/// Each text stands before the next ones, so none occurs twice.
pub open spec fn strictly_sorted(s: Seq<Seq<char>>) -> bool {
    forall|i: int, j: int| 0 <= i < j < s.len() ==> before(#[trigger] s[i], #[trigger] s[j])
}

pub proof fn lemma_before_irreflexive(a: Seq<char>)
    ensures
        !before(a, a),
    decreases a.len(),
{
    if a.len() > 0 {
        lemma_before_irreflexive(a.skip(1));
    }
}

pub proof fn lemma_before_transitive(a: Seq<char>, b: Seq<char>, c: Seq<char>)
    requires
        before(a, b),
        before(b, c),
    ensures
        before(a, c),
    decreases a.len(),
{
    if a.len() > 0 && b.len() > 0 && c.len() > 0 && a[0] == b[0] && b[0] == c[0] {
        lemma_before_transitive(a.skip(1), b.skip(1), c.skip(1));
    }
}

pub proof fn lemma_before_total(a: Seq<char>, b: Seq<char>)
    ensures
        before(a, b) || before(b, a) || a == b,
    decreases a.len(),
{
    if a.len() == 0 || b.len() == 0 {
        if a.len() == 0 && b.len() == 0 {
            assert(a =~= b);
        }
    } else if a[0] == b[0] {
        lemma_before_total(a.skip(1), b.skip(1));
        if a.skip(1) == b.skip(1) {
            assert(a =~= seq![a[0]] + a.skip(1));
            assert(b =~= seq![b[0]] + b.skip(1));
        }
    }
}

/// A strictly sorted list is determined by the texts that it holds.
pub proof fn law_sorted_lists_with_the_same_texts_are_equal(a: Seq<Seq<char>>, b: Seq<Seq<char>>)
    requires
        strictly_sorted(a),
        strictly_sorted(b),
        forall|x: Seq<char>| a.contains(x) <==> b.contains(x),
    ensures
        a == b,
    decreases a.len(),
{
    if a.len() == 0 {
        if b.len() > 0 {
            assert(b.contains(b[0]));
        }
        assert(a =~= b);
    } else if b.len() == 0 {
        assert(a.contains(a[0]));
    } else {
        let x = a.last();
        let y = b.last();
        assert(a.contains(x) && b.contains(y));
        assert(b.contains(x) && a.contains(y));
        let i = choose|i: int| 0 <= i < b.len() && b[i] == x;
        let j = choose|j: int| 0 <= j < a.len() && a[j] == y;
        if x != y {
            assert(before(b[i], b[b.len() - 1]));
            assert(before(a[j], a[a.len() - 1]));
            lemma_before_transitive(x, y, x);
            lemma_before_irreflexive(x);
        }
        let a1 = a.drop_last();
        let b1 = b.drop_last();
        assert forall|z: Seq<char>| a1.contains(z) <==> b1.contains(z) by {
            lemma_before_irreflexive(z);
            if a1.contains(z) {
                let k = choose|k: int| 0 <= k < a1.len() && a1[k] == z;
                assert(a[k] == z);
                assert(before(a[k], a[a.len() - 1]));
                assert(b.contains(z));
                let m = choose|m: int| 0 <= m < b.len() && b[m] == z;
                assert(m != b.len() - 1);
                assert(b1[m] == z);
            }
            if b1.contains(z) {
                let k = choose|k: int| 0 <= k < b1.len() && b1[k] == z;
                assert(b[k] == z);
                assert(before(b[k], b[b.len() - 1]));
                assert(a.contains(z));
                let m = choose|m: int| 0 <= m < a.len() && a[m] == z;
                assert(m != a.len() - 1);
                assert(a1[m] == z);
            }
        }
        law_sorted_lists_with_the_same_texts_are_equal(a1, b1);
        assert(a =~= a1.push(x));
        assert(b =~= b1.push(y));
    }
}

/// Whether `a` stands before `b`.
pub fn less(a: &str, b: &str) -> (r: bool)
    ensures
        r == before(a@, b@),
{
    let x = chars_of(a);
    let y = chars_of(b);
    let mut i: usize = 0;
    assert(a@.skip(0) =~= a@ && b@.skip(0) =~= b@);
    while i < x.len() && i < y.len()
        invariant
            i <= x.len(),
            i <= y.len(),
            x@ == a@,
            y@ == b@,
            before(a@, b@) == before(a@.skip(i as int), b@.skip(i as int)),
        decreases x.len() - i,
    {
        if x[i] < y[i] {
            return true;
        }
        if y[i] < x[i] {
            return false;
        }
        assert(a@.skip(i as int).skip(1) =~= a@.skip(i + 1));
        assert(b@.skip(i as int).skip(1) =~= b@.skip(i + 1));
        i += 1;
    }
    i < y.len()
}

/// Puts a text into a strictly sorted list, where it is not there already.
pub fn insert_sorted(list: &mut Vec<String>, text: String)
    requires
        strictly_sorted(texts(old(list)@)),
    ensures
        strictly_sorted(texts(final(list)@)),
        forall|x: Seq<char>|
            #[trigger] texts(final(list)@).contains(x) <==> texts(old(list)@).contains(x) || x
                == text@,
{
    let ghost all = texts(list@);
    let ghost new = text@;
    let mut i: usize = 0;
    while i < list.len() && less(list[i].as_str(), text.as_str())
        invariant
            i <= list.len(),
            texts(list@) == all,
            new == text@,
            forall|k: int| 0 <= k < i ==> before(#[trigger] all[k], new),
        decreases list.len() - i,
    {
        i += 1;
    }
    proof {
        assert(all.len() == list@.len());
        lemma_before_irreflexive(new);
    }
    if i < list.len() {
        proof {
            lemma_before_total(all[i as int], new);
        }
        if crate::text::same(list[i].as_str(), text.as_str()) {
            assert(all[i as int] == new);
            assert(all.contains(new));
            return ;
        }
    }
    let ghost held = list@;
    list.insert(i, text);
    proof {
        let after = texts(list@);
        assert(after =~= all.insert(i as int, new));
        assert forall|k: int| i <= k < all.len() implies before(new, #[trigger] all[k]) by {
            if k > i {
                lemma_before_transitive(new, all[i as int], all[k]);
            }
        }
        assert forall|x: Seq<char>| #[trigger] after.contains(x) <==> all.contains(x) || x
            == new by {
            if after.contains(x) {
                let k = choose|k: int| 0 <= k < after.len() && after[k] == x;
                if k < i {
                    assert(all[k] == x);
                } else if k > i {
                    assert(all[k - 1] == x);
                }
            }
            if all.contains(x) {
                let k = choose|k: int| 0 <= k < all.len() && all[k] == x;
                if k < i {
                    assert(after[k] == x);
                } else {
                    assert(after[k + 1] == x);
                }
            }
            if x == new {
                assert(after[i as int] == x);
            }
        }
    }
}

// ---------------------------------------------------------------------------------------------
// Sorting
// ---------------------------------------------------------------------------------------------

/// Things that are listed in an order.
pub trait Ranked: Sized {
    /// The first stands before the second.
    spec fn ranks_before(self, other: Self) -> bool;

    /// Whether the first stands before the second.
    fn is_before(&self, other: &Self) -> (r: bool)
        ensures
            r == self.ranks_before(*other),
    ;
}

/// The list with one more item, behind every item that does not stand after it.
pub open spec fn inserted<T: Ranked>(s: Seq<T>, x: T) -> Seq<T>
    decreases s.len(),
{
    if s.len() > 0 && x.ranks_before(s.last()) {
        inserted(s.drop_last(), x).push(s.last())
    } else {
        s.push(x)
    }
}

/// The items in order. Items of the same rank stay in the order in which they came.
pub open spec fn sorted<T: Ranked>(s: Seq<T>) -> Seq<T>
    decreases s.len(),
{
    if s.len() == 0 {
        s
    } else {
        inserted(sorted(s.drop_last()), s.last())
    }
}

/// No item stands before one that is listed ahead of it.
pub open spec fn in_order<T: Ranked>(s: Seq<T>) -> bool {
    forall|i: int, j: int|
        0 <= i < j < s.len() ==> !(#[trigger] s[j]).ranks_before(#[trigger] s[i])
}

/// The rank is an order: no two items stand before each other, and not to stand before goes on from
/// one item to the next.
pub open spec fn is_rank<T: Ranked>() -> bool {
    &&& forall|a: T, b: T| #[trigger] a.ranks_before(b) ==> !b.ranks_before(a)
    &&& forall|a: T, b: T, c: T|
        !(#[trigger] a.ranks_before(b)) && !(#[trigger] b.ranks_before(c)) ==> !a.ranks_before(c)
}

fn insert_ranked<T: Ranked>(list: &mut Vec<T>, x: T)
    ensures
        final(list)@ == inserted(old(list)@, x),
{
    let ghost all = list@;
    let mut i: usize = list.len();
    assert(all.take(all.len() as int) =~= all);
    assert(all.skip(all.len() as int) =~= Seq::<T>::empty());
    assert(inserted(all, x) + Seq::<T>::empty() =~= inserted(all, x));
    while i > 0 && x.is_before(&list[i - 1])
        invariant
            i <= list.len(),
            list@ == all,
            inserted(all, x) == inserted(all.take(i as int), x) + all.skip(i as int),
        decreases i,
    {
        let ghost front = all.take(i as int);
        assert(front.last() == all[i - 1]);
        assert(front.drop_last() =~= all.take(i - 1));
        assert(inserted(all.take(i - 1), x).push(all[i - 1]) + all.skip(i as int) =~= inserted(
            all.take(i - 1),
            x,
        ) + all.skip(i - 1));
        i -= 1;
    }
    proof {
        let front = all.take(i as int);
        assert(i > 0 ==> front.last() == all[i - 1]);
        assert(inserted(front, x) == front.push(x));
        assert(all.insert(i as int, x) =~= front.push(x) + all.skip(i as int));
    }
    list.insert(i, x);
}

/// The items in order.
pub fn sort_ranked<T: Ranked>(items: Vec<T>) -> (r: Vec<T>)
    ensures
        r@ == sorted(items@),
{
    let ghost all = items@;
    let mut rest = items;
    let mut back: Vec<T> = Vec::new();
    while rest.len() > 0
        invariant
            rest@.len() + back@.len() == all.len(),
            all == rest@ + back@.reverse(),
        decreases rest.len(),
    {
        let ghost before = rest@;
        let ghost behind = back@;
        match rest.pop() {
            Some(x) => {
                back.push(x);
                assert(before =~= rest@.push(x));
                assert(back@.reverse() =~= seq![x] + behind.reverse());
                assert(rest@ + back@.reverse() =~= before + behind.reverse());
            },
            None => {},
        }
    }
    assert(all =~= back@.reverse());
    let mut list: Vec<T> = Vec::new();
    let ghost n = back@.len();
    assert(all.take(0) =~= Seq::<T>::empty());
    assert(list@ =~= sorted(all.take(0)));
    while back.len() > 0
        invariant
            back@.len() <= n == all.len(),
            back@.reverse() == all.skip(n - back@.len()),
            list@ == sorted(all.take(n - back@.len())),
        decreases back.len(),
    {
        let ghost left = back@;
        let ghost done = n - back@.len();
        match back.pop() {
            Some(x) => {
                assert(left =~= back@.push(x));
                assert(left.reverse()[0] == x);
                assert(all.skip(done)[0] == all[done]);
                assert(back@.reverse() =~= left.reverse().skip(1));
                assert(all.skip(done).skip(1) =~= all.skip(done + 1));
                assert(all.take(done + 1).drop_last() =~= all.take(done));
                insert_ranked(&mut list, x);
            },
            None => {},
        }
    }
    assert(all.take(n as int) =~= all);
    list
}

proof fn lemma_inserted_multiset<T: Ranked>(s: Seq<T>, x: T)
    ensures
        inserted(s, x).to_multiset() == s.push(x).to_multiset(),
    decreases s.len(),
{
    broadcast use vstd::seq_lib::group_to_multiset_ensures;

    if s.len() > 0 && x.ranks_before(s.last()) {
        lemma_inserted_multiset(s.drop_last(), x);
        assert(s.drop_last().push(s.last()) =~= s);
        assert(inserted(s, x).to_multiset() =~= s.push(x).to_multiset());
    }
}

/// Sorting neither adds nor drops an item.
pub proof fn law_sorting_keeps_the_items<T: Ranked>(s: Seq<T>)
    ensures
        sorted(s).to_multiset() == s.to_multiset(),
        sorted(s).len() == s.len(),
    decreases s.len(),
{
    broadcast use vstd::seq_lib::group_to_multiset_ensures;

    if s.len() > 0 {
        law_sorting_keeps_the_items(s.drop_last());
        lemma_inserted_multiset(sorted(s.drop_last()), s.last());
        assert(s.drop_last().push(s.last()) =~= s);
        assert(sorted(s).to_multiset() =~= s.to_multiset());
        assert(sorted(s).to_multiset().len() == sorted(s).len());
    }
}

proof fn lemma_inserted_in_order<T: Ranked>(s: Seq<T>, x: T)
    requires
        is_rank::<T>(),
        in_order(s),
    ensures
        in_order(inserted(s, x)),
        inserted(s, x).len() == s.len() + 1,
        forall|i: int|
            0 <= i < inserted(s, x).len() ==> #[trigger] inserted(s, x)[i] == x || s.contains(
                inserted(s, x)[i],
            ),
    decreases s.len(),
{
    if s.len() > 0 && x.ranks_before(s.last()) {
        let front = s.drop_last();
        let last = s.last();
        assert(in_order(front)) by {
            assert forall|i: int, j: int| 0 <= i < j < front.len() implies !(
            #[trigger] front[j]).ranks_before(#[trigger] front[i]) by {
                assert(!s[j].ranks_before(s[i]));
            }
        }
        lemma_inserted_in_order(front, x);
        let new = inserted(front, x);
        let all = inserted(s, x);
        assert forall|i: int| 0 <= i < all.len() implies #[trigger] all[i] == x || s.contains(
            all[i],
        ) by {
            if i < new.len() {
                assert(all[i] == new[i]);
                if new[i] != x {
                    let k = choose|k: int| 0 <= k < front.len() && front[k] == new[i];
                    assert(s[k] == new[i]);
                }
            } else {
                assert(all[i] == s[s.len() - 1]);
            }
        }
        assert forall|i: int, j: int| 0 <= i < j < all.len() implies !(
        #[trigger] all[j]).ranks_before(#[trigger] all[i]) by {
            if j < new.len() {
                assert(!new[j].ranks_before(new[i]));
            } else {
                assert(all[i] == new[i]);
                if new[i] != x {
                    let k = choose|k: int| 0 <= k < front.len() && front[k] == new[i];
                    assert(!s[s.len() - 1].ranks_before(s[k]));
                } else {
                    assert(!last.ranks_before(x));
                }
            }
        }
    } else {
        let all = s.push(x);
        assert forall|i: int| 0 <= i < all.len() implies #[trigger] all[i] == x || s.contains(
            all[i],
        ) by {
            if i < s.len() {
                assert(all[i] == s[i]);
            }
        }
        assert forall|i: int, j: int| 0 <= i < j < all.len() implies !(
        #[trigger] all[j]).ranks_before(#[trigger] all[i]) by {
            if j < s.len() {
                assert(!s[j].ranks_before(s[i]));
            } else if i < s.len() - 1 {
                assert(!s[s.len() - 1].ranks_before(s[i]));
                assert(!x.ranks_before(s.last()));
            }
        }
    }
}

/// Sorted items are in order, where the rank is one.
pub proof fn law_sorted_items_are_in_order<T: Ranked>(s: Seq<T>)
    requires
        is_rank::<T>(),
    ensures
        in_order(sorted(s)),
    decreases s.len(),
{
    if s.len() > 0 {
        law_sorted_items_are_in_order(s.drop_last());
        lemma_inserted_in_order(sorted(s.drop_last()), s.last());
    }
}

impl Ranked for String {
    open spec fn ranks_before(self, other: Self) -> bool {
        before(self@, other@)
    }

    fn is_before(&self, other: &Self) -> (r: bool) {
        less(self.as_str(), other.as_str())
    }
}

/// Texts are ranked by an order.
pub proof fn law_texts_are_ranked()
    ensures
        is_rank::<String>(),
{
    assert forall|a: String, b: String| #[trigger] a.ranks_before(b) implies !b.ranks_before(a) by {
        if before(b@, a@) {
            lemma_before_transitive(a@, b@, a@);
            lemma_before_irreflexive(a@);
        }
    }
    assert forall|a: String, b: String, c: String|
        !(#[trigger] a.ranks_before(b)) && !(#[trigger] b.ranks_before(c)) implies !a.ranks_before(
        c,
    ) by {
        lemma_not_before_transitive(a@, b@, c@);
    }
}

/// Not to stand before goes on from one text to the next.
pub proof fn lemma_not_before_transitive(a: Seq<char>, b: Seq<char>, c: Seq<char>)
    requires
        !before(a, b),
        !before(b, c),
    ensures
        !before(a, c),
{
    lemma_before_total(a, b);
    lemma_before_total(b, c);
    lemma_before_irreflexive(a);
    if before(a, c) {
        if before(b, a) {
            lemma_before_transitive(b, a, c);
        }
    }
}

/// A list that is in order stays as it is when it is sorted: items of the same rank keep the order in
/// which they came.
pub proof fn law_ordered_list_stays_as_it_is<T: Ranked>(s: Seq<T>)
    requires
        in_order(s),
    ensures
        sorted(s) == s,
    decreases s.len(),
{
    if s.len() > 0 {
        let front = s.drop_last();
        assert(in_order(front)) by {
            assert forall|i: int, j: int| 0 <= i < j < front.len() implies !(
            #[trigger] front[j]).ranks_before(#[trigger] front[i]) by {
                assert(!s[j].ranks_before(s[i]));
            }
        }
        law_ordered_list_stays_as_it_is(front);
        if front.len() > 0 {
            assert(!s[s.len() - 1].ranks_before(s[s.len() - 2]));
        }
        assert(front.push(s.last()) =~= s);
    }
}

/// Texts are compared character by character: the first that differs decides, and where none does the
/// shorter text stands first.
pub proof fn law_first_difference_decides(
    start: Seq<char>,
    x: char,
    y: char,
    a: Seq<char>,
    b: Seq<char>,
)
    ensures
        x < y ==> before(start + seq![x] + a, start + seq![y] + b) && !before(
            start + seq![y] + b,
            start + seq![x] + a,
        ),
        before(start, start + seq![x] + a),
        !before(start + seq![x] + a, start),
    decreases start.len(),
{
    let p = start + seq![x] + a;
    let q = start + seq![y] + b;
    if start.len() == 0 {
        assert(p[0] == x && q[0] == y);
    } else {
        let rest = start.skip(1);
        law_first_difference_decides(rest, x, y, a, b);
        assert(p[0] == start[0] && q[0] == start[0]);
        assert(p.skip(1) =~= rest + seq![x] + a);
        assert(q.skip(1) =~= rest + seq![y] + b);
    }
}

} // verus!
