//! Text: what the string operations of this crate mean, and the operations themselves.
//!
//! A text is modelled as the sequence of its characters. Each executable function below is stated
//! against a spec function on such sequences; the rest of the crate speaks of the spec functions.
use vstd::prelude::*;

verus! {

/// `String::push`: the character is added at the end.
pub assume_specification[ String::push ](s: &mut String, c: char)
    ensures
        final(s)@ == old(s)@.push(c),
;

/// The texts of a sequence of strings.
pub open spec fn texts(v: Seq<String>) -> Seq<Seq<char>> {
    Seq::new(v.len(), |i: int| v[i]@)
}

/// The text of an optional string.
pub open spec fn opt_text(o: Option<String>) -> Option<Seq<char>> {
    match o {
        Some(s) => Some(s@),
        None => None,
    }
}

// ---------------------------------------------------------------------------------------------
// Characters
// ---------------------------------------------------------------------------------------------

pub open spec fn is_digit(c: char) -> bool {
    '0' <= c && c <= '9'
}

pub open spec fn is_alpha(c: char) -> bool {
    ('a' <= c && c <= 'z') || ('A' <= c && c <= 'Z')
}

pub open spec fn is_alnum(c: char) -> bool {
    is_alpha(c) || is_digit(c)
}

/// The characters with the Unicode property `White_Space`.
pub open spec fn is_white(c: char) -> bool {
    ||| '\u{9}' <= c && c <= '\u{d}'
    ||| c == ' '
    ||| c == '\u{85}'
    ||| c == '\u{a0}'
    ||| c == '\u{1680}'
    ||| '\u{2000}' <= c && c <= '\u{200a}'
    ||| c == '\u{2028}'
    ||| c == '\u{2029}'
    ||| c == '\u{202f}'
    ||| c == '\u{205f}'
    ||| c == '\u{3000}'
}

pub fn digit(c: char) -> (r: bool)
    ensures
        r == is_digit(c),
{
    '0' <= c && c <= '9'
}

pub fn alpha(c: char) -> (r: bool)
    ensures
        r == is_alpha(c),
{
    ('a' <= c && c <= 'z') || ('A' <= c && c <= 'Z')
}

pub fn alnum(c: char) -> (r: bool)
    ensures
        r == is_alnum(c),
{
    alpha(c) || digit(c)
}

pub fn white(c: char) -> (r: bool)
    ensures
        r == is_white(c),
{
    ('\u{9}' <= c && c <= '\u{d}') || c == ' ' || c == '\u{85}' || c == '\u{a0}' || c == '\u{1680}'
        || ('\u{2000}' <= c && c <= '\u{200a}') || c == '\u{2028}' || c == '\u{2029}' || c
        == '\u{202f}' || c == '\u{205f}' || c == '\u{3000}'
}

// ---------------------------------------------------------------------------------------------
// Characters of a string, and back
// ---------------------------------------------------------------------------------------------

/// The characters of a string.
pub fn chars_of(s: &str) -> (v: Vec<char>)
    ensures
        v@ == s@,
{
    let mut v: Vec<char> = Vec::new();
    for c in it: s.chars()
        invariant
            it.seq() == s@,
            v@ == s@.take(it.index()),
    {
        v.push(c);
    }
    v
}

/// The string made of the characters `v[from..to]`.
pub fn text_of(v: &Vec<char>, from: usize, to: usize) -> (s: String)
    requires
        from <= to <= v.len(),
    ensures
        s@ == v@.subrange(from as int, to as int),
{
    let mut s = String::new();
    let mut i: usize = from;
    while i < to
        invariant
            from <= i <= to <= v.len(),
            s@ == v@.subrange(from as int, i as int),
        decreases to - i,
    {
        s.push(v[i]);
        i += 1;
    }
    s
}

pub fn clone_opt(o: &Option<String>) -> (r: Option<String>)
    ensures
        r == *o,
{
    match o {
        Some(s) => Some(s.clone()),
        None => None,
    }
}

/// Whether the two strings hold the same text.
pub fn same(a: &str, b: &str) -> (r: bool)
    ensures
        r == (a@ == b@),
{
    let x = chars_of(a);
    let y = chars_of(b);
    if x.len() != y.len() {
        return false;
    }
    let mut i: usize = 0;
    while i < x.len()
        invariant
            i <= x.len() == y.len(),
            x@ == a@,
            y@ == b@,
            forall|k: int| 0 <= k < i ==> x@[k] == y@[k],
        decreases x.len() - i,
    {
        if x[i] != y[i] {
            assert(a@[i as int] != b@[i as int]);
            return false;
        }
        i += 1;
    }
    assert(a@ =~= b@);
    true
}

/// Whether one of the strings holds the text.
pub fn one_of(texts_in: &Vec<String>, s: &str) -> (r: bool)
    ensures
        r == texts(texts_in@).contains(s@),
{
    let mut i: usize = 0;
    while i < texts_in.len()
        invariant
            i <= texts_in.len(),
            forall|k: int| 0 <= k < i ==> texts(texts_in@)[k] != s@,
        decreases texts_in.len() - i,
    {
        if same(texts_in[i].as_str(), s) {
            assert(texts(texts_in@)[i as int] == s@);
            return true;
        }
        i += 1;
    }
    false
}

// ---------------------------------------------------------------------------------------------
// Trimming
// ---------------------------------------------------------------------------------------------

pub open spec fn trimmed_start(s: Seq<char>) -> Seq<char>
    decreases s.len(),
{
    if s.len() > 0 && is_white(s[0]) {
        trimmed_start(s.skip(1))
    } else {
        s
    }
}

pub open spec fn trimmed_end(s: Seq<char>) -> Seq<char>
    decreases s.len(),
{
    if s.len() > 0 && is_white(s.last()) {
        trimmed_end(s.drop_last())
    } else {
        s
    }
}

/// The text without white space at either end.
pub open spec fn trimmed(s: Seq<char>) -> Seq<char> {
    trimmed_end(trimmed_start(s))
}

/// The text holds white space only, or nothing.
pub open spec fn is_blank(s: Seq<char>) -> bool {
    trimmed(s).len() == 0
}

/// The string without white space at either end.
pub fn trim(s: &str) -> (r: String)
    ensures
        r@ == trimmed(s@),
{
    let v = chars_of(s);
    let n: usize = v.len();
    let mut from: usize = 0;
    assert(s@.skip(0) =~= s@);
    while from < n && white(v[from])
        invariant
            from <= n == v.len(),
            v@ == s@,
            trimmed_start(s@.skip(from as int)) == trimmed_start(s@),
        decreases n - from,
    {
        assert(s@.skip(from as int).skip(1) =~= s@.skip(from + 1));
        from += 1;
    }
    let ghost t = s@.skip(from as int);
    assert(t == trimmed_start(s@));
    let mut to: usize = n;
    assert(t.take(to - from) =~= t);
    while from < to && white(v[to - 1])
        invariant
            from <= to <= n == v.len(),
            v@ == s@,
            t == s@.skip(from as int),
            trimmed_end(t.take(to - from)) == trimmed_end(t),
        decreases to,
    {
        assert(t.take(to - from).drop_last() =~= t.take(to - 1 - from));
        to -= 1;
    }
    assert(t.take(to - from) =~= s@.subrange(from as int, to as int));
    text_of(&v, from, to)
}

/// Whether the string holds white space only, or nothing.
pub fn blank(s: &str) -> (r: bool)
    ensures
        r == is_blank(s@),
{
    let t = trim(s);
    t.as_str().is_empty()
}

// ---------------------------------------------------------------------------------------------
// Searching and cutting
// ---------------------------------------------------------------------------------------------

pub open spec fn has_prefix(s: Seq<char>, p: Seq<char>) -> bool {
    p.len() <= s.len() && s.take(p.len() as int) == p
}

pub open spec fn has_suffix(s: Seq<char>, p: Seq<char>) -> bool {
    p.len() <= s.len() && s.skip(s.len() - p.len()) == p
}

/// The text without the prefix, where it has it.
pub open spec fn without_prefix(s: Seq<char>, p: Seq<char>) -> Option<Seq<char>> {
    if has_prefix(s, p) {
        Some(s.skip(p.len() as int))
    } else {
        None
    }
}

/// `p` stands in `s` at place `i`.
pub open spec fn stands_at(s: Seq<char>, p: Seq<char>, i: int) -> bool {
    0 <= i && i + p.len() <= s.len() && s.subrange(i, i + p.len()) == p
}

/// `p` stands somewhere in `s`.
pub open spec fn occurs(s: Seq<char>, p: Seq<char>) -> bool {
    exists|i: int| stands_at(s, p, i)
}

/// The first place from `from` on at which `p` stands in `s`.
pub open spec fn first_at(s: Seq<char>, p: Seq<char>, from: int) -> Option<int>
    decreases s.len() + 1 - from,
{
    if from < 0 || from + p.len() > s.len() {
        None
    } else if stands_at(s, p, from) {
        Some(from)
    } else {
        first_at(s, p, from + 1)
    }
}

/// The last place up to `to` at which `p` stands in `s`.
pub open spec fn last_at(s: Seq<char>, p: Seq<char>, to: int) -> Option<int>
    decreases to + 1,
{
    if to < 0 {
        None
    } else if stands_at(s, p, to) {
        Some(to)
    } else {
        last_at(s, p, to - 1)
    }
}

/// The text before and after the first `p`.
pub open spec fn cut_first(s: Seq<char>, p: Seq<char>) -> Option<(Seq<char>, Seq<char>)> {
    match first_at(s, p, 0) {
        Some(i) => Some((s.take(i), s.skip(i + p.len()))),
        None => None,
    }
}

/// The text before and after the last `p`.
pub open spec fn cut_last(s: Seq<char>, p: Seq<char>) -> Option<(Seq<char>, Seq<char>)> {
    match last_at(s, p, s.len() - p.len()) {
        Some(i) => Some((s.take(i), s.skip(i + p.len()))),
        None => None,
    }
}

/// What follows the last `p`, or the whole text where there is none.
pub open spec fn after_last(s: Seq<char>, p: Seq<char>) -> Seq<char> {
    match cut_last(s, p) {
        Some((_, tail)) => tail,
        None => s,
    }
}

pub open spec fn pair_text(o: Option<(String, String)>) -> Option<(Seq<char>, Seq<char>)> {
    match o {
        Some((a, b)) => Some((a@, b@)),
        None => None,
    }
}

/// A place that `first_at` gives is one at which `p` stands, and none before it is.
pub proof fn lemma_first_at(s: Seq<char>, p: Seq<char>, from: int)
    requires
        0 <= from,
    ensures
        match first_at(s, p, from) {
            Some(i) => from <= i && stands_at(s, p, i) && forall|k: int|
                from <= k < i ==> !stands_at(s, p, k),
            None => forall|k: int| from <= k ==> !stands_at(s, p, k),
        },
    decreases s.len() + 1 - from,
{
    if from + p.len() > s.len() {
    } else if stands_at(s, p, from) {
    } else {
        lemma_first_at(s, p, from + 1);
    }
}

/// A place that `last_at` gives is one at which `p` stands, and none between it and `to` is.
pub proof fn lemma_last_at(s: Seq<char>, p: Seq<char>, to: int)
    ensures
        match last_at(s, p, to) {
            Some(i) => i <= to && stands_at(s, p, i) && forall|k: int|
                i < k <= to ==> !stands_at(s, p, k),
            None => forall|k: int| k <= to ==> !stands_at(s, p, k),
        },
    decreases to + 1,
{
    if to < 0 {
    } else if stands_at(s, p, to) {
    } else {
        lemma_last_at(s, p, to - 1);
    }
}

/// Whether `p` stands in `v` at place `i`.
fn match_at(v: &Vec<char>, p: &Vec<char>, i: usize) -> (r: bool)
    ensures
        r == stands_at(v@, p@, i as int),
{
    if i > v.len() || v.len() - i < p.len() {
        return false;
    }
    let mut k: usize = 0;
    while k < p.len()
        invariant
            k <= p.len(),
            i + p.len() <= v.len(),
            forall|j: int| 0 <= j < k ==> v@[i + j] == p@[j],
        decreases p.len() - k,
    {
        if v[i + k] != p[k] {
            assert(v@.subrange(i as int, i + p.len())[k as int] != p@[k as int]);
            return false;
        }
        k += 1;
    }
    assert(v@.subrange(i as int, i + p.len()) =~= p@);
    true
}

fn find_from(v: &Vec<char>, p: &Vec<char>, from: usize) -> (r: Option<usize>)
    requires
        from <= v.len(),
    ensures
        match r {
            Some(i) => first_at(v@, p@, from as int) == Some(i as int) && i + p.len() <= v.len(),
            None => first_at(v@, p@, from as int) is None,
        },
{
    let mut i: usize = from;
    while i <= v.len() && v.len() - i >= p.len()
        invariant
            from <= i <= v.len() + 1,
            first_at(v@, p@, i as int) == first_at(v@, p@, from as int),
        decreases v.len() + 1 - i,
    {
        if match_at(v, p, i) {
            return Some(i);
        }
        if i == v.len() {
            assert(first_at(v@, p@, i + 1) is None);
            return None;
        }
        i += 1;
    }
    None
}

fn rfind(v: &Vec<char>, p: &Vec<char>) -> (r: Option<usize>)
    ensures
        match r {
            Some(i) => last_at(v@, p@, v.len() - p.len()) == Some(i as int) && i + p.len()
                <= v.len(),
            None => last_at(v@, p@, v.len() - p.len()) is None,
        },
{
    if v.len() < p.len() {
        return None;
    }
    let mut i: usize = v.len() - p.len();
    loop
        invariant
            i + p.len() <= v.len(),
            last_at(v@, p@, i as int) == last_at(v@, p@, v.len() - p.len()),
        decreases i,
    {
        if match_at(v, p, i) {
            return Some(i);
        }
        if i == 0 {
            assert(last_at(v@, p@, -1) is None);
            return None;
        }
        i -= 1;
    }
}

pub fn starts_with(s: &str, p: &str) -> (r: bool)
    ensures
        r == has_prefix(s@, p@),
{
    let v = chars_of(s);
    let q = chars_of(p);
    assert(v@.len() >= q@.len() ==> v@.subrange(0, q@.len() as int) =~= v@.take(q@.len() as int));
    match_at(&v, &q, 0)
}

/// `str::strip_prefix`.
pub fn strip_prefix(s: &str, p: &str) -> (r: Option<String>)
    ensures
        opt_text(r) == without_prefix(s@, p@),
{
    if starts_with(s, p) {
        let v = chars_of(s);
        let q = chars_of(p);
        assert(v@.subrange(q@.len() as int, v@.len() as int) =~= v@.skip(q@.len() as int));
        Some(text_of(&v, q.len(), v.len()))
    } else {
        None
    }
}

pub fn contains(s: &str, p: &str) -> (r: bool)
    ensures
        r == occurs(s@, p@),
{
    let v = chars_of(s);
    let q = chars_of(p);
    proof {
        lemma_first_at(s@, p@, 0);
    }
    match find_from(&v, &q, 0) {
        Some(_) => true,
        None => false,
    }
}

/// `str::split_once`.
pub fn split_once(s: &str, p: &str) -> (r: Option<(String, String)>)
    ensures
        pair_text(r) == cut_first(s@, p@),
{
    let v = chars_of(s);
    let q = chars_of(p);
    proof {
        lemma_first_at(s@, p@, 0);
    }
    match find_from(&v, &q, 0) {
        Some(i) => {
            assert(s@.subrange(0, i as int) =~= s@.take(i as int));
            assert(s@.subrange(i + p@.len(), s@.len() as int) =~= s@.skip(i + p@.len()));
            Some((text_of(&v, 0, i), text_of(&v, i + q.len(), v.len())))
        },
        None => None,
    }
}

/// `str::rsplit_once`.
pub fn rsplit_once(s: &str, p: &str) -> (r: Option<(String, String)>)
    ensures
        pair_text(r) == cut_last(s@, p@),
{
    let v = chars_of(s);
    let q = chars_of(p);
    proof {
        lemma_last_at(s@, p@, s@.len() - p@.len());
    }
    match rfind(&v, &q) {
        Some(i) => {
            assert(s@.subrange(0, i as int) =~= s@.take(i as int));
            assert(s@.subrange(i + p@.len(), s@.len() as int) =~= s@.skip(i + p@.len()));
            Some((text_of(&v, 0, i), text_of(&v, i + q.len(), v.len())))
        },
        None => None,
    }
}

/// What follows the last `p`, or the whole string.
pub fn tail_after(s: &str, p: &str) -> (r: String)
    ensures
        r@ == after_last(s@, p@),
{
    match rsplit_once(s, p) {
        Some((_, tail)) => tail,
        None => s.to_owned(),
    }
}

/// A text that is cut at the last `p` is put together again from its two parts and `p`.
pub proof fn lemma_cut_last(s: Seq<char>, p: Seq<char>)
    ensures
        cut_last(s, p) matches Some((a, b)) ==> s == a + p + b && a.len() + p.len() + b.len()
            == s.len(),
{
    lemma_last_at(s, p, s.len() - p.len());
    if let Some(i) = last_at(s, p, s.len() - p.len()) {
        assert(s =~= s.take(i) + p + s.skip(i + p.len())) by {
            assert(s.subrange(i, i + p.len()) == p);
            assert forall|k: int| 0 <= k < p.len() implies s[i + k] == p[k] by {
                assert(s.subrange(i, i + p.len())[k] == p[k]);
            }
        }
    }
}

/// A text that neither starts nor ends with white space is trimmed already.
pub proof fn lemma_trimmed_already(s: Seq<char>)
    requires
        s.len() > 0 ==> !is_white(s[0]) && !is_white(s.last()),
    ensures
        trimmed(s) == s,
{
}

proof fn lemma_trimmed_start_keeps(s: Seq<char>, i: int)
    requires
        0 <= i < s.len(),
        !is_white(s[i]),
    ensures
        trimmed_start(s).len() > 0,
        !is_white(trimmed_start(s)[0]),
    decreases s.len(),
{
    if is_white(s[0]) {
        assert(s.skip(1)[i - 1] == s[i]);
        lemma_trimmed_start_keeps(s.skip(1), i - 1);
    }
}

proof fn lemma_trimmed_end_keeps(s: Seq<char>)
    requires
        s.len() > 0,
        !is_white(s[0]),
    ensures
        trimmed_end(s).len() > 0,
    decreases s.len(),
{
    if is_white(s.last()) {
        assert(s.drop_last()[0] == s[0]);
        lemma_trimmed_end_keeps(s.drop_last());
    }
}

/// A text is not blank where it holds something else than white space.
pub proof fn lemma_not_blank(s: Seq<char>, i: int)
    requires
        0 <= i < s.len(),
        !is_white(s[i]),
    ensures
        !is_blank(s),
{
    lemma_trimmed_start_keeps(s, i);
    lemma_trimmed_end_keeps(trimmed_start(s));
}

/// A place at which `p` stands, and after which it does not, is the last one.
pub proof fn lemma_last_at_is(s: Seq<char>, p: Seq<char>, i: int, to: int)
    requires
        stands_at(s, p, i),
        i <= to,
        forall|k: int| i < k <= to ==> !stands_at(s, p, k),
    ensures
        last_at(s, p, to) == Some(i),
    decreases to - i,
{
    if i < to {
        lemma_last_at_is(s, p, i, to - 1);
    }
}

/// A text is cut at the last `p` where it was put together with it, if `p` does not stand further
/// behind.
pub proof fn lemma_cut_last_of(a: Seq<char>, p: Seq<char>, b: Seq<char>)
    requires
        forall|k: int| a.len() < k ==> !stands_at(a + p + b, p, k),
    ensures
        cut_last(a + p + b, p) == Some((a, b)),
{
    let s = a + p + b;
    assert(s.subrange(a.len() as int, (a.len() + p.len()) as int) =~= p);
    lemma_last_at_is(s, p, a.len() as int, s.len() - p.len());
    assert(s.take(a.len() as int) =~= a);
    assert(s.skip((a.len() + p.len()) as int) =~= b);
}

/// A place at which `p` stands, and before which it does not, is the first one.
pub proof fn lemma_first_at_is(s: Seq<char>, p: Seq<char>, at: int, from: int)
    requires
        0 <= from <= at,
        stands_at(s, p, at),
        forall|i: int| from <= i < at ==> !(#[trigger] stands_at(s, p, i)),
    ensures
        first_at(s, p, from) == Some(at),
    decreases at - from,
{
    if from < at {
        assert(!stands_at(s, p, from));
        lemma_first_at_is(s, p, at, from + 1);
    }
}

/// A text is cut at the first `p` where it was put together with it, if what stands before it does
/// not hold the first character of `p`.
pub proof fn lemma_cut_first_of(a: Seq<char>, p: Seq<char>, b: Seq<char>)
    requires
        p.len() > 0,
        !a.contains(p[0]),
    ensures
        cut_first(a + p + b, p) == Some((a, b)),
{
    let s = a + p + b;
    assert(s.subrange(a.len() as int, (a.len() + p.len()) as int) =~= p);
    assert forall|i: int| 0 <= i < a.len() implies !(#[trigger] stands_at(s, p, i)) by {
        if stands_at(s, p, i) {
            assert(s.subrange(i, i + p.len())[0] == p[0]);
            assert(a[i] == p[0]);
        }
    }
    lemma_first_at_is(s, p, a.len() as int, 0);
    assert(s.take(a.len() as int) =~= a);
    assert(s.skip((a.len() + p.len()) as int) =~= b);
}

// ---------------------------------------------------------------------------------------------
// The order of texts in a text
// ---------------------------------------------------------------------------------------------

/// The texts stand in `s` one behind the other, in the order of the list.
pub open spec fn stand_in_order(s: Seq<char>, parts: Seq<Seq<char>>) -> bool
    decreases parts.len(),
{
    parts.len() == 0 || exists|i: int| #[trigger]
        stands_at(s, parts[0], i) && stand_in_order(
            s.skip(i + parts[0].len()),
            parts.skip(1),
        )
}

/// A text stands where it was put.
pub proof fn lemma_stands_where_put(a: Seq<char>, p: Seq<char>, b: Seq<char>)
    ensures
        stands_at(a + p + b, p, a.len() as int),
        occurs(a + p + b, p),
{
    assert((a + p + b).subrange(a.len() as int, (a.len() + p.len()) as int) =~= p);
    assert(stands_at(a + p + b, p, a.len() as int));
}

/// A text stands wherever a text stands that holds it.
pub proof fn lemma_occurs_within(a: Seq<char>, s: Seq<char>, b: Seq<char>, p: Seq<char>)
    requires
        occurs(s, p),
    ensures
        occurs(a + s + b, p),
{
    let i = choose|i: int| stands_at(s, p, i);
    let all = a + s + b;
    let at = a.len() + i;
    assert(all.subrange(at, at + p.len()) =~= s.subrange(i, i + p.len()));
    assert(stands_at(all, p, at));
}

/// A list of texts stands in order where its first one was put before a text in which the others do.
pub proof fn lemma_order_where_put(
    before: Seq<char>,
    p: Seq<char>,
    rest: Seq<char>,
    parts: Seq<Seq<char>>,
)
    requires
        parts.len() > 0,
        parts[0] == p,
        stand_in_order(rest, parts.skip(1)),
    ensures
        stand_in_order(before + p + rest, parts),
{
    let s = before + p + rest;
    lemma_stands_where_put(before, p, rest);
    assert(s.skip((before.len() + p.len()) as int) =~= rest);
}

/// What stands in order in a text still does when something is added behind it.
pub proof fn lemma_order_kept(s: Seq<char>, parts: Seq<Seq<char>>, tail: Seq<char>)
    requires
        stand_in_order(s, parts),
    ensures
        stand_in_order(s + tail, parts),
    decreases parts.len(),
{
    if parts.len() > 0 {
        let p = parts[0];
        let i = choose|i: int| #[trigger]
            stands_at(s, p, i) && stand_in_order(s.skip(i + p.len()), parts.skip(1));
        lemma_order_kept(s.skip(i + p.len()), parts.skip(1), tail);
        assert((s + tail).subrange(i, i + p.len()) =~= s.subrange(i, i + p.len()));
        assert(stands_at(s + tail, p, i));
        assert((s + tail).skip(i + p.len()) =~= s.skip(i + p.len()) + tail);
    }
}

/// What is added behind a text stands behind all that stands in it.
pub proof fn lemma_order_appended(s: Seq<char>, parts: Seq<Seq<char>>, x: Seq<char>)
    requires
        stand_in_order(s, parts),
    ensures
        stand_in_order(s + x, parts.push(x)),
    decreases parts.len(),
{
    let all = s + x;
    let more = parts.push(x);
    if parts.len() == 0 {
        assert(all.subrange(s.len() as int, (s.len() + x.len()) as int) =~= x);
        assert(stands_at(all, more[0], s.len() as int));
        assert(more.skip(1).len() == 0);
        assert(stand_in_order(all.skip((s.len() + x.len()) as int), more.skip(1)));
    } else {
        let p = parts[0];
        let i = choose|i: int| #[trigger]
            stands_at(s, p, i) && stand_in_order(s.skip(i + p.len()), parts.skip(1));
        lemma_order_appended(s.skip(i + p.len()), parts.skip(1), x);
        assert(all.subrange(i, i + p.len()) =~= s.subrange(i, i + p.len()));
        assert(stands_at(all, more[0], i));
        assert(all.skip(i + p.len()) =~= s.skip(i + p.len()) + x);
        assert(more.skip(1) =~= parts.skip(1).push(x));
    }
}

// ---------------------------------------------------------------------------------------------
// Letter case
// ---------------------------------------------------------------------------------------------

/// The letter in lower case, where it is an ASCII capital.
pub open spec fn lower_char(c: char) -> char {
    if 'A' <= c && c <= 'Z' {
        ((c as u32) + 32) as char
    } else {
        c
    }
}

/// The text with its ASCII letters in lower case.
pub open spec fn lowered(s: Seq<char>) -> Seq<char> {
    Seq::new(s.len(), |i: int| lower_char(s[i]))
}

fn lower(c: char) -> (r: char)
    ensures
        r == lower_char(c),
{
    if 'A' <= c && c <= 'Z' {
        ((c as u8) + 32) as char
    } else {
        c
    }
}

/// `str::to_ascii_lowercase`.
pub fn to_lower(s: &str) -> (r: String)
    ensures
        r@ == lowered(s@),
{
    let v = chars_of(s);
    let mut out = String::new();
    let mut i: usize = 0;
    while i < v.len()
        invariant
            i <= v.len(),
            v@ == s@,
            out@ == lowered(s@).take(i as int),
        decreases v.len() - i,
    {
        out.push(lower(v[i]));
        assert(out@ =~= lowered(s@).take(i + 1));
        i += 1;
    }
    assert(out@ =~= lowered(s@));
    out
}

/// To put a text in lower case twice is to do so once.
pub proof fn law_lowering_twice_is_lowering_once(s: Seq<char>)
    ensures
        lowered(lowered(s)) == lowered(s),
{
    assert(lowered(lowered(s)) =~= lowered(s));
}

/// Trimmed and in lower case, as filters are compared.
pub fn fold(s: &str) -> (r: String)
    ensures
        r@ == lowered(trimmed(s@)),
{
    let t = trim(s);
    to_lower(t.as_str())
}

// ---------------------------------------------------------------------------------------------
// Laws
// ---------------------------------------------------------------------------------------------

proof fn lemma_trimmed_start_cuts(s: Seq<char>) -> (from: int)
    ensures
        0 <= from <= s.len(),
        trimmed_start(s) == s.skip(from),
        forall|i: int| 0 <= i < from ==> is_white(#[trigger] s[i]),
        from < s.len() ==> !is_white(s[from]),
    decreases s.len(),
{
    if s.len() > 0 && is_white(s[0]) {
        let rest = s.skip(1);
        let from = lemma_trimmed_start_cuts(rest);
        assert(rest.skip(from) =~= s.skip(from + 1));
        assert forall|i: int| 0 <= i < from + 1 implies is_white(#[trigger] s[i]) by {
            if i > 0 {
                assert(rest[i - 1] == s[i]);
            }
        }
        if from + 1 < s.len() {
            assert(rest[from] == s[from + 1]);
        }
        from + 1
    } else {
        assert(s.skip(0) =~= s);
        0
    }
}

proof fn lemma_trimmed_end_cuts(s: Seq<char>) -> (to: int)
    ensures
        0 <= to <= s.len(),
        trimmed_end(s) == s.take(to),
        forall|i: int| to <= i < s.len() ==> is_white(#[trigger] s[i]),
        to > 0 ==> !is_white(s[to - 1]),
    decreases s.len(),
{
    if s.len() > 0 && is_white(s.last()) {
        let front = s.drop_last();
        let to = lemma_trimmed_end_cuts(front);
        assert(front.take(to) =~= s.take(to));
        assert forall|i: int| to <= i < s.len() implies is_white(#[trigger] s[i]) by {
            if i < front.len() {
                assert(front[i] == s[i]);
            }
        }
        if to > 0 {
            assert(front[to - 1] == s[to - 1]);
        }
        to
    } else {
        assert(s.take(s.len() as int) =~= s);
        s.len() as int
    }
}

/// Trimming takes the white space from either end, all of it and nothing else.
pub proof fn law_trimming_takes_white_space_only(s: Seq<char>) -> (cut: (int, int))
    ensures
        0 <= cut.0 <= cut.1 <= s.len(),
        trimmed(s) == s.subrange(cut.0, cut.1),
        forall|i: int| 0 <= i < cut.0 || cut.1 <= i < s.len() ==> is_white(#[trigger] s[i]),
        cut.0 < cut.1 ==> !is_white(s[cut.0]) && !is_white(s[cut.1 - 1]),
{
    let from = lemma_trimmed_start_cuts(s);
    let rest = s.skip(from);
    let to = lemma_trimmed_end_cuts(rest);
    assert(rest.take(to) =~= s.subrange(from, from + to));
    assert forall|i: int| 0 <= i < from || from + to <= i < s.len() implies is_white(
        #[trigger] s[i],
    ) by {
        if i >= from + to {
            assert(rest[i - from] == s[i]);
        }
    }
    if to > 0 {
        assert(rest[0] == s[from]);
        assert(rest[to - 1] == s[from + to - 1]);
        if is_white(s[from]) {
            assert(from < s.len());
        }
    }
    (from, from + to)
}

/// A text is cut at the first, or at the last, place at which the separator stands: the two parts and
/// the separator make up the text, and there is no earlier, or later, place. Where the text is not
/// cut, it does not hold the separator.
pub proof fn law_texts_are_cut_at_the_separator(s: Seq<char>, p: Seq<char>)
    requires
        p.len() > 0,
    ensures
        match cut_first(s, p) {
            Some((a, b)) => s == a + p + b && forall|k: int|
                0 <= k < a.len() ==> !(#[trigger] stands_at(s, p, k)),
            None => !occurs(s, p),
        },
        match cut_last(s, p) {
            Some((a, b)) => s == a + p + b && forall|k: int|
                a.len() < k ==> !(#[trigger] stands_at(s, p, k)),
            None => !occurs(s, p),
        },
{
    lemma_first_at(s, p, 0);
    lemma_last_at(s, p, s.len() - p.len());
    lemma_cut_last(s, p);
    if let Some(i) = first_at(s, p, 0) {
        assert(s =~= s.take(i) + p + s.skip(i + p.len())) by {
            assert forall|k: int| 0 <= k < p.len() implies s[i + k] == p[k] by {
                assert(s.subrange(i, i + p.len())[k] == p[k]);
            }
        }
    }
    assert forall|k: int| k > s.len() - p.len() implies !(#[trigger] stands_at(s, p, k)) by {}
}

/// Letters are put in lower case one by one, and nothing else is changed.
pub proof fn law_capitals_are_lowered(s: Seq<char>, i: int)
    requires
        0 <= i < s.len(),
    ensures
        lowered(s).len() == s.len(),
        !('A' <= s[i] && s[i] <= 'Z') ==> lowered(s)[i] == s[i],
        'A' <= s[i] && s[i] <= 'Z' ==> lowered(s)[i] as u32 == s[i] as u32 + 32,
{
}

/// The digits are the ten from `0` to `9`, and the letters those of the Latin alphabet.
pub proof fn law_digits_and_letters(c: char)
    ensures
        is_digit(c) <==> "0123456789"@.contains(c),
        is_alpha(c) <==> "ABCDEFGHIJKLMNOPQRSTUVWXYZabcdefghijklmnopqrstuvwxyz"@.contains(c),
{
    reveal_strlit("0123456789");
    reveal_strlit("ABCDEFGHIJKLMNOPQRSTUVWXYZabcdefghijklmnopqrstuvwxyz");
    let letters = "ABCDEFGHIJKLMNOPQRSTUVWXYZabcdefghijklmnopqrstuvwxyz"@;
    if is_digit(c) {
        assert("0123456789"@[c as int - 48] == c);
    }
    if 'A' <= c && c <= 'Z' {
        assert(letters[c as int - 65] == c);
    }
    if 'a' <= c && c <= 'z' {
        assert(letters[c as int - 71] == c);
    }
}

} // verus!
