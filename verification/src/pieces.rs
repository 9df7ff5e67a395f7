//! Taking texts apart at separators and putting them together.
use crate::text::{chars_of, is_white, text_of, texts, white};
use vstd::prelude::*;

verus! {

/// The pieces between the separators: one more than there are separators.
pub open spec fn pieces(s: Seq<char>, c: char) -> Seq<Seq<char>>
    decreases s.len(),
{
    if s.len() == 0 {
        seq![Seq::<char>::empty()]
    } else {
        let before = pieces(s.drop_last(), c);
        if s.last() == c {
            before.push(Seq::<char>::empty())
        } else {
            before.drop_last().push(before.last().push(s.last()))
        }
    }
}

pub proof fn lemma_pieces_nonempty(s: Seq<char>, c: char)
    ensures
        pieces(s, c).len() > 0,
    decreases s.len(),
{
    if s.len() > 0 {
        lemma_pieces_nonempty(s.drop_last(), c);
    }
}

/// The line without a carriage return at its end.
pub open spec fn without_cr(s: Seq<char>) -> Seq<char> {
    if s.len() > 0 && s.last() == '\r' {
        s.drop_last()
    } else {
        s
    }
}

/// The lines of a text: `\n` and `\r\n` end a line, and a last line need not be ended.
pub open spec fn lines_of(s: Seq<char>) -> Seq<Seq<char>> {
    let all = pieces(s, '\n');
    let ended = Seq::new((all.len() - 1) as nat, |i: int| without_cr(all[i]));
    if all.last().len() == 0 {
        ended
    } else {
        ended.push(all.last())
    }
}

/// The longest stretches without white space.
pub open spec fn words_of(s: Seq<char>) -> Seq<Seq<char>>
    decreases s.len(),
{
    if s.len() == 0 {
        seq![]
    } else {
        let front = s.drop_last();
        let before = words_of(front);
        if is_white(s.last()) {
            before
        } else if front.len() == 0 || is_white(front.last()) {
            before.push(seq![s.last()])
        } else {
            before.drop_last().push(before.last().push(s.last()))
        }
    }
}

/// The parts, with the separator between each and the next.
pub open spec fn joined(parts: Seq<Seq<char>>, sep: Seq<char>) -> Seq<char>
    decreases parts.len(),
{
    if parts.len() == 0 {
        Seq::empty()
    } else if parts.len() == 1 {
        parts[0]
    } else {
        joined(parts.drop_last(), sep) + sep + parts.last()
    }
}

/// The text with `with` in the place of each `c`.
pub open spec fn replaced(s: Seq<char>, c: char, with: Seq<char>) -> Seq<char>
    decreases s.len(),
{
    if s.len() == 0 {
        Seq::empty()
    } else if s.last() == c {
        replaced(s.drop_last(), c, with) + with
    } else {
        replaced(s.drop_last(), c, with).push(s.last())
    }
}

/// `str::split` at a character.
pub fn split(s: &str, c: char) -> (r: Vec<String>)
    ensures
        texts(r@) == pieces(s@, c),
{
    let v = chars_of(s);
    let mut done: Vec<String> = Vec::new();
    let mut cur = String::new();
    let mut i: usize = 0;
    assert(s@.take(0) =~= Seq::<char>::empty());
    assert(texts(done@).push(cur@) =~= pieces(s@.take(0), c));
    while i < v.len()
        invariant
            i <= v.len(),
            v@ == s@,
            texts(done@).push(cur@) == pieces(s@.take(i as int), c),
        decreases v.len() - i,
    {
        let ghost before = pieces(s@.take(i as int), c);
        let ghost done0 = done@;
        let ghost cur0 = cur@;
        assert(s@.take(i + 1).drop_last() =~= s@.take(i as int));
        assert(before.last() == cur0);
        assert(before.drop_last() =~= texts(done0));
        if v[i] == c {
            done.push(cur);
            cur = String::new();
            assert(texts(done@) =~= texts(done0).push(cur0));
        } else {
            cur.push(v[i]);
        }
        i += 1;
    }
    assert(s@.take(s@.len() as int) =~= s@);
    let ghost done0 = done@;
    let ghost cur0 = cur@;
    done.push(cur);
    assert(texts(done@) =~= texts(done0).push(cur0));
    done
}

fn strip_cr(s: &str) -> (r: String)
    ensures
        r@ == without_cr(s@),
{
    let v = chars_of(s);
    if v.len() > 0 && v[v.len() - 1] == '\r' {
        assert(s@.subrange(0, s@.len() - 1) =~= s@.drop_last());
        text_of(&v, 0, v.len() - 1)
    } else {
        s.to_owned()
    }
}

/// `str::lines`.
pub fn lines(s: &str) -> (r: Vec<String>)
    ensures
        texts(r@) == lines_of(s@),
{
    let all = split(s, '\n');
    proof {
        lemma_pieces_nonempty(s@, '\n');
        assert(all@.len() == texts(all@).len());
    }
    let n: usize = all.len() - 1;
    let mut out: Vec<String> = Vec::new();
    let mut i: usize = 0;
    while i < n
        invariant
            i <= n < all.len(),
            texts(all@) == pieces(s@, '\n'),
            out.len() == i,
            forall|k: int| 0 <= k < i ==> out@[k]@ == without_cr(texts(all@)[k]),
        decreases n - i,
    {
        out.push(strip_cr(all[i].as_str()));
        i += 1;
    }
    let ghost ended = Seq::new(n as nat, |k: int| without_cr(pieces(s@, '\n')[k]));
    assert(texts(out@) =~= ended);
    assert(texts(all@).last() == all@[n as int]@);
    let ghost out0 = out@;
    if !all[n].as_str().is_empty() {
        out.push(all[n].clone());
        assert(texts(out@) =~= ended.push(all@[n as int]@));
    }
    out
}

/// `str::split_whitespace`.
pub fn split_whitespace(s: &str) -> (r: Vec<String>)
    ensures
        texts(r@) == words_of(s@),
{
    let v = chars_of(s);
    let mut done: Vec<String> = Vec::new();
    let mut cur = String::new();
    let mut within = false;
    let mut i: usize = 0;
    assert(s@.take(0) =~= Seq::<char>::empty());
    assert(texts(done@) =~= words_of(s@.take(0)));
    while i < v.len()
        invariant
            i <= v.len(),
            v@ == s@,
            within == (i > 0 && !is_white(s@[i - 1])),
            within ==> texts(done@).push(cur@) == words_of(s@.take(i as int)),
            !within ==> texts(done@) == words_of(s@.take(i as int)) && cur@.len() == 0,
        decreases v.len() - i,
    {
        let ghost before = words_of(s@.take(i as int));
        let ghost done0 = done@;
        let ghost cur0 = cur@;
        assert(s@.take(i + 1).drop_last() =~= s@.take(i as int));
        assert(i > 0 ==> s@.take(i as int).last() == s@[i - 1]);
        proof {
            if within {
                assert(before.last() == cur0);
                assert(before.drop_last() =~= texts(done0));
            }
        }
        if white(v[i]) {
            if within {
                done.push(cur);
                cur = String::new();
                assert(texts(done@) =~= texts(done0).push(cur0));
            }
            within = false;
        } else {
            cur.push(v[i]);
            within = true;
            assert(cur0.len() == 0 ==> cur@ =~= seq![s@[i as int]]);
        }
        i += 1;
    }
    assert(s@.take(s@.len() as int) =~= s@);
    if within {
        let ghost done0 = done@;
        let ghost cur0 = cur@;
        done.push(cur);
        assert(texts(done@) =~= texts(done0).push(cur0));
    }
    done
}

/// `[String]::join`, of the parts from `from` on.
pub fn join_from(parts: &Vec<String>, from: usize, sep: &str) -> (r: String)
    requires
        from <= parts.len(),
    ensures
        r@ == joined(texts(parts@).skip(from as int), sep@),
{
    let mut out = String::new();
    let mut i: usize = from;
    let ghost all = texts(parts@).skip(from as int);
    assert(all.take(0) =~= Seq::empty());
    while i < parts.len()
        invariant
            from <= i <= parts.len(),
            all == texts(parts@).skip(from as int),
            out@ == joined(all.take(i - from), sep@),
        decreases parts.len() - i,
    {
        assert(all.take(i + 1 - from).drop_last() =~= all.take(i - from));
        if i > from {
            out.append(sep);
        }
        out.append(parts[i].as_str());
        assert(i == from ==> out@ =~= all[0]);
        i += 1;
    }
    assert(all.take(all.len() as int) =~= all);
    out
}

/// `[String]::join`.
pub fn join(parts: &Vec<String>, sep: &str) -> (r: String)
    ensures
        r@ == joined(texts(parts@), sep@),
{
    assert(texts(parts@).skip(0) =~= texts(parts@));
    join_from(parts, 0, sep)
}

/// `str::replace` of a character.
pub fn replace_char(s: &str, c: char, with: &str) -> (r: String)
    ensures
        r@ == replaced(s@, c, with@),
{
    let v = chars_of(s);
    let mut out = String::new();
    let mut i: usize = 0;
    assert(s@.take(0) =~= Seq::<char>::empty());
    while i < v.len()
        invariant
            i <= v.len(),
            v@ == s@,
            out@ == replaced(s@.take(i as int), c, with@),
        decreases v.len() - i,
    {
        assert(s@.take(i + 1).drop_last() =~= s@.take(i as int));
        if v[i] == c {
            out.append(with);
        } else {
            out.push(v[i]);
        }
        i += 1;
    }
    assert(s@.take(s@.len() as int) =~= s@);
    out
}

/// Where every character of every piece has a property, every character of the text has it, or is
/// the separator.
pub proof fn lemma_pieces_chars(s: Seq<char>, c: char, good: spec_fn(char) -> bool)
    requires
        forall|i: int, k: int|
            0 <= i < pieces(s, c).len() && 0 <= k < pieces(s, c)[i].len() ==> good(
                #[trigger] pieces(s, c)[i][k],
            ),
    ensures
        forall|i: int| 0 <= i < s.len() ==> (#[trigger] s[i] == c || good(s[i])),
    decreases s.len(),
{
    if s.len() > 0 {
        let front = s.drop_last();
        let before = pieces(front, c);
        let after = pieces(s, c);
        lemma_pieces_nonempty(front, c);
        assert forall|i: int, k: int| 0 <= i < before.len() && 0 <= k < before[i].len() implies good(
            #[trigger] before[i][k],
        ) by {
            assert(after[i][k] == before[i][k]);
        }
        lemma_pieces_chars(front, c, good);
        if s.last() != c {
            let last = after.len() - 1;
            assert(after[last][after[last].len() - 1] == s.last());
        }
        assert forall|i: int| 0 <= i < s.len() implies (#[trigger] s[i] == c || good(s[i])) by {
            if i < front.len() {
                assert(front[i] == s[i]);
            }
        }
    }
}

/// What stands behind a further separator is a further piece.
pub proof fn lemma_one_more_piece(a: Seq<char>, c: char, b: Seq<char>)
    requires
        !b.contains(c),
    ensures
        pieces(a.push(c) + b, c) == pieces(a, c).push(b),
    decreases b.len(),
{
    if b.len() == 0 {
        assert(a.push(c) + b =~= a.push(c));
        assert(a.push(c).drop_last() =~= a);
        assert(b =~= Seq::<char>::empty());
    } else {
        let front = b.drop_last();
        assert forall|i: int| 0 <= i < front.len() implies front[i] != c by {
            assert(b.contains(b[i]));
        }
        lemma_one_more_piece(a, c, front);
        let s = a.push(c) + b;
        assert(s.drop_last() =~= a.push(c) + front);
        assert(b.contains(b.last()));
        assert(pieces(a, c).push(front).drop_last() =~= pieces(a, c));
        assert(front.push(b.last()) =~= b);
    }
}

proof fn lemma_joined_grows(parts: Seq<Seq<char>>, sep: Seq<char>, x: Seq<char>)
    requires
        parts.len() > 0,
    ensures
        joined(parts.push(x), sep) == joined(parts, sep) + sep + x,
{
    assert(parts.push(x).drop_last() =~= parts);
}

proof fn lemma_last_part_grows(parts: Seq<Seq<char>>, sep: Seq<char>, c: char)
    requires
        parts.len() > 0,
    ensures
        joined(parts.drop_last().push(parts.last().push(c)), sep) == joined(parts, sep).push(c),
{
    let grown = parts.drop_last().push(parts.last().push(c));
    assert(grown.drop_last() =~= parts.drop_last());
    if parts.len() > 1 {
        let front = joined(parts.drop_last(), sep);
        assert(front + sep + parts.last().push(c) =~= (front + sep + parts.last()).push(c));
    }
}

/// The pieces, put together again with the separator between them, are the text; and none of them
/// holds a separator.
pub proof fn law_pieces_make_up_the_text(s: Seq<char>, c: char)
    ensures
        joined(pieces(s, c), seq![c]) == s,
        pieces(s, c).len() > 0,
        forall|i: int| 0 <= i < pieces(s, c).len() ==> !(#[trigger] pieces(s, c)[i]).contains(c),
    decreases s.len(),
{
    let all = pieces(s, c);
    lemma_pieces_nonempty(s, c);
    if s.len() == 0 {
        assert(joined(all, seq![c]) =~= s);
    } else {
        let front = s.drop_last();
        let before = pieces(front, c);
        law_pieces_make_up_the_text(front, c);
        if s.last() == c {
            lemma_joined_grows(before, seq![c], Seq::<char>::empty());
            assert(front + seq![c] + Seq::<char>::empty() =~= s);
            assert forall|i: int| 0 <= i < all.len() implies !(#[trigger] all[i]).contains(c) by {
                if i < before.len() {
                    assert(all[i] == before[i]);
                }
            }
        } else {
            lemma_last_part_grows(before, seq![c], s.last());
            assert(front.push(s.last()) =~= s);
            assert forall|i: int| 0 <= i < all.len() implies !(#[trigger] all[i]).contains(c) by {
                if i < before.len() - 1 {
                    assert(all[i] == before[i]);
                } else {
                    let last = before[before.len() - 1];
                    assert(all[i] == last.push(s.last()));
                    if all[i].contains(c) {
                        let k = choose|k: int| 0 <= k < all[i].len() && all[i][k] == c;
                        assert(last[k] == c);
                        assert(last.contains(c));
                    }
                }
            }
        }
    }
}

proof fn lemma_pieces_split(a: Seq<char>, c: char, b: Seq<char>)
    ensures
        pieces(a.push(c) + b, c) == pieces(a, c) + pieces(b, c),
    decreases b.len(),
{
    if b.len() == 0 {
        assert(a.push(c) + b =~= a.push(c));
        assert(a.push(c).drop_last() =~= a);
        assert(pieces(a, c).push(Seq::<char>::empty()) =~= pieces(a, c) + pieces(b, c));
    } else {
        let s = a.push(c) + b;
        let front = b.drop_last();
        assert(s.drop_last() =~= a.push(c) + front);
        lemma_pieces_split(a, c, front);
        lemma_pieces_nonempty(front, c);
        let before = pieces(a, c) + pieces(front, c);
        assert(before.last() == pieces(front, c).last());
        assert(before.drop_last() =~= pieces(a, c) + pieces(front, c).drop_last());
        assert(pieces(s, c) =~= pieces(a, c) + pieces(b, c));
    }
}

proof fn lemma_lone_piece(s: Seq<char>, c: char)
    requires
        !s.contains(c),
    ensures
        pieces(s, c) == seq![s],
    decreases s.len(),
{
    if s.len() == 0 {
        assert(s =~= Seq::<char>::empty());
    } else {
        let front = s.drop_last();
        assert forall|i: int| 0 <= i < front.len() implies front[i] != c by {
            assert(s.contains(s[i]));
        }
        lemma_lone_piece(front, c);
        assert(s.contains(s.last()));
        assert(front.push(s.last()) =~= s);
        assert(pieces(s, c) =~= seq![s]);
    }
}

/// A text is read line by line: a line and its end come before the lines of the rest, with or
/// without a carriage return. An unended last line is a line too, and nothing has no lines.
pub proof fn law_lines_come_one_by_one(line: Seq<char>, rest: Seq<char>)
    requires
        !line.contains('\n'),
    ensures
        line.len() == 0 || line.last() != '\r' ==> lines_of(line.push('\n') + rest) == seq![line]
            + lines_of(rest),
        lines_of(line.push('\r').push('\n') + rest) == seq![line] + lines_of(rest),
        line.len() > 0 ==> lines_of(line) == seq![line],
        lines_of(Seq::<char>::empty()).len() == 0,
{
    lemma_lone_piece(line, '\n');
    lemma_pieces_split(line, '\n', rest);
    lemma_pieces_nonempty(rest, '\n');
    let ended = line.push('\r');
    assert forall|i: int| 0 <= i < ended.len() implies ended[i] != '\n' by {
        if i < line.len() {
            assert(line.contains(line[i]));
        }
    }
    assert(!ended.contains('\n'));
    lemma_lone_piece(ended, '\n');
    lemma_pieces_split(ended, '\n', rest);
    assert(ended.drop_last() =~= line);
    let all = pieces(line.push('\n') + rest, '\n');
    let other = pieces(ended.push('\n') + rest, '\n');
    let after = pieces(rest, '\n');
    assert(all.last() == after.last());
    assert(other.last() == after.last());
    assert forall|i: int| 0 <= i < after.len() implies #[trigger] after[i] == all[i + 1]
        && after[i] == other[i + 1] by {}
    if line.len() == 0 || line.last() != '\r' {
        assert(without_cr(all[0]) == line);
        assert(lines_of(line.push('\n') + rest) =~= seq![line] + lines_of(rest));
    }
    assert(without_cr(other[0]) == line);
    assert(lines_of(ended.push('\n') + rest) =~= seq![line] + lines_of(rest));
    if line.len() > 0 {
        assert(lines_of(line) =~= seq![line]);
    }
}

proof fn lemma_words_split(a: Seq<char>, b: Seq<char>)
    requires
        a.len() == 0 || is_white(a.last()),
    ensures
        words_of(a + b) == words_of(a) + words_of(b),
        b.len() > 0 && !is_white(b.last()) ==> words_of(b).len() > 0,
    decreases b.len(),
{
    if b.len() == 0 {
        assert(a + b =~= a);
        assert(words_of(a) + words_of(b) =~= words_of(a));
    } else {
        let front = b.drop_last();
        lemma_words_split(a, front);
        assert((a + b).drop_last() =~= a + front);
        let before = words_of(a) + words_of(front);
        if !is_white(b.last()) && front.len() > 0 && !is_white(front.last()) {
            assert(before.last() == words_of(front).last());
            assert(before.drop_last() =~= words_of(a) + words_of(front).drop_last());
        }
        assert(words_of(a + b) =~= words_of(a) + words_of(b));
    }
}

proof fn lemma_lone_word(word: Seq<char>)
    requires
        word.len() > 0,
        forall|i: int| 0 <= i < word.len() ==> !is_white(#[trigger] word[i]),
    ensures
        words_of(word) == seq![word],
    decreases word.len(),
{
    let front = word.drop_last();
    assert(!is_white(word[word.len() - 1]));
    if front.len() == 0 {
        assert(words_of(front) =~= seq![]);
        assert(word =~= seq![word.last()]);
        assert(words_of(word) =~= seq![word]);
    } else {
        assert forall|i: int| 0 <= i < front.len() implies !is_white(#[trigger] front[i]) by {
            assert(front[i] == word[i]);
        }
        assert(!is_white(front[front.len() - 1]));
        lemma_lone_word(front);
        assert(front.push(word.last()) =~= word);
        assert(words_of(word) =~= seq![word]);
    }
}

/// A text is read word by word: a word and white space come before the words of the rest, a last
/// word need not be followed by white space, and white space alone has no words.
pub proof fn law_words_come_one_by_one(word: Seq<char>, white: char, rest: Seq<char>)
    requires
        word.len() > 0,
        forall|i: int| 0 <= i < word.len() ==> !is_white(#[trigger] word[i]),
        is_white(white),
    ensures
        words_of(word.push(white) + rest) == seq![word] + words_of(rest),
        words_of(word) == seq![word],
        words_of(seq![white] + rest) == words_of(rest),
        words_of(Seq::<char>::empty()).len() == 0,
{
    lemma_lone_word(word);
    let ended = word.push(white);
    assert(ended.drop_last() =~= word);
    lemma_words_split(ended, rest);
    let gap = seq![white];
    assert(gap.drop_last() =~= Seq::<char>::empty());
    assert(words_of(gap.drop_last()) =~= seq![]);
    lemma_words_split(gap, rest);
    assert(words_of(gap) + words_of(rest) =~= words_of(rest));
}

/// Each character of a text is replaced, or kept, by itself.
pub proof fn law_characters_are_replaced_each(
    a: Seq<char>,
    b: Seq<char>,
    c: char,
    with: Seq<char>,
)
    ensures
        replaced(a + b, c, with) == replaced(a, c, with) + replaced(b, c, with),
        replaced(seq![c], c, with) == with,
        forall|d: char| d != c ==> #[trigger] replaced(seq![d], c, with) == seq![d],
        replaced(Seq::<char>::empty(), c, with).len() == 0,
    decreases b.len(),
{
    if b.len() == 0 {
        assert(a + b =~= a);
        assert(replaced(a, c, with) + replaced(b, c, with) =~= replaced(a, c, with));
    } else {
        let front = b.drop_last();
        assert((a + b).drop_last() =~= a + front);
        law_characters_are_replaced_each(a, front, c, with);
        assert(replaced(a + b, c, with) =~= replaced(a, c, with) + replaced(b, c, with));
    }
    let nothing = Seq::<char>::empty();
    let one = seq![c];
    assert(one.last() == c);
    assert(one.drop_last() =~= nothing);
    assert(replaced(nothing, c, with) =~= nothing);
    assert(nothing + with =~= with);
    assert forall|d: char| d != c implies #[trigger] replaced(seq![d], c, with) == seq![d] by {
        let other = seq![d];
        assert(other.last() == d);
        assert(other.drop_last() =~= nothing);
        assert(replaced(other, c, with) =~= other);
    }
}

} // verus!
