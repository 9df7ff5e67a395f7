//! Quoting of words for a POSIX shell.
use crate::pieces::{replace_char, replaced};
use vstd::prelude::*;

verus! {

/// What stands in a quoted word for a single quote: the quotes are closed, a single quote follows
/// in double quotes, and the quotes are opened again.
pub const QUOTED_QUOTE: &'static str = "'\"'\"'";

/// The text as one shell word.
pub open spec fn escaped(s: Seq<char>) -> Seq<char> {
    "'"@ + replaced(s, '\'', QUOTED_QUOTE@) + "'"@
}

/// The text as one shell word.
pub fn shell_escape(text: &str) -> (r: String)
    ensures
        r@ == escaped(text@),
{
    let mut word = "'".to_owned();
    let inner = replace_char(text, '\'', QUOTED_QUOTE);
    word.append(inner.as_str());
    word.append("'");
    word
}

/// Where a shell stands while it reads a word.
pub enum Quoting {
    /// Between quoted parts.
    Outside,
    /// Within single quotes: every character but the single quote stands for itself.
    Single,
    /// Within double quotes.
    Double,
    /// The word has a part that a shell does not take literally.
    Expands,
}

/// How a shell goes on after one more character, and whether that character belongs to the word.
pub open spec fn next_quoting(at: Quoting, c: char) -> (Quoting, bool) {
    match at {
        Quoting::Outside => if c == '\'' {
            (Quoting::Single, false)
        } else if c == '"' {
            (Quoting::Double, false)
        } else {
            (Quoting::Expands, false)
        },
        Quoting::Single => if c == '\'' {
            (Quoting::Outside, false)
        } else {
            (Quoting::Single, true)
        },
        Quoting::Double => if c == '"' {
            (Quoting::Outside, false)
        } else if c == '$' || c == '`' || c == '\\' {
            (Quoting::Expands, false)
        } else {
            (Quoting::Double, true)
        },
        Quoting::Expands => (Quoting::Expands, false),
    }
}

/// Where a shell stands after it has read `w`, and the text that the word holds so far.
pub open spec fn shell_reads(w: Seq<char>) -> (Quoting, Seq<char>)
    decreases w.len(),
{
    if w.len() == 0 {
        (Quoting::Outside, Seq::empty())
    } else {
        let (at, held) = shell_reads(w.drop_last());
        let (next, belongs) = next_quoting(at, w.last());
        (
            next,
            if belongs {
                held.push(w.last())
            } else {
                held
            },
        )
    }
}

/// The text that a shell takes a fully quoted word for.
pub open spec fn shell_word(w: Seq<char>) -> Option<Seq<char>> {
    match shell_reads(w) {
        (Quoting::Outside, held) => Some(held),
        _ => None,
    }
}

proof fn lemma_reads_push(w: Seq<char>, c: char)
    ensures
        shell_reads(w.push(c)) == {
            let (at, held) = shell_reads(w);
            let (next, belongs) = next_quoting(at, c);
            (
                next,
                if belongs {
                    held.push(c)
                } else {
                    held
                },
            )
        },
{
    assert(w.push(c).drop_last() =~= w);
}

proof fn lemma_reads_open(s: Seq<char>)
    ensures
        shell_reads("'"@ + replaced(s, '\'', QUOTED_QUOTE@)) == (Quoting::Single, s),
    decreases s.len(),
{
    reveal_strlit("'");
    reveal_strlit("'\"'\"'");
    let open = "'"@;
    if s.len() == 0 {
        assert(open + replaced(s, '\'', QUOTED_QUOTE@) =~= Seq::<char>::empty().push('\''));
        lemma_reads_push(Seq::<char>::empty(), '\'');
        assert(s =~= Seq::<char>::empty());
    } else {
        let front = s.drop_last();
        let w = open + replaced(front, '\'', QUOTED_QUOTE@);
        lemma_reads_open(front);
        assert(s =~= front.push(s.last()));
        if s.last() == '\'' {
            let w1 = w.push('\'');
            let w2 = w1.push('"');
            let w3 = w2.push('\'');
            let w4 = w3.push('"');
            lemma_reads_push(w, '\'');
            lemma_reads_push(w1, '"');
            lemma_reads_push(w2, '\'');
            lemma_reads_push(w3, '"');
            lemma_reads_push(w4, '\'');
            assert(open + replaced(s, '\'', QUOTED_QUOTE@) =~= w4.push('\''));
        } else {
            lemma_reads_push(w, s.last());
            assert(open + replaced(s, '\'', QUOTED_QUOTE@) =~= w.push(s.last()));
        }
    }
}

/// A shell takes an escaped text for exactly that text, whatever it holds.
pub proof fn law_shell_reads_escaped_text_back(s: Seq<char>)
    ensures
        shell_word(escaped(s)) == Some(s),
{
    reveal_strlit("'");
    let w = "'"@ + replaced(s, '\'', QUOTED_QUOTE@);
    lemma_reads_open(s);
    lemma_reads_push(w, '\'');
    assert(escaped(s) =~= w.push('\''));
}

/// Two texts with the same escaped form are the same text.
pub proof fn law_escaping_loses_nothing(a: Seq<char>, b: Seq<char>)
    requires
        escaped(a) == escaped(b),
    ensures
        a == b,
{
    law_shell_reads_escaped_text_back(a);
    law_shell_reads_escaped_text_back(b);
}

/// A text without single quotes is escaped by a quote at either end.
pub proof fn law_escaping_of_text_without_quotes(s: Seq<char>)
    requires
        !s.contains('\''),
    ensures
        escaped(s) == "'"@ + s + "'"@,
{
    lemma_nothing_replaced(s);
}

proof fn lemma_nothing_replaced(s: Seq<char>)
    requires
        !s.contains('\''),
    ensures
        replaced(s, '\'', QUOTED_QUOTE@) == s,
    decreases s.len(),
{
    if s.len() > 0 {
        let front = s.drop_last();
        assert(s.contains(s.last()));
        assert forall|i: int| 0 <= i < front.len() implies front[i] != '\'' by {
            assert(s.contains(s[i]));
        }
        lemma_nothing_replaced(front);
        assert(front.push(s.last()) =~= s);
    }
}

} // verus!
