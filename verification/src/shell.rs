//! Quoting for a POSIX shell.

use vstd::prelude::*;

verus! {

/// One character as it stands between single quotes. A single quote cannot: the
/// quotes are closed, an escaped one follows, and they are opened again.
pub open spec fn quoted_char(c: char) -> Seq<char> {
    if c == '\'' {
        seq!['\'', '\\', '\'', '\'']
    } else {
        seq![c]
    }
}

/// The characters of `s` as they stand between single quotes.
pub open spec fn quoted_chars(s: Seq<char>) -> Seq<char>
    decreases s.len(),
{
    if s.len() == 0 {
        Seq::empty()
    } else {
        quoted_char(s.first()) + quoted_chars(s.drop_first())
    }
}

/// `s` as one single-quoted shell word.
pub open spec fn single_quoted(s: Seq<char>) -> Seq<char> {
    seq!['\''] + quoted_chars(s) + seq!['\'']
}

/// Quotes a text so that a shell reads it as one word and expands nothing in it.
pub fn shell_single_quote(input: &str) -> (quoted: String)
    ensures
        quoted@ == single_quoted(input@),
{
    let mut quoted = String::new();
    quoted.push('\'');
    assert(input@.skip(0) =~= input@);
    assert(quoted@ =~= seq!['\'']);
    for ch in it: input.chars()
        invariant
            it.seq() == input@,
            quoted@ + quoted_chars(input@.skip(it.index() as int)) == seq!['\''] + quoted_chars(
                input@,
            ),
    {
        let ghost rest = input@.skip(it.index() as int);
        let ghost before = quoted@;
        assert(rest.drop_first() =~= input@.skip(it.index() + 1));
        if ch == '\'' {
            proof {
                reveal_strlit("'\\''");
            }
            quoted.append("'\\''");
        } else {
            quoted.push(ch);
        }
        assert(quoted@ =~= before + quoted_char(ch));
        assert(quoted@ + quoted_chars(rest.drop_first()) =~= before + quoted_chars(rest));
    }
    assert(input@.skip(input@.len() as int) =~= Seq::<char>::empty());
    assert(quoted@ =~= seq!['\''] + quoted_chars(input@));
    quoted.push('\'');
    assert(quoted@ =~= single_quoted(input@));
    quoted
}

/// The word that a POSIX shell makes of `text`, read from inside single quotes or
/// from outside, if `text` is made of single-quoted stretches and of characters
/// escaped by a backslash. There is none if anything stands bare, so that the shell
/// would split or expand there, or if a quote is left open.
pub open spec fn shell_word(text: Seq<char>, inside: bool) -> Option<Seq<char>>
    decreases text.len(),
{
    if text.len() == 0 {
        if inside {
            None
        } else {
            Some(Seq::empty())
        }
    } else if text.first() == '\'' {
        shell_word(text.drop_first(), !inside)
    } else if inside {
        match shell_word(text.drop_first(), true) {
            Some(word) => Some(seq![text.first()] + word),
            None => None,
        }
    } else if text.first() == '\\' && text.len() > 1 && text[1] != '\n' {
        match shell_word(text.skip(2), false) {
            Some(word) => Some(seq![text[1]] + word),
            None => None,
        }
    } else {
        None
    }
}

proof fn lemma_quoted_chars_are_read_back(s: Seq<char>)
    ensures
        shell_word(quoted_chars(s) + seq!['\''], true) == Some(s),
    decreases s.len(),
{
    let close = seq!['\''];
    if s.len() == 0 {
        assert(quoted_chars(s) + close =~= close);
        assert(close.drop_first() =~= s);
        assert(s =~= Seq::<char>::empty());
        assert(shell_word(s, false) == Some(s));
    } else {
        let tail = quoted_chars(s.drop_first()) + close;
        let all = quoted_chars(s) + close;
        lemma_quoted_chars_are_read_back(s.drop_first());
        assert(all =~= quoted_char(s.first()) + tail);
        assert(seq![s.first()] + s.drop_first() =~= s);
        if s.first() == '\'' {
            let escaped = seq!['\\', '\'', '\''] + tail;
            let reopened = close + tail;
            assert(all.drop_first() =~= escaped);
            assert(escaped.skip(2) =~= reopened);
            assert(reopened.drop_first() =~= tail);
            assert(shell_word(reopened, false) == Some(s.drop_first()));
            assert(shell_word(escaped, false) == Some(s));
        } else {
            assert(all.drop_first() =~= tail);
        }
    }
}

/// The shell reads a quoted text as exactly one word, and that word is the text.
pub proof fn law_quoting_is_read_back(s: Seq<char>)
    ensures
        shell_word(single_quoted(s), false) == Some(s),
{
    lemma_quoted_chars_are_read_back(s);
    assert(single_quoted(s).drop_first() =~= quoted_chars(s) + seq!['\'']);
}

/// A text without single quotes stands between two of them as it is.
pub proof fn law_plain_text_is_only_enclosed(s: Seq<char>)
    requires
        !s.contains('\''),
    ensures
        single_quoted(s) == seq!['\''] + s + seq!['\''],
    decreases s.len(),
{
    if s.len() > 0 {
        assert(s[0] != '\'');
        assert forall|i: int| 0 <= i < s.drop_first().len() implies s.drop_first()[i] != '\'' by {
            assert(s[i + 1] != '\'');
        }
        law_plain_text_is_only_enclosed(s.drop_first());
        let tail = s.drop_first();
        assert(single_quoted(tail).subrange(1, single_quoted(tail).len() - 1) =~= quoted_chars(tail));
        assert((seq!['\''] + tail + seq!['\'']).subrange(1, tail.len() as int + 1) =~= tail);
        assert(seq![s.first()] + tail =~= s);
    }
    assert(single_quoted(s) =~= seq!['\''] + s + seq!['\'']);
}

proof fn lemma_quoted_chars_of_parts(a: Seq<char>, b: Seq<char>)
    ensures
        quoted_chars(a + b) == quoted_chars(a) + quoted_chars(b),
    decreases a.len(),
{
    if a.len() == 0 {
        assert(a + b =~= b);
        assert(quoted_chars(a) + quoted_chars(b) =~= quoted_chars(b));
    } else {
        lemma_quoted_chars_of_parts(a.drop_first(), b);
        assert((a + b).drop_first() =~= a.drop_first() + b);
        assert(quoted_chars(a + b) =~= quoted_chars(a) + quoted_chars(b));
    }
}

/// A single quote inside a text is written as an escaped quote between the quoted
/// text before it and the quoted text after it.
pub proof fn law_single_quotes_are_escaped(before: Seq<char>, after: Seq<char>)
    ensures
        single_quoted(before + seq!['\''] + after) == single_quoted(before) + seq!['\\', '\'']
            + single_quoted(after),
{
    let quote = seq!['\''];
    lemma_quoted_chars_of_parts(before + quote, after);
    lemma_quoted_chars_of_parts(before, quote);
    assert(quote.drop_first() =~= Seq::<char>::empty());
    assert(quoted_chars(quote.drop_first()) =~= Seq::<char>::empty());
    assert(quoted_chars(quote) =~= quoted_char('\''));
    assert(single_quoted(before + quote + after) =~= single_quoted(before) + seq!['\\', '\'']
        + single_quoted(after));
}


} // verus!
