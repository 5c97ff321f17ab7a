//! Text handling: white space, lines, prefixes and ASCII case.

use vstd::prelude::*;

verus! {

/// `String::push`: the string grows by exactly the given character, at its end.
pub assume_specification[ String::push ](s: &mut String, c: char)
    ensures
        final(s)@ == old(s)@.push(c),
;

/// The characters with the Unicode property `White_Space`.
pub open spec fn white_space(c: char) -> bool {
    let code = c as u32;
    ||| 0x09 <= code <= 0x0D
    ||| code == 0x20
    ||| code == 0x85
    ||| code == 0xA0
    ||| code == 0x1680
    ||| 0x2000 <= code <= 0x200A
    ||| code == 0x2028
    ||| code == 0x2029
    ||| code == 0x202F
    ||| code == 0x205F
    ||| code == 0x3000
}

/// Whether a character is white space.
pub fn is_white_space(c: char) -> (yes: bool)
    ensures
        yes == white_space(c),
{
    let code: u32 = c as u32;
    (0x09 <= code && code <= 0x0D) || code == 0x20 || code == 0x85 || code == 0xA0 || code == 0x1680
        || (0x2000 <= code && code <= 0x200A) || code == 0x2028 || code == 0x2029 || code == 0x202F
        || code == 0x205F || code == 0x3000
}

/// `s` without its leading white space.
pub open spec fn trimmed_start(s: Seq<char>) -> Seq<char>
    decreases s.len(),
{
    if s.len() > 0 && white_space(s.first()) {
        trimmed_start(s.drop_first())
    } else {
        s
    }
}

/// `s` without its trailing white space.
pub open spec fn trimmed_end(s: Seq<char>) -> Seq<char>
    decreases s.len(),
{
    if s.len() > 0 && white_space(s.last()) {
        trimmed_end(s.drop_last())
    } else {
        s
    }
}

/// `s` without leading and trailing white space.
pub open spec fn trimmed(s: Seq<char>) -> Seq<char> {
    trimmed_end(trimmed_start(s))
}

proof fn lemma_trimmed_start(s: Seq<char>, start: int)
    requires
        0 <= start <= s.len(),
        forall|i: int| 0 <= i < start ==> white_space(#[trigger] s[i]),
        start < s.len() ==> !white_space(s[start]),
    ensures
        trimmed_start(s) == s.skip(start),
    decreases start,
{
    if start == 0 {
        assert(s.skip(0) =~= s);
    } else {
        assert(white_space(s[0]));
        assert forall|i: int| 0 <= i < start - 1 implies white_space(#[trigger] s.drop_first()[i]) by {
            assert(s.drop_first()[i] == s[i + 1]);
        }
        lemma_trimmed_start(s.drop_first(), start - 1);
        assert(s.drop_first().skip(start - 1) =~= s.skip(start));
    }
}

proof fn lemma_trimmed_end(s: Seq<char>, end: int)
    requires
        0 <= end <= s.len(),
        forall|i: int| end <= i < s.len() ==> white_space(#[trigger] s[i]),
        end > 0 ==> !white_space(s[end - 1]),
    ensures
        trimmed_end(s) == s.take(end),
    decreases s.len(),
{
    if end == s.len() {
        assert(s.take(end) =~= s);
    } else {
        assert(white_space(s[s.len() - 1]));
        lemma_trimmed_end(s.drop_last(), end);
        assert(s.drop_last().take(end) =~= s.take(end));
    }
}

/// Trimming takes away the white space after a text that does not begin or end with any.
pub proof fn lemma_trimmed_ending(s: Seq<char>, ending: Seq<char>)
    requires
        s.len() > 0 ==> !white_space(s.first()) && !white_space(s.last()),
        forall|i: int| 0 <= i < ending.len() ==> white_space(#[trigger] ending[i]),
    ensures
        trimmed(s + ending) == s,
{
    let all = s + ending;
    if s.len() == 0 {
        assert(all =~= ending);
        lemma_trimmed_start(all, all.len() as int);
        assert(all.skip(all.len() as int) =~= s);
    } else {
        assert(all.first() == s.first());
        lemma_trimmed_end(all, s.len() as int);
        assert(all.take(s.len() as int) =~= s);
    }
}

/// Trimming takes away the blanks before a text that does not begin or end with white space.
pub proof fn lemma_trimmed_blanks(blanks: Seq<char>, s: Seq<char>)
    requires
        s.len() > 0,
        !white_space(s.first()),
        !white_space(s.last()),
        forall|i: int| 0 <= i < blanks.len() ==> #[trigger] blanks[i] == ' ',
    ensures
        trimmed(blanks + s) == s,
{
    let all = blanks + s;
    assert(all[blanks.len() as int] == s.first());
    lemma_trimmed_start(all, blanks.len() as int);
    assert(all.skip(blanks.len() as int) =~= s);
}

/// Removes leading and trailing white space.
pub fn trim(s: &str) -> (res: &str)
    ensures
        res@ == trimmed(s@),
{
    let len: usize = s.unicode_len();
    let mut index: usize = 0;
    let mut start: usize = 0;
    let mut end: usize = 0;
    for c in it: s.chars()
        invariant
            it.seq() == s@,
            len == s@.len(),
            index == it.index(),
            start <= end <= index,
            forall|i: int| 0 <= i < start ==> white_space(#[trigger] s@[i]),
            end == 0 ==> start == 0 && forall|i: int| 0 <= i < index ==> white_space(#[trigger] s@[i]),
            end > 0 ==> start < end && !white_space(s@[start as int]) && !white_space(s@[end - 1]),
            forall|i: int| end <= i < index ==> white_space(#[trigger] s@[i]),
    {
        if !is_white_space(c) {
            if end == 0 {
                start = index;
            }
            end = index + 1;
        }
        index = index + 1;
    }
    proof {
        if end == 0 {
            lemma_trimmed_start(s@, len as int);
            assert(s@.skip(len as int) =~= Seq::<char>::empty());
        } else {
            lemma_trimmed_start(s@, start as int);
            let tail = s@.skip(start as int);
            assert forall|i: int| end - start <= i < tail.len() implies white_space(#[trigger] tail[i]) by {
                assert(tail[i] == s@[i + start]);
            }
            lemma_trimmed_end(tail, end - start);
        }
        assert(s@.subrange(start as int, end as int) =~= trimmed(s@));
    }
    s.substring_char(start, end)
}

/// ASCII lower case of one character; other characters are left alone.
pub open spec fn ascii_lower(c: char) -> char {
    if 'A' <= c <= 'Z' {
        ((c as u32) + 32) as char
    } else {
        c
    }
}

/// ASCII lower case of a text.
pub open spec fn ascii_lowercase(s: Seq<char>) -> Seq<char> {
    s.map_values(|c: char| ascii_lower(c))
}

fn to_ascii_lower(c: char) -> (lower: char)
    ensures
        lower == ascii_lower(c),
{
    if 'A' <= c && c <= 'Z' {
        ((c as u8) + 32) as char
    } else {
        c
    }
}

/// ASCII lower case of a text.
pub fn to_ascii_lowercase(s: &str) -> (res: String)
    ensures
        res@ == ascii_lowercase(s@),
{
    let mut res = String::new();
    for c in it: s.chars()
        invariant
            it.seq() == s@,
            res@ == ascii_lowercase(s@.take(it.index() as int)),
    {
        res.push(to_ascii_lower(c));
        assert(res@ =~= ascii_lowercase(s@.take(it.index() + 1)));
    }
    assert(s@.take(s@.len() as int) =~= s@);
    res
}

/// Whether two texts are equal.
pub fn same_text(a: &str, b: &str) -> (yes: bool)
    ensures
        yes == (a@ == b@),
{
    a.to_owned() == b.to_owned()
}

/// What follows `prefix` in `s`, if `s` begins with it.
pub open spec fn stripped(s: Seq<char>, prefix: Seq<char>) -> Option<Seq<char>> {
    if prefix.is_prefix_of(s) {
        Some(s.skip(prefix.len() as int))
    } else {
        None
    }
}

/// The text after `prefix`, if `s` begins with it.
pub fn strip_prefix<'a>(s: &'a str, prefix: &str) -> (rest: Option<&'a str>)
    ensures
        match rest {
            Some(rest) => stripped(s@, prefix@) == Some(rest@),
            None => stripped(s@, prefix@) is None,
        },
{
    let len: usize = s.unicode_len();
    let prefix_len: usize = prefix.unicode_len();
    if prefix_len > len {
        return None;
    }
    if same_text(s.substring_char(0, prefix_len), prefix) {
        assert(prefix@ =~= s@.subrange(0, prefix_len as int));
        assert(s@.subrange(prefix_len as int, len as int) =~= s@.skip(prefix_len as int));
        Some(s.substring_char(prefix_len, len))
    } else {
        assert(prefix@.is_prefix_of(s@) ==> prefix@ =~= s@.subrange(0, prefix_len as int));
        None
    }
}

/// The position of the first `c` in `s`, or the length of `s` if there is none.
pub open spec fn first_index(s: Seq<char>, c: char) -> int
    decreases s.len(),
{
    if s.len() == 0 || s.first() == c {
        0
    } else {
        1 + first_index(s.drop_first(), c)
    }
}

/// The position of the last `c` in `s`, or -1 if there is none.
pub open spec fn last_index(s: Seq<char>, c: char) -> int
    decreases s.len(),
{
    if s.len() == 0 {
        -1
    } else if s.last() == c {
        s.len() - 1
    } else {
        last_index(s.drop_last(), c)
    }
}

/// What `first_index` finds, given the position.
pub proof fn lemma_first_index(s: Seq<char>, c: char, at: int)
    requires
        0 <= at <= s.len(),
        forall|i: int| 0 <= i < at ==> #[trigger] s[i] != c,
        at < s.len() ==> s[at] == c,
    ensures
        first_index(s, c) == at,
    decreases at,
{
    if at > 0 {
        assert(s[0] != c);
        assert forall|i: int| 0 <= i < at - 1 implies #[trigger] s.drop_first()[i] != c by {
            assert(s.drop_first()[i] == s[i + 1]);
        }
        lemma_first_index(s.drop_first(), c, at - 1);
    }
}

/// What `last_index` finds, given the position.
pub proof fn lemma_last_index(s: Seq<char>, c: char, at: int)
    requires
        -1 <= at < s.len(),
        forall|i: int| at < i < s.len() ==> #[trigger] s[i] != c,
        at >= 0 ==> s[at] == c,
    ensures
        last_index(s, c) == at,
    decreases s.len(),
{
    if at + 1 < s.len() {
        assert(s[s.len() - 1] != c);
        lemma_last_index(s.drop_last(), c, at);
    }
}

/// `s` without one carriage return at its end.
pub open spec fn without_carriage_return(s: Seq<char>) -> Seq<char> {
    if s.len() > 0 && s.last() == '\r' {
        s.drop_last()
    } else {
        s
    }
}

/// The lines of a text. A line ends at a newline, which may follow a carriage
/// return that is not part of the line. The newline of the last line is optional.
pub open spec fn lines_of(s: Seq<char>) -> Seq<Seq<char>>
    decreases s.len(),
{
    let end = first_index(s, '\n');
    if s.len() == 0 {
        Seq::empty()
    } else if 0 <= end < s.len() {
        seq![without_carriage_return(s.take(end))] + lines_of(s.skip(end + 1))
    } else {
        seq![s]
    }
}

/// A text with one newline, at its end, is one line.
pub proof fn lemma_single_line(line: Seq<char>)
    requires
        forall|i: int| 0 <= i < line.len() ==> #[trigger] line[i] != '\n' && line[i] != '\r',
    ensures
        lines_of(line + seq!['\n']) == seq![line],
{
    let all = line + seq!['\n'];
    lemma_first_index(all, '\n', line.len() as int);
    assert(all.take(line.len() as int) =~= line);
    assert(without_carriage_return(line) == line);
    assert(all.skip(line.len() as int + 1) =~= Seq::<char>::empty());
    assert(lines_of(Seq::<char>::empty()) =~= Seq::<Seq<char>>::empty());
    assert(lines_of(all) =~= seq![line]);
}

/// The texts that a list of strings holds.
pub open spec fn texts(list: Seq<String>) -> Seq<Seq<char>> {
    list.map_values(|t: String| t@)
}

fn drop_carriage_return(line: String) -> (res: String)
    ensures
        res@ == without_carriage_return(line@),
{
    let len: usize = line.as_str().unicode_len();
    if len > 0 && line.as_str().get_char(len - 1) == '\r' {
        assert(line@.subrange(0, len - 1) =~= line@.drop_last());
        line.as_str().substring_char(0, len - 1).to_owned()
    } else {
        line
    }
}

/// Splits a text into its lines.
pub fn lines(s: &str) -> (list: Vec<String>)
    ensures
        texts(list@) == lines_of(s@),
{
    let mut list: Vec<String> = Vec::new();
    let mut current = String::new();
    assert(texts(list@) + lines_of(current@ + s@.skip(0)) =~= lines_of(s@)) by {
        assert(current@ + s@.skip(0) =~= s@);
    }
    for c in it: s.chars()
        invariant
            it.seq() == s@,
            forall|i: int| 0 <= i < current@.len() ==> #[trigger] current@[i] != '\n',
            texts(list@) + lines_of(current@ + s@.skip(it.index() as int)) == lines_of(s@),
    {
        let ghost rest = s@.skip(it.index() as int);
        let ghost before = current@;
        let ghost list_before = texts(list@);
        assert(rest.first() == c);
        if c == '\n' {
            proof {
                let whole = before + rest;
                lemma_first_index(whole, '\n', before.len() as int);
                assert(whole.take(before.len() as int) =~= before);
                assert(whole.skip(before.len() as int + 1) =~= s@.skip(it.index() + 1));
            }
            list.push(drop_carriage_return(current));
            current = String::new();
            assert(texts(list@) =~= list_before.push(without_carriage_return(before)));
            assert(current@ + s@.skip(it.index() + 1) =~= s@.skip(it.index() + 1));
            assert(texts(list@) + lines_of(s@.skip(it.index() + 1)) =~= list_before + lines_of(
                before + rest,
            ));
        } else {
            current.push(c);
            assert(current@ + s@.skip(it.index() + 1) =~= before + rest);
        }
    }
    assert(current@ + s@.skip(s@.len() as int) =~= current@);
    if current.as_str().is_empty() {
        assert(texts(list@) + lines_of(current@) =~= texts(list@));
        list
    } else {
        proof {
            lemma_first_index(current@, '\n', current@.len() as int);
        }
        let ghost list_before = texts(list@);
        let ghost last = current@;
        list.push(current);
        assert(texts(list@) =~= list_before + seq![last]);
        list
    }
}

/// What follows `prefix` in the first of the lines that begins with it.
pub open spec fn first_stripped(list: Seq<Seq<char>>, prefix: Seq<char>) -> Option<Seq<char>>
    decreases list.len(),
{
    if list.len() == 0 {
        None
    } else if prefix.is_prefix_of(list.first()) {
        stripped(list.first(), prefix)
    } else {
        first_stripped(list.drop_first(), prefix)
    }
}

/// The rest of the first line of `s` that begins with `prefix`.
pub fn find_line_after_prefix(s: &str, prefix: &str) -> (rest: Option<String>)
    ensures
        match rest {
            Some(rest) => first_stripped(lines_of(s@), prefix@) == Some(rest@),
            None => first_stripped(lines_of(s@), prefix@) is None,
        },
{
    let list = lines(s);
    let ghost all = lines_of(s@);
    assert(all.skip(0) =~= all);
    for i in 0..list.len()
        invariant
            all == lines_of(s@),
            texts(list@) == all,
            first_stripped(all, prefix@) == first_stripped(all.skip(i as int), prefix@),
    {
        assert(all.skip(i as int).first() == list@[i as int]@);
        assert(all.skip(i as int).drop_first() =~= all.skip(i + 1));
        match strip_prefix(list[i].as_str(), prefix) {
            Some(rest) => {
                return Some(rest.to_owned());
            },
            None => {},
        }
    }
    None
}

/// Trimming takes white space away at both ends, all of it, and nothing else.
pub proof fn law_trimming_takes_outer_white_space(s: Seq<char>)
    ensures
        exists|start: int, end: int|
            {
                &&& 0 <= start <= end <= s.len()
                &&& trimmed(s) == #[trigger] s.subrange(start, end)
                &&& forall|i: int| 0 <= i < start ==> white_space(#[trigger] s[i])
                &&& forall|i: int| end <= i < s.len() ==> white_space(#[trigger] s[i])
                &&& start < end ==> !white_space(s[start]) && !white_space(s[end - 1])
            },
{
    let start = lemma_start_of_text(s);
    lemma_trimmed_start(s, start);
    let tail = s.skip(start);
    let kept = lemma_end_of_text(tail);
    lemma_trimmed_end(tail, kept);
    let end = start + kept;
    assert(tail.take(kept) =~= s.subrange(start, end));
    assert forall|i: int| end <= i < s.len() implies white_space(#[trigger] s[i]) by {
        assert(tail[i - start] == s[i]);
    }
    if kept > 0 {
        assert(tail[kept - 1] == s[end - 1]);
    }
}

proof fn lemma_start_of_text(s: Seq<char>) -> (start: int)
    ensures
        0 <= start <= s.len(),
        forall|i: int| 0 <= i < start ==> white_space(#[trigger] s[i]),
        start < s.len() ==> !white_space(s[start]),
    decreases s.len(),
{
    if s.len() > 0 && white_space(s[0]) {
        let rest = lemma_start_of_text(s.drop_first());
        assert forall|i: int| 0 <= i < rest + 1 implies white_space(#[trigger] s[i]) by {
            if i > 0 {
                assert(s.drop_first()[i - 1] == s[i]);
            }
        }
        rest + 1
    } else {
        0
    }
}

proof fn lemma_end_of_text(s: Seq<char>) -> (end: int)
    ensures
        0 <= end <= s.len(),
        forall|i: int| end <= i < s.len() ==> white_space(#[trigger] s[i]),
        end > 0 ==> !white_space(s[end - 1]),
    decreases s.len(),
{
    if s.len() > 0 && white_space(s[s.len() - 1]) {
        let end = lemma_end_of_text(s.drop_last());
        assert forall|i: int| end <= i < s.len() implies white_space(#[trigger] s[i]) by {
            if i < s.len() - 1 {
                assert(s.drop_last()[i] == s[i]);
            }
        }
        end
    } else {
        s.len() as int
    }
}

/// Lower case changes the letters from `A` to `Z`, each to the letter 32 places
/// further on, and nothing else.
pub proof fn law_lower_case_changes_ascii_capitals_only(s: Seq<char>, i: int)
    requires
        0 <= i < s.len(),
    ensures
        ascii_lowercase(s).len() == s.len(),
        'A' <= s[i] <= 'Z' ==> ascii_lowercase(s)[i] as int == s[i] as int + 32,
        !('A' <= s[i] <= 'Z') ==> ascii_lowercase(s)[i] == s[i],
{
}

/// What is left behind a prefix makes up the text together with the prefix, and
/// there is nothing left exactly if the text does not begin with the prefix.
pub proof fn law_prefix_and_rest_make_the_text(s: Seq<char>, prefix: Seq<char>, rest: Seq<char>)
    ensures
        stripped(s, prefix) == Some(rest) <==> s == prefix + rest,
{
    if stripped(s, prefix) == Some(rest) {
        assert(s =~= prefix + rest);
    }
    if s == prefix + rest {
        assert(prefix.is_prefix_of(s));
        assert(s.skip(prefix.len() as int) =~= rest);
    }
}

/// Of several lines with a prefix the first one counts, and what counts of it is
/// all that follows the prefix.
pub proof fn law_first_line_with_prefix_counts(
    list: Seq<Seq<char>>,
    prefix: Seq<char>,
    at: int,
    rest: Seq<char>,
)
    requires
        0 <= at < list.len(),
        list[at] == prefix + rest,
        forall|i: int| 0 <= i < at ==> !prefix.is_prefix_of(#[trigger] list[i]),
    ensures
        first_stripped(list, prefix) == Some(rest),
    decreases at,
{
    if at == 0 {
        law_prefix_and_rest_make_the_text(list[0], prefix, rest);
        assert(prefix.is_prefix_of(list[0]));
    } else {
        assert(!prefix.is_prefix_of(list[0]));
        assert forall|i: int| 0 <= i < at - 1 implies !prefix.is_prefix_of(
            #[trigger] list.drop_first()[i],
        ) by {
            assert(list.drop_first()[i] == list[i + 1]);
        }
        law_first_line_with_prefix_counts(list.drop_first(), prefix, at - 1, rest);
    }
}

/// Nothing is found where no line begins with the prefix.
pub proof fn law_nothing_is_found_without_prefix(list: Seq<Seq<char>>, prefix: Seq<char>)
    requires
        forall|i: int| 0 <= i < list.len() ==> !prefix.is_prefix_of(#[trigger] list[i]),
    ensures
        first_stripped(list, prefix) is None,
    decreases list.len(),
{
    if list.len() > 0 {
        assert(!prefix.is_prefix_of(list[0]));
        assert forall|i: int| 0 <= i < list.drop_first().len() implies !prefix.is_prefix_of(
            #[trigger] list.drop_first()[i],
        ) by {
            assert(list.drop_first()[i] == list[i + 1]);
        }
        law_nothing_is_found_without_prefix(list.drop_first(), prefix);
    }
}

/// The lines of a text are what stands before its first line ending and then the
/// lines of what follows. A line ending is a newline, or a carriage return and a
/// newline. A last line needs no ending.
pub proof fn law_lines_are_split_at_line_endings(line: Seq<char>, rest: Seq<char>)
    requires
        !line.contains('\n'),
    ensures
        line.len() == 0 || line.last() != '\r' ==> lines_of(line + seq!['\n'] + rest) == seq![line]
            + lines_of(rest),
        lines_of(line + seq!['\r', '\n'] + rest) == seq![line] + lines_of(rest),
        line.len() > 0 ==> lines_of(line) == seq![line],
        lines_of(Seq::<char>::empty()) == Seq::<Seq<char>>::empty(),
{
    assert forall|i: int| 0 <= i < line.len() implies #[trigger] line[i] != '\n' by {
        assert(line.contains(line[i]));
    }
    let plain = line + seq!['\n'] + rest;
    lemma_first_index(plain, '\n', line.len() as int);
    assert(plain.take(line.len() as int) =~= line);
    assert(plain.skip(line.len() as int + 1) =~= rest);
    let longer = line.push('\r');
    let dos = line + seq!['\r', '\n'] + rest;
    lemma_first_index(dos, '\n', longer.len() as int);
    assert(dos.take(longer.len() as int) =~= longer);
    assert(dos.skip(longer.len() as int + 1) =~= rest);
    assert(longer.drop_last() =~= line);
    lemma_first_index(line, '\n', line.len() as int);
}


} // verus!
