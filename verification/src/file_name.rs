//! File names and extensions of paths.
//!
//! Components are separated by slashes, by backslashes or by both, as the host has
//! it. Where backslashes separate, a path may begin with a prefix, such as a drive,
//! which only the standard library takes apart.

use crate::text::{last_index, lemma_last_index, same_text};
use vstd::prelude::*;

verus! {

/// The characters that separate the components of a path on a host.
#[derive(Debug, Clone, Copy, PartialEq, Eq, Structural)]
pub struct Separators {
    pub slash: bool,
    pub backslash: bool,
}

/// Only slashes separate.
pub open spec fn slashes() -> Separators {
    Separators { slash: true, backslash: false }
}

/// Only backslashes separate.
pub open spec fn backslashes() -> Separators {
    Separators { slash: false, backslash: true }
}

/// Slashes and backslashes separate.
pub open spec fn both() -> Separators {
    Separators { slash: true, backslash: true }
}

/// Whether a character separates the components of a path.
pub open spec fn separator(c: char, seps: Separators) -> bool {
    (seps.slash && c == '/') || (seps.backslash && c == '\\')
}

/// The position of the last separator of a path, or -1 if there is none.
pub open spec fn last_separator(path: Seq<char>, seps: Separators) -> int
    decreases path.len(),
{
    if path.len() == 0 {
        -1
    } else if separator(path.last(), seps) {
        path.len() - 1
    } else {
        last_separator(path.drop_last(), seps)
    }
}

/// The name of the file that a path leads to: its last component, where empty
/// components and `.` do not count. There is none if no component is left or if
/// the last one is `..`.
pub open spec fn file_name_of(path: Seq<char>, seps: Separators) -> Option<Seq<char>>
    decreases path.len(),
{
    let at = last_separator(path, seps);
    let last = path.skip(at + 1);
    if last.len() == 0 || last == seq!['.'] {
        if 0 <= at < path.len() {
            file_name_of(path.take(at), seps)
        } else {
            None
        }
    } else if last == seq!['.', '.'] {
        None
    } else {
        Some(last)
    }
}

/// What follows the last dot of a file name. There is none without a dot, nor if
/// the only dot is the first character.
pub open spec fn extension_of_name(name: Seq<char>) -> Option<Seq<char>> {
    let dot = last_index(name, '.');
    if dot <= 0 {
        None
    } else {
        Some(name.skip(dot + 1))
    }
}

/// The extension of the file that a path without a prefix leads to.
pub open spec fn extension_of(path: Seq<char>, seps: Separators) -> Option<Seq<char>> {
    match file_name_of(path, seps) {
        Some(name) => extension_of_name(name),
        None => None,
    }
}

/// Whether a path may begin with a prefix, on hosts that have them: a drive letter
/// with its colon, or what follows two separators.
pub open spec fn maybe_prefixed(path: Seq<char>) -> bool {
    &&& path.len() >= 2
    &&& path[1] == ':' || (separator(path[0], both()) && separator(path[1], both()))
}

/// A stretch of a path that begins behind one of its dots and has no dot itself.
pub open spec fn follows_dot(path: Seq<char>, ext: Seq<char>) -> bool {
    &&& !ext.contains('.')
    &&& exists|dot: int|
        0 <= dot && dot + 1 + ext.len() <= path.len() && #[trigger] path[dot] == '.'
            && path.subrange(dot + 1, dot + 1 + ext.len()) == ext
}

/// What every host makes of a path that has a colon as its second character. Which
/// characters separate, and whether the first two are a drive that is no part of the
/// file's name, is for the host to say.
pub open spec fn drive_extension_of(path: Seq<char>, ext: Option<Seq<char>>) -> bool {
    path.len() >= 2 && path[1] == ':' ==> {
        ||| ext == extension_of(path, slashes())
        ||| ext == extension_of(path, backslashes())
        ||| ext == extension_of(path, both())
        ||| ext == extension_of(path.skip(2), both())
    }
}

/// Whether `ext` is the extension of a path on a host with the given separators.
/// Where backslashes separate, the extension of a path that may have a prefix is what
/// the standard library says. Of that, what holds on every host is known, and of a
/// path that begins with two separators only the shape.
pub open spec fn host_extension_of(
    path: Seq<char>,
    seps: Separators,
    ext: Option<Seq<char>>,
) -> bool {
    if seps.backslash && maybe_prefixed(path) {
        &&& drive_extension_of(path, ext)
        &&& ext matches Some(ext) ==> follows_dot(path, ext)
    } else {
        ext == extension_of(path, seps)
    }
}

/// `std::path::is_separator`. The answer is that of the platform for which the
/// library was built, so nothing is said of it.
#[verifier::external_body]
fn is_separator(c: char) -> (yes: bool) {
    std::path::is_separator(c)
}

/// The separators of the platform for which the library was built.
pub(crate) fn platform_separators() -> (seps: Separators) {
    Separators { slash: is_separator('/'), backslash: is_separator('\\') }
}

/// An optional text as a plain value.
pub open spec fn optional_text(text: Option<&str>) -> Option<Seq<char>> {
    match text {
        Some(text) => Some(text@),
        None => None,
    }
}

/// `Path::extension`. What it makes of a path is a matter of the platform. On each,
/// an extension is what follows the last dot of the file's name. The name is the last
/// component of the path, as the platform separates them, and a drive is no part of
/// it where the platform has drives. Nothing but the shape is said of what other
/// prefixes leave.
#[verifier::external_body]
fn platform_extension<'a>(path: &'a str) -> (ext: Option<&'a str>)
    ensures
        drive_extension_of(path@, optional_text(ext)),
        ext matches Some(ext) ==> follows_dot(path@, ext@),
{
    std::path::Path::new(path).extension().and_then(|ext| ext.to_str())
}

proof fn lemma_last_separator(path: Seq<char>, seps: Separators, at: int)
    requires
        -1 <= at < path.len(),
        forall|i: int| at < i < path.len() ==> !separator(#[trigger] path[i], seps),
        at >= 0 ==> separator(path[at], seps),
    ensures
        last_separator(path, seps) == at,
    decreases path.len(),
{
    if at + 1 < path.len() {
        assert(!separator(path[path.len() - 1], seps));
        lemma_last_separator(path.drop_last(), seps, at);
    }
}

/// Splits a path at its last separator: what stands before it and what stands after
/// it, or nothing and the whole path if there is none.
fn split_at_last_separator<'a>(path: &'a str, seps: Separators) -> (res: (Option<&'a str>, &'a str))
    ensures
        match res.0 {
            Some(before) => {
                &&& 0 <= last_separator(path@, seps) < path@.len()
                &&& before@ == path@.take(last_separator(path@, seps))
            },
            None => last_separator(path@, seps) == -1,
        },
        res.1@ == path@.skip(last_separator(path@, seps) + 1),
{
    let len: usize = path.unicode_len();
    let mut index: usize = 0;
    let mut after: usize = 0;
    for ch in it: path.chars()
        invariant
            it.seq() == path@,
            len == path@.len(),
            index == it.index(),
            after <= index,
            after > 0 ==> separator(path@[after - 1], seps),
            forall|i: int| after <= i < index ==> !separator(#[trigger] path@[i], seps),
    {
        if (seps.slash && ch == '/') || (seps.backslash && ch == '\\') {
            after = index + 1;
        }
        index = index + 1;
    }
    proof {
        lemma_last_separator(path@, seps, after - 1);
        assert(path@.subrange(after as int, len as int) =~= path@.skip(after as int));
    }
    if after == 0 {
        (None, path.substring_char(0, len))
    } else {
        assert(path@.subrange(0, after - 1) =~= path@.take(after - 1));
        (Some(path.substring_char(0, after - 1)), path.substring_char(after, len))
    }
}

/// The name of the file that a path without a prefix leads to.
pub fn file_name<'a>(path: &'a str, seps: Separators) -> (name: Option<&'a str>)
    ensures
        match name {
            Some(name) => file_name_of(path@, seps) == Some(name@),
            None => file_name_of(path@, seps) is None,
        },
{
    proof {
        reveal_strlit(".");
        reveal_strlit("..");
        assert("."@ =~= seq!['.']);
        assert(".."@ =~= seq!['.', '.']);
    }
    let mut rest: &'a str = path;
    loop
        invariant
            file_name_of(rest@, seps) == file_name_of(path@, seps),
            "."@ == seq!['.'],
            ".."@ == seq!['.', '.'],
        decreases rest@.len(),
    {
        let (before, last) = split_at_last_separator(rest, seps);
        if last.is_empty() || same_text(last, ".") {
            match before {
                Some(before) => {
                    rest = before;
                },
                None => {
                    return None;
                },
            }
        } else if same_text(last, "..") {
            return None;
        } else {
            return Some(last);
        }
    }
}

/// What follows the last dot of a file name.
fn name_extension<'a>(name: &'a str) -> (ext: Option<&'a str>)
    ensures
        match ext {
            Some(ext) => extension_of_name(name@) == Some(ext@),
            None => extension_of_name(name@) is None,
        },
{
    let len: usize = name.unicode_len();
    let mut index: usize = 0;
    let mut after: usize = 0;
    for ch in it: name.chars()
        invariant
            it.seq() == name@,
            len == name@.len(),
            index == it.index(),
            after <= index,
            after > 0 ==> name@[after - 1] == '.',
            forall|i: int| after <= i < index ==> #[trigger] name@[i] != '.',
    {
        if ch == '.' {
            after = index + 1;
        }
        index = index + 1;
    }
    proof {
        lemma_last_index(name@, '.', after - 1);
        assert(name@.subrange(after as int, len as int) =~= name@.skip(after as int));
    }
    if after <= 1 {
        None
    } else {
        Some(name.substring_char(after, len))
    }
}

/// The extension of the file that a path without a prefix leads to.
pub fn extension<'a>(path: &'a str, seps: Separators) -> (ext: Option<&'a str>)
    ensures
        match ext {
            Some(ext) => extension_of(path@, seps) == Some(ext@),
            None => extension_of(path@, seps) is None,
        },
{
    match file_name(path, seps) {
        Some(name) => name_extension(name),
        None => None,
    }
}

/// The extension of the file that a path leads to, on a host with the given
/// separators.
pub fn host_extension<'a>(path: &'a str, seps: Separators) -> (ext: Option<&'a str>)
    ensures
        host_extension_of(path@, seps, optional_text(ext)),
{
    if seps.backslash && path.unicode_len() >= 2 {
        let first: char = path.get_char(0);
        let second: char = path.get_char(1);
        if second == ':' || ((first == '/' || first == '\\') && (second == '/' || second == '\\')) {
            return platform_extension(path);
        }
    }
    extension(path, seps)
}

/// Where slashes separate, a path without backslashes and without a prefix has the
/// same extension on every host.
pub proof fn law_plain_paths_are_portable(path: Seq<char>, ext: Option<Seq<char>>)
    requires
        !path.contains('\\'),
        !maybe_prefixed(path),
    ensures
        host_extension_of(path, both(), ext) == host_extension_of(path, slashes(), ext),
{
    lemma_plain_file_name(path);
}

/// Whether a path is a directory, which may be empty and otherwise ends with a
/// separator, and the name of a file in it that has an extension. A prefix that
/// begins with two separators is left out, and so is a drive that `dir` does not
/// hold.
pub open spec fn file_in_directory(dir: Seq<char>, name: Seq<char>) -> bool {
    let path = dir + name;
    &&& dir.len() > 0 ==> separator(dir.last(), both())
    &&& forall|i: int| 0 <= i < name.len() ==> !separator(#[trigger] name[i], both())
    &&& name != seq!['.', '.']
    &&& extension_of_name(name) is Some
    &&& path[1] == ':' ==> dir.len() > 2
    &&& !(separator(path[0], both()) && separator(path[1], both()))
}

/// A file in a directory has the extension of its name on every host, with a drive
/// before the directory and without one.
pub proof fn law_files_keep_their_extension(
    dir: Seq<char>,
    name: Seq<char>,
    seps: Separators,
    ext: Option<Seq<char>>,
)
    requires
        file_in_directory(dir, name),
        host_extension_of(dir + name, seps, ext),
    ensures
        ext == extension_of_name(name),
{
    let path = dir + name;
    lemma_last_index_facts(name, '.');
    lemma_extension_in_directory(dir, name, seps);
    if seps.backslash && path[1] == ':' {
        lemma_extension_in_directory(dir, name, slashes());
        lemma_extension_in_directory(dir, name, backslashes());
        lemma_extension_in_directory(dir, name, both());
        lemma_extension_in_directory(dir.skip(2), name, both());
        assert(path.skip(2) =~= dir.skip(2) + name);
    }
}

/// Whichever characters separate, the last component of a file in a directory ends
/// with the name of the file.
proof fn lemma_extension_in_directory(dir: Seq<char>, name: Seq<char>, seps: Separators)
    requires
        dir.len() > 0 ==> separator(dir.last(), both()),
        forall|i: int| 0 <= i < name.len() ==> !separator(#[trigger] name[i], both()),
        name != seq!['.', '.'],
        extension_of_name(name) is Some,
    ensures
        extension_of(dir + name, seps) == extension_of_name(name),
{
    let path = dir + name;
    lemma_last_separator_facts(path, seps);
    let at = last_separator(path, seps);
    if at >= dir.len() {
        assert(path[at] == name[at - dir.len()]);
    }
    let last = path.skip(at + 1);
    let start = dir.len() - at - 1;
    assert(last.skip(start) =~= name);
    lemma_extension_of_suffix(last, name, start);
    if start > 0 {
        assert(last[start - 1] == dir.last());
    } else {
        assert(last =~= name);
    }
    lemma_last_component(path, seps, start - 1);
}

/// The last component of a path is the name of the file if it has an extension and
/// is not `..`, which holds of it where one of its characters is no dot.
proof fn lemma_last_component(path: Seq<char>, seps: Separators, other: int)
    requires
        ({
            let last = path.skip(last_separator(path, seps) + 1);
            &&& extension_of_name(last) is Some
            &&& last != seq!['.', '.'] || (0 <= other < last.len() && last[other] != '.')
        }),
    ensures
        file_name_of(path, seps) == Some(path.skip(last_separator(path, seps) + 1)),
{
    let last = path.skip(last_separator(path, seps) + 1);
    lemma_last_index_facts(last, '.');
    assert(last.len() >= 2);
    assert(seq!['.'].len() == 1);
}

/// What `last_separator` finds is a separator of the path.
proof fn lemma_last_separator_facts(path: Seq<char>, seps: Separators)
    ensures
        -1 <= last_separator(path, seps) < path.len(),
        last_separator(path, seps) >= 0 ==> separator(path[last_separator(path, seps)], seps),
    decreases path.len(),
{
    if path.len() > 0 && !separator(path.last(), seps) {
        lemma_last_separator_facts(path.drop_last(), seps);
    }
}

/// What `last_index` finds is there, and nothing like it follows.
proof fn lemma_last_index_facts(s: Seq<char>, c: char)
    ensures
        -1 <= last_index(s, c) < s.len(),
        last_index(s, c) >= 0 ==> s[last_index(s, c)] == c,
        forall|i: int| last_index(s, c) < i < s.len() ==> #[trigger] s[i] != c,
    decreases s.len(),
{
    if s.len() > 0 && s.last() != c {
        lemma_last_index_facts(s.drop_last(), c);
        assert forall|i: int| last_index(s, c) < i < s.len() implies #[trigger] s[i] != c by {
            if i < s.len() - 1 {
                assert(s.drop_last()[i] == s[i]);
            }
        }
    }
}

/// A text that ends with a name that has an extension has that extension.
proof fn lemma_extension_of_suffix(text: Seq<char>, name: Seq<char>, start: int)
    requires
        0 <= start <= text.len(),
        text.skip(start) == name,
        extension_of_name(name) is Some,
    ensures
        extension_of_name(text) == extension_of_name(name),
{
    lemma_last_index_facts(name, '.');
    let dot = last_index(name, '.');
    assert(text[start + dot] == name[dot]);
    assert forall|i: int| start + dot < i < text.len() implies #[trigger] text[i] != '.' by {
        assert(text[i] == name[i - start]);
    }
    lemma_last_index(text, '.', start + dot);
    assert(text.skip(start + dot + 1) =~= name.skip(dot + 1));
}

proof fn lemma_plain_last_separator(path: Seq<char>)
    requires
        !path.contains('\\'),
    ensures
        last_separator(path, both()) == last_separator(path, slashes()),
        last_separator(path, both()) < path.len(),
    decreases path.len(),
{
    if path.len() > 0 {
        assert(path[path.len() - 1] != '\\');
        assert forall|i: int| 0 <= i < path.drop_last().len() implies path.drop_last()[i] != '\\' by {
            assert(path[i] != '\\');
        }
        lemma_plain_last_separator(path.drop_last());
    }
}

proof fn lemma_plain_file_name(path: Seq<char>)
    requires
        !path.contains('\\'),
    ensures
        file_name_of(path, both()) == file_name_of(path, slashes()),
    decreases path.len(),
{
    lemma_plain_last_separator(path);
    let at = last_separator(path, both());
    if 0 <= at {
        assert forall|i: int| 0 <= i < path.take(at).len() implies path.take(at)[i] != '\\' by {
            assert(path[i] != '\\');
        }
        lemma_plain_file_name(path.take(at));
    }
}

/// The extension of a name is what follows its last dot: one that has no dot itself
/// and stands behind a dot that is not the first character.
pub proof fn law_extension_follows_the_last_dot(stem: Seq<char>, ext: Seq<char>)
    requires
        stem.len() > 0,
        !ext.contains('.'),
    ensures
        extension_of_name(stem + seq!['.'] + ext) == Some(ext),
{
    let name = stem + seq!['.'] + ext;
    assert forall|i: int| stem.len() < i < name.len() implies #[trigger] name[i] != '.' by {
        assert(ext.contains(ext[i - stem.len() - 1]));
        assert(name[i] == ext[i - stem.len() - 1]);
    }
    lemma_last_index(name, '.', stem.len() as int);
    assert(name.skip(stem.len() as int + 1) =~= ext);
}

/// A name without a dot has no extension, with a dot before it or without.
pub proof fn law_no_extension_without_dot(name: Seq<char>)
    requires
        !name.contains('.'),
    ensures
        extension_of_name(name) is None,
        extension_of_name(seq!['.'] + name) is None,
{
    assert forall|i: int| 0 <= i < name.len() implies #[trigger] name[i] != '.' by {
        assert(name.contains(name[i]));
    }
    lemma_last_index(name, '.', -1);
    let hidden = seq!['.'] + name;
    assert forall|i: int| 0 < i < hidden.len() implies #[trigger] hidden[i] != '.' by {
        assert(hidden[i] == name[i - 1]);
    }
    lemma_last_index(hidden, '.', 0);
}

/// The name of a file is what follows the last separator of its path: a text without
/// separators that is neither empty nor `.` nor `..`. A path without separators is a
/// name itself. After a separator, nothing and `.` leave the name as it is, and `..`
/// leaves none.
pub proof fn law_file_name_is_the_last_component(
    path: Seq<char>,
    sep: char,
    name: Seq<char>,
    seps: Separators,
)
    requires
        (seps.slash && sep == '/') || (seps.backslash && sep == '\\'),
        seps.slash ==> !name.contains('/'),
        seps.backslash ==> !name.contains('\\'),
        name.len() > 0,
        name != seq!['.'],
        name != seq!['.', '.'],
    ensures
        file_name_of(path + seq![sep] + name, seps) == Some(name),
        file_name_of(name, seps) == Some(name),
        file_name_of(path + seq![sep], seps) == file_name_of(path, seps),
        file_name_of(path + seq![sep, '.'], seps) == file_name_of(path, seps),
        file_name_of(path + seq![sep, '.', '.'], seps) is None,
        file_name_of(Seq::<char>::empty(), seps) is None,
        file_name_of(seq!['.'], seps) is None,
        file_name_of(seq!['.', '.'], seps) is None,
{
    let at = path.len() as int;
    lemma_component(path, sep, name, seps);
    assert forall|i: int| 0 <= i < name.len() implies !separator(#[trigger] name[i], seps) by {
        assert(name.contains(name[i]));
    }
    lemma_last_separator(name, seps, -1);
    assert(name.skip(0) =~= name);
    assert(file_name_of(name, seps) == Some(name));
    lemma_component(path, sep, Seq::empty(), seps);
    assert(path + seq![sep] + Seq::<char>::empty() =~= path + seq![sep]);
    lemma_component(path, sep, seq!['.'], seps);
    assert(path + seq![sep] + seq!['.'] =~= path + seq![sep, '.']);
    lemma_component(path, sep, seq!['.', '.'], seps);
    assert(path + seq![sep] + seq!['.', '.'] =~= path + seq![sep, '.', '.']);
    assert(seq!['.', '.'].len() == 2 && seq!['.'].len() == 1);
    lemma_short_paths(seps);
}

proof fn lemma_component(path: Seq<char>, sep: char, last: Seq<char>, seps: Separators)
    requires
        separator(sep, seps),
        seps.slash ==> !last.contains('/'),
        seps.backslash ==> !last.contains('\\'),
    ensures
        file_name_of(path + seq![sep] + last, seps) == (if last.len() == 0 || last == seq!['.'] {
            file_name_of(path, seps)
        } else if last == seq!['.', '.'] {
            None
        } else {
            Some(last)
        }),
{
    let whole = path + seq![sep] + last;
    let at = path.len() as int;
    assert forall|i: int| at < i < whole.len() implies !separator(#[trigger] whole[i], seps) by {
        assert(whole[i] == last[i - at - 1]);
        assert(last.contains(last[i - at - 1]));
    }
    lemma_last_separator(whole, seps, at);
    assert(whole.skip(at + 1) =~= last);
    assert(whole.take(at) =~= path);
}

proof fn lemma_short_paths(seps: Separators)
    ensures
        file_name_of(Seq::<char>::empty(), seps) is None,
        file_name_of(seq!['.'], seps) is None,
        file_name_of(seq!['.', '.'], seps) is None,
{
    let empty = Seq::<char>::empty();
    let one = seq!['.'];
    let two = seq!['.', '.'];
    assert(last_separator(empty, seps) == -1);
    assert(empty.skip(0) =~= empty);
    lemma_last_separator(one, seps, -1);
    assert(one.skip(0) =~= one);
    lemma_last_separator(two, seps, -1);
    assert(two.skip(0) =~= two);
    assert(two.len() == 2 && one.len() == 1);
}

/// The extension of a path is that of the name of its file, and a path without a
/// name has none. On a host this holds of every path that cannot have a prefix.
pub proof fn law_extension_is_that_of_the_name(
    path: Seq<char>,
    seps: Separators,
    ext: Option<Seq<char>>,
)
    ensures
        extension_of(path, seps) == (match file_name_of(path, seps) {
            Some(name) => extension_of_name(name),
            None => None::<Seq<char>>,
        }),
        !seps.backslash ==> (host_extension_of(path, seps, ext) <==> ext == extension_of(path, seps)),
        path.len() < 2 || (path[1] != ':' && path[1] != '/' && path[1] != '\\') ==> (
        host_extension_of(path, seps, ext) <==> ext == extension_of(path, seps)),
        path.len() > 0 && path[0] != '/' && path[0] != '\\' && (path.len() < 2 || path[1] != ':') ==> (
        host_extension_of(path, seps, ext) <==> ext == extension_of(path, seps)),
{
}


/// An optional text keeps its characters, also where it has none.
pub proof fn law_optional_text_is_kept(text: &str)
    ensures
        optional_text(Some(text)) == Some(text@),
        optional_text(None) is None,
{
}


} // verus!
