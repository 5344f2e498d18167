//! What a package manifest is, and how the package's name is read from it.
//!
//! A manifest is a file named [`MANIFEST_FILE_NAME`]. It declares a package
//! when its text holds [`PACKAGE_MARKER`]. The name is taken from the first
//! line that, trimmed, starts with [`NAME_KEY`]: it is what follows the first
//! `=` on that line, trimmed of white space and then of double quotes.

use crate::text::{
    chars_of, contains, law_strip_takes_the_runs_at_both_ends, leading, leading_run,
    lemma_leading_run, occurs_in, starts_with, strip, strip_range, trim, CharClass,
};
use vstd::prelude::*;
use vstd::slice::slice_subrange;
use vstd::string::*;

verus! {

/// The file name that makes a file a manifest.
pub const MANIFEST_FILE_NAME: &'static str = "Cargo.toml";

/// The text that a manifest holds when it declares a package.
pub const PACKAGE_MARKER: &'static str = "[package]";

/// The key that starts the line which gives the package's name.
pub const NAME_KEY: &'static str = "name";

/// The lines of `s`: the pieces between its line feeds. After a final line
/// feed comes one last, empty line.
pub open spec fn lines(s: Seq<char>) -> Seq<Seq<char>>
    decreases s.len(),
{
    let end = leading(s, CharClass::Except('\n')) as int;
    if end >= s.len() {
        seq![s]
    } else {
        seq![s.take(end)] + lines(s.skip(end + 1))
    }
}

/// `lines` with a line feed between each two of them.
pub open spec fn joined(lines: Seq<Seq<char>>) -> Seq<char>
    decreases lines.len(),
{
    if lines.len() == 0 {
        Seq::empty()
    } else if lines.len() == 1 {
        lines[0]
    } else {
        lines[0] + seq!['\n'] + joined(lines.drop_first())
    }
}

/// Whether `line`, trimmed, starts with the name key.
pub open spec fn is_name_line(line: Seq<char>) -> bool {
    NAME_KEY@.is_prefix_of(trim(line))
}

/// The first of `lines` that is a name line, trimmed.
pub open spec fn first_name_line(lines: Seq<Seq<char>>) -> Option<Seq<char>>
    decreases lines.len(),
{
    if lines.len() == 0 {
        None
    } else if is_name_line(lines[0]) {
        Some(trim(lines[0]))
    } else {
        first_name_line(lines.drop_first())
    }
}

/// The value that `line` gives: what follows its first `=`, trimmed of white
/// space and then of double quotes. A line without `=` gives none.
pub open spec fn name_value(line: Seq<char>) -> Option<Seq<char>> {
    let eq = leading(line, CharClass::Except('=')) as int;
    if eq >= line.len() {
        None
    } else {
        Some(strip(trim(line.skip(eq + 1)), CharClass::Only('"')))
    }
}

/// The package name that a manifest with the text `contents` declares.
pub open spec fn package_name(contents: Seq<char>) -> Option<Seq<char>> {
    match first_name_line(lines(contents)) {
        Some(line) => name_value(line),
        None => None,
    }
}

/// Whether a manifest with the text `contents` declares a package.
pub open spec fn has_package_marker(contents: Seq<char>) -> bool {
    occurs_in(PACKAGE_MARKER@, contents)
}

/// Tells whether `name` is the file name of a manifest.
pub fn is_manifest_file_name(name: &str) -> (b: bool)
    ensures
        b == (name@ == MANIFEST_FILE_NAME@),
{
    let given = chars_of(name);
    let wanted = chars_of(MANIFEST_FILE_NAME);
    assert(given@.subrange(0, given@.len() as int) == given@);
    given.len() == wanted.len() && starts_with(given.as_slice(), wanted.as_slice())
}

/// Tells whether a manifest with the text `contents` declares a package.
pub fn declares_package(contents: &str) -> (b: bool)
    ensures
        b == has_package_marker(contents@),
{
    let chars = chars_of(contents);
    let marker = chars_of(PACKAGE_MARKER);
    contains(chars.as_slice(), marker.as_slice())
}

/// Reads the package name from the text of a manifest.
pub fn extract_package_name(contents: &str) -> (name: Option<String>)
    ensures
        name.deep_view() == package_name(contents@),
{
    let all = chars_of(contents);
    let chars = all.as_slice();
    let key = chars_of(NAME_KEY);
    let n = chars.len();
    let mut start: usize = 0;
    assert(chars@.skip(0) == chars@);
    loop
        invariant
            n == chars@.len(),
            chars@ == contents@,
            key@ == NAME_KEY@,
            start <= n,
            first_name_line(lines(chars@)) == first_name_line(lines(chars@.skip(start as int))),
        decreases n - start,
    {
        let rest = slice_subrange(chars, start, n);
        let len = leading_run(rest, CharClass::Except('\n'));
        proof {
            lemma_leading_run(rest@, CharClass::Except('\n'));
        }
        let line = slice_subrange(rest, 0, len);
        let (from, to) = strip_range(line, CharClass::Whitespace);
        let trimmed = slice_subrange(line, from, to);
        proof {
            assert(rest@ == chars@.skip(start as int));
            assert(line@ == rest@.take(len as int));
            let found = lines(rest@);
            assert(found[0] == line@);
            if len < rest@.len() {
                assert(rest@.skip(len + 1) == chars@.skip(start + len + 1));
                assert(found.drop_first() == lines(chars@.skip(start + len + 1)));
            } else {
                assert(found.drop_first().len() == 0);
            }
        }
        if starts_with(trimmed, key.as_slice()) {
            let eq = leading_run(trimmed, CharClass::Except('='));
            if eq >= trimmed.len() {
                return None;
            }
            let after = slice_subrange(trimmed, eq + 1, trimmed.len());
            let (a, b) = strip_range(after, CharClass::Whitespace);
            let unspaced = slice_subrange(after, a, b);
            let (c, d) = strip_range(unspaced, CharClass::Only('"'));
            let first = start + from + eq + 1 + a + c;
            let value = contents.substring_char(first, first + (d - c));
            proof {
                assert(after@ == trimmed@.skip(eq + 1));
                assert(unspaced@.subrange(c as int, d as int) =~= chars@.subrange(
                    first as int,
                    first + (d - c),
                ));
            }
            return Some(value.to_owned());
        }
        if len >= rest.len() {
            assert(first_name_line(lines(rest@).drop_first()) is None);
            return None;
        }
        start = start + len + 1;
    }
}

/// The lines of a text are what stands between its line feeds: there is at
/// least one line, no line holds a line feed, and the lines with a line feed
/// between each two of them are the text.
pub proof fn law_lines_split_at_line_feeds(s: Seq<char>)
    ensures
        lines(s).len() >= 1,
        joined(lines(s)) == s,
        forall|i: int, j: int|
            0 <= i < lines(s).len() && 0 <= j < lines(s)[i].len() ==> #[trigger] lines(s)[i][j]
                != '\n',
    decreases s.len(),
{
    let class = CharClass::Except('\n');
    let end = leading(s, class) as int;
    lemma_leading_run(s, class);
    if end < s.len() {
        let first = s.take(end);
        let rest = s.skip(end + 1);
        law_lines_split_at_line_feeds(rest);
        let all = lines(s);
        assert(all =~= seq![first] + lines(rest));
        assert(all.drop_first() =~= lines(rest));
        assert(s =~= first + seq!['\n'] + rest);
        assert forall|i: int, j: int| 0 <= i < all.len() && 0 <= j < all[i].len() implies
            #[trigger] all[i][j] != '\n' by {
            if i == 0 {
                assert(all[0][j] == s[j]);
            } else {
                assert(all[i] == lines(rest)[i - 1]);
            }
        }
    } else {
        assert forall|i: int, j: int|
            0 <= i < lines(s).len() && 0 <= j < lines(s)[i].len() implies #[trigger] lines(
            s,
        )[i][j] != '\n' by {
            assert(lines(s)[i] == s);
        }
    }
}

/// The first name line among `lines` is the one at `k`, where that is a name
/// line and none before it is.
proof fn lemma_first_name_line_at(lines: Seq<Seq<char>>, k: int)
    requires
        0 <= k < lines.len(),
        is_name_line(lines[k]),
        forall|i: int| 0 <= i < k ==> !is_name_line(#[trigger] lines[i]),
    ensures
        first_name_line(lines) == Some(trim(lines[k])),
    decreases k,
{
    if k > 0 {
        let rest = lines.drop_first();
        assert forall|i: int| 0 <= i < k - 1 implies !is_name_line(#[trigger] rest[i]) by {
            assert(rest[i] == lines[i + 1]);
        }
        assert(rest[k - 1] == lines[k]);
        lemma_first_name_line_at(rest, k - 1);
    }
}

/// There is no first name line among `lines` where none of them is a name
/// line.
proof fn lemma_no_first_name_line(lines: Seq<Seq<char>>)
    requires
        forall|i: int| 0 <= i < lines.len() ==> !is_name_line(#[trigger] lines[i]),
    ensures
        first_name_line(lines) is None,
    decreases lines.len(),
{
    if lines.len() > 0 {
        let rest = lines.drop_first();
        assert forall|i: int| 0 <= i < rest.len() implies !is_name_line(#[trigger] rest[i]) by {
            assert(rest[i] == lines[i + 1]);
        }
        lemma_no_first_name_line(rest);
    }
}

/// The package name is read from the first line that, trimmed, starts with
/// the name key: it is the value that this line gives.
pub proof fn law_name_is_read_from_first_name_line(contents: Seq<char>, k: int)
    requires
        0 <= k < lines(contents).len(),
        is_name_line(lines(contents)[k]),
        forall|i: int| 0 <= i < k ==> !is_name_line(#[trigger] lines(contents)[i]),
    ensures
        package_name(contents) == name_value(trim(lines(contents)[k])),
{
    lemma_first_name_line_at(lines(contents), k);
}

/// A text without a line that, trimmed, starts with the name key declares no
/// package name.
pub proof fn law_no_name_without_name_line(contents: Seq<char>)
    requires
        forall|i: int|
            0 <= i < lines(contents).len() ==> !is_name_line(#[trigger] lines(contents)[i]),
    ensures
        package_name(contents) is None,
{
    lemma_no_first_name_line(lines(contents));
}

/// A name read from a manifest neither starts nor ends with a double quote.
pub proof fn law_name_has_no_quotes_around(contents: Seq<char>)
    ensures
        package_name(contents) matches Some(name) ==> name.len() > 0 ==> name.first() != '"'
            && name.last() != '"',
{
    match first_name_line(lines(contents)) {
        Some(line) => {
            let eq = leading(line, CharClass::Except('=')) as int;
            law_strip_takes_the_runs_at_both_ends(trim(line.skip(eq + 1)), CharClass::Only('"'));
        },
        None => {},
    }
}

} // verus!
