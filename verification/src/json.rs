//! The text that stands for a list of projects: compact JSON, an array of
//! objects with the keys `path` and `package_name`, in that order.
//!
//! The text is what the fingerprint of a scan is computed from, so it is
//! fixed here character by character. No two lists have the same text.

use crate::hex::{hex_digit, lemma_hex_digit_injective};
use crate::project::{Project, ProjectView};
use vstd::prelude::*;
use vstd::string::*;

verus! {

/// What stands for the character `c` inside a JSON string: the quote, the
/// backslash and the control characters are escaped, each in the shortest
/// way JSON has for it, and every other character stands for itself.
pub open spec fn escaped(c: char) -> Seq<char> {
    if c == '"' {
        seq!['\\', '"']
    } else if c == '\\' {
        seq!['\\', '\\']
    } else if c == '\u{8}' {
        seq!['\\', 'b']
    } else if c == '\u{c}' {
        seq!['\\', 'f']
    } else if c == '\n' {
        seq!['\\', 'n']
    } else if c == '\r' {
        seq!['\\', 'r']
    } else if c == '\t' {
        seq!['\\', 't']
    } else if (c as u32) < 0x20 {
        seq!['\\', 'u', '0', '0', hex_digit(c as int / 16), hex_digit(c as int % 16)]
    } else {
        seq![c]
    }
}

/// The characters of `s`, each escaped.
pub open spec fn escaped_text(s: Seq<char>) -> Seq<char>
    decreases s.len(),
{
    if s.len() == 0 {
        Seq::empty()
    } else {
        escaped(s[0]) + escaped_text(s.drop_first())
    }
}

/// The JSON string for `s`: its characters escaped, between quotes.
pub open spec fn json_string(s: Seq<char>) -> Seq<char> {
    seq!['"'] + escaped_text(s) + seq!['"']
}

/// The JSON value for a name that may be absent.
pub open spec fn json_optional_string(s: Option<Seq<char>>) -> Seq<char> {
    match s {
        Some(text) => json_string(text),
        None => seq!['n', 'u', 'l', 'l'],
    }
}

/// What opens the object of a project, up to the value of its path.
pub open spec fn path_key() -> Seq<char> {
    seq!['{', '"', 'p', 'a', 't', 'h', '"', ':']
}

/// What stands between the path of a project and the value of its name.
pub open spec fn package_name_key() -> Seq<char> {
    seq![',', '"', 'p', 'a', 'c', 'k', 'a', 'g', 'e', '_', 'n', 'a', 'm', 'e', '"', ':']
}

/// The JSON object for one project.
pub open spec fn project_json(project: ProjectView) -> Seq<char> {
    path_key() + json_string(project.path) + package_name_key() + json_optional_string(
        project.package_name,
    ) + seq!['}']
}

/// What follows the first project of an array: each further project after a
/// comma, then the closing bracket.
pub open spec fn more_projects_json(projects: Seq<ProjectView>) -> Seq<char>
    decreases projects.len(),
{
    if projects.len() == 0 {
        seq![']']
    } else {
        seq![','] + project_json(projects[0]) + more_projects_json(projects.drop_first())
    }
}

/// The JSON array for a list of projects.
pub open spec fn projects_json(projects: Seq<ProjectView>) -> Seq<char> {
    if projects.len() == 0 {
        seq!['[', ']']
    } else {
        seq!['['] + project_json(projects[0]) + more_projects_json(projects.drop_first())
    }
}

/// `serde_json::to_string` on a string slice: the JSON string for `s`.
/// Believed of it: the text is a quote, then each character of `s` as
/// [`escaped`] gives it, then a quote; and the call cannot fail, since a
/// string slice serialises as one string, written to memory.
#[verifier::external_body]
fn quoted(s: &str) -> (text: String)
    ensures
        text@ == json_string(s@),
{
    serde_json::to_string(s).unwrap_or_default()
}

/// Writes the JSON object for `project`.
pub fn project_to_json(project: &Project) -> (text: String)
    ensures
        text@ == project_json(project@),
{
    proof {
        reveal_strlit("{\"path\":");
        reveal_strlit(",\"package_name\":");
        reveal_strlit("null");
        reveal_strlit("}");
    }
    let mut text = String::new();
    text.append("{\"path\":");
    assert(text@ =~= path_key());
    text.append(quoted(project.path.as_str()).as_str());
    text.append(",\"package_name\":");
    assert(text@ =~= path_key() + json_string(project@.path) + package_name_key());
    match &project.package_name {
        Some(name) => {
            text.append(quoted(name.as_str()).as_str());
        },
        None => {
            text.append("null");
            assert(text@ =~= path_key() + json_string(project@.path) + package_name_key()
                + json_optional_string(project@.package_name));
        },
    }
    text.append("}");
    assert(text@ =~= project_json(project@));
    text
}

/// Writes the JSON array for `projects`.
pub fn projects_to_json(projects: &[Project]) -> (text: String)
    ensures
        text@ == projects_json(projects.deep_view()),
{
    proof {
        reveal_strlit("[");
        reveal_strlit("]");
    }
    let ghost all = projects.deep_view();
    let n = projects.len();
    let mut text = String::new();
    text.append("[");
    if n == 0 {
        text.append("]");
        assert(text@ =~= seq!['[', ']']);
        return text;
    }
    assert(all[0] == projects@[0]@);
    text.append(project_to_json(&projects[0]).as_str());
    let mut i: usize = 1;
    assert(all.drop_first() =~= all.skip(1));
    while i < n
        invariant
            n == projects@.len(),
            all == projects.deep_view(),
            1 <= i <= n,
            projects_json(all) == text@ + more_projects_json(all.skip(i as int)),
        decreases n - i,
    {
        let ghost before = text@;
        let ghost rest = all.skip(i as int);
        assert(rest[0] == projects@[i as int]@);
        assert(rest.drop_first() =~= all.skip(i + 1));
        text.append(",");
        text.append(project_to_json(&projects[i]).as_str());
        proof {
            reveal_strlit(",");
            let item = project_json(rest[0]);
            let tail = more_projects_json(all.skip(i + 1));
            assert(more_projects_json(rest) == seq![','] + item + tail);
            assert(text@ == before + seq![','] + item);
            assert(before + (seq![','] + item + tail) =~= before + seq![','] + item + tail);
        }
        i = i + 1;
    }
    text.append("]");
    assert(all.skip(n as int).len() == 0);
    text
}

/// No escape starts with a quote, and each has at least one character.
proof fn lemma_escaped_start(c: char)
    ensures
        escaped(c).len() >= 1,
        escaped(c)[0] != '"',
        escaped(c)[0] == '\\' || escaped(c) == seq![c],
{
}

/// The escapes form a prefix code: where two texts start with an escape each
/// and are equal, the escapes are those of one character, and what follows
/// them is equal.
proof fn lemma_escaped_prefix_free(c: char, x: Seq<char>, d: char, y: Seq<char>)
    requires
        escaped(c) + x == escaped(d) + y,
    ensures
        c == d,
        x == y,
{
    let left = escaped(c) + x;
    let right = escaped(d) + y;
    lemma_escaped_start(c);
    lemma_escaped_start(d);
    assert(left[0] == escaped(c)[0]);
    assert(right[0] == escaped(d)[0]);
    if escaped(c)[0] == '\\' {
        assert(escaped(c).len() >= 2);
        assert(escaped(d).len() >= 2);
        assert(left[1] == escaped(c)[1]);
        assert(right[1] == escaped(d)[1]);
        if escaped(c)[1] == 'u' {
            assert(escaped(c).len() == 6);
            assert(escaped(d).len() == 6);
            assert(left[4] == escaped(c)[4]);
            assert(right[4] == escaped(d)[4]);
            assert(left[5] == escaped(c)[5]);
            assert(right[5] == escaped(d)[5]);
            lemma_hex_digit_injective(c as int / 16, d as int / 16);
            lemma_hex_digit_injective(c as int % 16, d as int % 16);
            assert(c as int == d as int);
        }
    }
    assert(c == d);
    assert(x =~= left.skip(escaped(c).len() as int));
    assert(y =~= right.skip(escaped(d).len() as int));
}

/// Escaped text ends where the first quote stands: where two escaped texts,
/// each followed by a quote, are equal up to what follows the quote, the
/// texts are equal and so is what follows.
proof fn lemma_escaped_text_ends_at_quote(
    s: Seq<char>,
    x: Seq<char>,
    t: Seq<char>,
    y: Seq<char>,
)
    requires
        escaped_text(s) + seq!['"'] + x == escaped_text(t) + seq!['"'] + y,
    ensures
        s == t,
        x == y,
    decreases s.len(),
{
    let left = escaped_text(s) + seq!['"'] + x;
    let right = escaped_text(t) + seq!['"'] + y;
    if s.len() == 0 {
        assert(left[0] == '"');
        if t.len() > 0 {
            lemma_escaped_start(t[0]);
            assert(escaped_text(t)[0] == escaped(t[0])[0]);
            assert(right[0] == escaped(t[0])[0]);
        }
        assert(s =~= t);
        assert(x =~= left.skip(1));
        assert(y =~= right.skip(1));
    } else {
        if t.len() == 0 {
            lemma_escaped_start(s[0]);
            assert(escaped_text(s)[0] == escaped(s[0])[0]);
            assert(left[0] == escaped(s[0])[0]);
            assert(right[0] == '"');
        }
        let s_rest = escaped_text(s.drop_first()) + seq!['"'] + x;
        let t_rest = escaped_text(t.drop_first()) + seq!['"'] + y;
        assert(left =~= escaped(s[0]) + s_rest);
        assert(right =~= escaped(t[0]) + t_rest);
        lemma_escaped_prefix_free(s[0], s_rest, t[0], t_rest);
        lemma_escaped_text_ends_at_quote(s.drop_first(), x, t.drop_first(), y);
        assert(s =~= seq![s[0]] + s.drop_first());
        assert(t =~= seq![t[0]] + t.drop_first());
    }
}

/// A JSON string ends where its closing quote stands: where two of them,
/// each followed by more text, are equal, they are the strings of one text,
/// and what follows them is equal.
proof fn lemma_json_string_prefix_free(s: Seq<char>, x: Seq<char>, t: Seq<char>, y: Seq<char>)
    requires
        json_string(s) + x == json_string(t) + y,
    ensures
        s == t,
        x == y,
{
    let left = json_string(s) + x;
    let right = json_string(t) + y;
    assert(left.skip(1) =~= escaped_text(s) + seq!['"'] + x);
    assert(right.skip(1) =~= escaped_text(t) + seq!['"'] + y);
    lemma_escaped_text_ends_at_quote(s, x, t, y);
}

/// The same for a name that may be absent.
proof fn lemma_json_optional_string_prefix_free(
    s: Option<Seq<char>>,
    x: Seq<char>,
    t: Option<Seq<char>>,
    y: Seq<char>,
)
    requires
        json_optional_string(s) + x == json_optional_string(t) + y,
    ensures
        s == t,
        x == y,
{
    let left = json_optional_string(s) + x;
    let right = json_optional_string(t) + y;
    assert(left[0] == json_optional_string(s)[0]);
    assert(right[0] == json_optional_string(t)[0]);
    match (s, t) {
        (Some(a), Some(b)) => {
            lemma_json_string_prefix_free(a, x, b, y);
        },
        (None, None) => {
            assert(x =~= left.skip(4));
            assert(y =~= right.skip(4));
        },
        (Some(a), None) => {
            assert(json_string(a)[0] == '"');
        },
        (None, Some(b)) => {
            assert(json_string(b)[0] == '"');
        },
    }
}

/// The object of a project ends where its closing brace stands: where two
/// of them, each followed by more text, are equal, they are the objects of
/// one project, and what follows them is equal.
proof fn lemma_project_json_prefix_free(
    p: ProjectView,
    x: Seq<char>,
    q: ProjectView,
    y: Seq<char>,
)
    requires
        project_json(p) + x == project_json(q) + y,
    ensures
        p == q,
        x == y,
{
    let left = project_json(p) + x;
    let right = project_json(q) + y;
    let p_name = json_optional_string(p.package_name);
    let q_name = json_optional_string(q.package_name);
    let p_after_path = package_name_key() + p_name + seq!['}'] + x;
    let q_after_path = package_name_key() + q_name + seq!['}'] + y;
    assert(left.skip(8) =~= json_string(p.path) + p_after_path);
    assert(right.skip(8) =~= json_string(q.path) + q_after_path);
    lemma_json_string_prefix_free(p.path, p_after_path, q.path, q_after_path);
    let p_after_name = seq!['}'] + x;
    let q_after_name = seq!['}'] + y;
    assert(p_after_path.skip(16) =~= p_name + p_after_name);
    assert(q_after_path.skip(16) =~= q_name + q_after_name);
    lemma_json_optional_string_prefix_free(
        p.package_name,
        p_after_name,
        q.package_name,
        q_after_name,
    );
    assert(x =~= p_after_name.skip(1));
    assert(y =~= q_after_name.skip(1));
}

/// Two lists of projects that continue an array with the same text are the
/// same list.
proof fn lemma_more_projects_json_injective(a: Seq<ProjectView>, b: Seq<ProjectView>)
    requires
        more_projects_json(a) == more_projects_json(b),
    ensures
        a == b,
    decreases a.len(),
{
    let left = more_projects_json(a);
    let right = more_projects_json(b);
    if a.len() == 0 {
        assert(left[0] == ']');
        if b.len() > 0 {
            assert(right[0] == ',');
        }
        assert(a =~= b);
    } else {
        assert(left[0] == ',');
        if b.len() == 0 {
            assert(right[0] == ']');
        }
        let a_rest = more_projects_json(a.drop_first());
        let b_rest = more_projects_json(b.drop_first());
        assert(left.skip(1) =~= project_json(a[0]) + a_rest);
        assert(right.skip(1) =~= project_json(b[0]) + b_rest);
        lemma_project_json_prefix_free(a[0], a_rest, b[0], b_rest);
        lemma_more_projects_json_injective(a.drop_first(), b.drop_first());
        assert(a =~= seq![a[0]] + a.drop_first());
        assert(b =~= seq![b[0]] + b.drop_first());
    }
}

/// The text keeps every project and their order: two lists of projects with
/// the same text are the same list.
pub proof fn law_projects_json_is_injective(a: Seq<ProjectView>, b: Seq<ProjectView>)
    requires
        projects_json(a) == projects_json(b),
    ensures
        a == b,
{
    let left = projects_json(a);
    let right = projects_json(b);
    if a.len() == 0 {
        assert(left[1] == ']');
        if b.len() > 0 {
            assert(right[1] == project_json(b[0])[0]);
        }
        assert(a =~= b);
    } else {
        assert(left[1] == project_json(a[0])[0]);
        if b.len() == 0 {
            assert(right[1] == ']');
        }
        let a_rest = more_projects_json(a.drop_first());
        let b_rest = more_projects_json(b.drop_first());
        assert(left.skip(1) =~= project_json(a[0]) + a_rest);
        assert(right.skip(1) =~= project_json(b[0]) + b_rest);
        lemma_project_json_prefix_free(a[0], a_rest, b[0], b_rest);
        lemma_more_projects_json_injective(a.drop_first(), b.drop_first());
        assert(a =~= seq![a[0]] + a.drop_first());
        assert(b =~= seq![b[0]] + b.drop_first());
    }
}

} // verus!
