//! Placeholders: `${name}` inside a text, and what stands for them.

use crate::utils::text::to_chars;
use vstd::prelude::*;

verus! {

/// The part of `s` from `start` to `end` is a placeholder: `${`, a name of at
/// least one character that holds no line feed, and `}`.
pub open spec fn is_placeholder(s: Seq<char>, start: int, end: int) -> bool {
    &&& 0 <= start
    &&& start + 4 <= end <= s.len()
    &&& s[start] == '$'
    &&& s[start + 1] == '{'
    &&& s[end - 1] == '}'
    &&& forall|k: int| start + 2 <= k < end - 1 ==> s[k] != '\n'
}

/// Some part of `s` is a placeholder.
pub open spec fn has_placeholder(s: Seq<char>) -> bool {
    exists|start: int, end: int| is_placeholder(s, start, end)
}

/// The placeholder from `start` to `end` is the first of `s`: none starts
/// before it, and none that starts with it ends later.
pub open spec fn is_first_placeholder(s: Seq<char>, start: int, end: int) -> bool {
    &&& is_placeholder(s, start, end)
    &&& forall|a: int, b: int| is_placeholder(s, a, b) ==> start <= a
    &&& forall|b: int| is_placeholder(s, start, b) ==> b <= end
}

/// The span of the first placeholder of `s`, if it has one.
pub open spec fn first_placeholder(s: Seq<char>) -> Option<(int, int)> {
    if has_placeholder(s) {
        Some(choose|span: (int, int)| is_first_placeholder(s, span.0, span.1))
    } else {
        None
    }
}

/// A text has at most one first placeholder.
pub proof fn lemma_first_placeholder_unique(s: Seq<char>, start: int, end: int)
    requires
        is_first_placeholder(s, start, end),
    ensures
        first_placeholder(s) == Some((start, end)),
{
    let span = choose|span: (int, int)| is_first_placeholder(s, span.0, span.1);
    assert(is_first_placeholder(s, (start, end).0, (start, end).1));
    assert(span.0 == start);
    assert(span.1 == end);
}

/// The two characters that open a placeholder stand at `i` in `s`.
pub open spec fn marker_at(s: Seq<char>, i: int) -> bool {
    0 <= i && i + 1 < s.len() && s[i] == '$' && s[i + 1] == '{'
}

/// `s` holds the two characters that open a placeholder.
pub open spec fn has_marker(s: Seq<char>) -> bool {
    exists|i: int| marker_at(s, i)
}

/// A text with a placeholder holds the marker.
pub proof fn lemma_placeholder_has_marker(s: Seq<char>)
    requires
        has_placeholder(s),
    ensures
        has_marker(s),
{
    let (start, end) = choose|start: int, end: int| is_placeholder(s, start, end);
    assert(marker_at(s, start));
}

/// The first placeholder of a text, cut out of it.
pub struct PlaceholderMatch {
    /// What stands before the placeholder.
    pub before: String,
    /// The name between the braces.
    pub name: String,
    /// What stands behind the placeholder.
    pub after: String,
}

/// `before`, `name` and `after` are what stands before the first placeholder
/// of `s`, between its braces, and behind it.
pub open spec fn cuts_first(s: Seq<char>, before: Seq<char>, name: Seq<char>, after: Seq<char>) -> bool {
    let start = before.len() as int;
    let end = s.len() - after.len();
    &&& is_first_placeholder(s, start, end)
    &&& before == s.take(start)
    &&& name == s.subrange(start + 2, end - 1)
    &&& after == s.skip(end)
}

/// The pattern of a placeholder: a dollar sign, braces, and between them a
/// name of at least one character, none of them a line feed.
pub const PLACEHOLDER_PATTERN: &'static str = r"\$\{(.+)\}";

/// `regex::Regex::captures`, for the expression that `regex::Regex::new`
/// makes of the pattern of a placeholder: the leftmost match, its name taken
/// as long as it can be, and the text cut into what stands before the match,
/// the name, and what stands behind the match. `None` where nothing matches.
#[verifier::external_body]
fn first_capture(pattern: &str, s: &str) -> (r: Option<PlaceholderMatch>)
    requires
        pattern@ == PLACEHOLDER_PATTERN@,
    ensures
        match r {
            Some(m) => cuts_first(s@, m.before@, m.name@, m.after@),
            None => !has_placeholder(s@),
        },
{
    let caps = regex::Regex::new(pattern).ok()?.captures(s)?;
    let whole = caps.get(0)?;
    let name = caps.get(1)?;
    Some(
        PlaceholderMatch {
            before: s[..whole.start()].to_string(),
            name: name.as_str().to_string(),
            after: s[whole.end()..].to_string(),
        },
    )
}

/// Whether `s` holds the two characters that open a placeholder.
pub fn contains_marker(s: &str) -> (r: bool)
    ensures
        r == has_marker(s@),
{
    let chars = to_chars(s);
    if chars.len() < 2 {
        return false;
    }
    let last: usize = chars.len() - 1;
    let mut i: usize = 0;
    while i < last
        invariant
            chars@ == s@,
            i <= last,
            last + 1 == chars.len(),
            forall|k: int| 0 <= k < i ==> !marker_at(s@, k),
        decreases last - i,
    {
        if chars[i] == '$' && chars[i + 1] == '{' {
            assert(marker_at(s@, i as int));
            return true;
        }
        i += 1;
    }
    false
}

/// The name of the first placeholder of `s`.
pub open spec fn first_name(s: Seq<char>) -> Option<Seq<char>> {
    match first_placeholder(s) {
        Some((start, end)) => Some(s.subrange(start + 2, end - 1)),
        None => None,
    }
}

/// `s` with its first placeholder replaced by `value`.
pub open spec fn replace_first(s: Seq<char>, value: Seq<char>) -> Seq<char> {
    match first_placeholder(s) {
        Some((start, end)) => s.take(start) + value + s.skip(end),
        None => s,
    }
}

/// `s` after one substitution: its first placeholder gives way to what
/// `properties` binds to its name; a text without a placeholder, or with a
/// name that is not bound, stays as it is.
pub open spec fn substitute(s: Seq<char>, properties: Map<Seq<char>, Seq<char>>) -> Seq<char> {
    match first_name(s) {
        Some(name) => if properties.contains_key(name) {
            replace_first(s, properties[name])
        } else {
            s
        },
        None => s,
    }
}

/// The name that `s` refers to when the whole of it is one placeholder.
pub open spec fn single_reference(s: Seq<char>) -> Option<Seq<char>> {
    if is_placeholder(s, 0, s.len() as int) {
        Some(s.subrange(2, s.len() - 1))
    } else {
        None
    }
}

/// A placeholder that is the whole text is its first.
pub proof fn lemma_whole_is_first(s: Seq<char>)
    requires
        is_placeholder(s, 0, s.len() as int),
    ensures
        first_placeholder(s) == Some((0int, s.len() as int)),
{
    lemma_first_placeholder_unique(s, 0, s.len() as int);
}

/// The first placeholder of `s`, cut out of it, if it has one.
pub fn split_placeholder(s: &str) -> (r: Option<PlaceholderMatch>)
    ensures
        match r {
            Some(m) => {
                &&& cuts_first(s@, m.before@, m.name@, m.after@)
                &&& first_placeholder(s@) == Some(
                    (m.before@.len() as int, s@.len() - m.after@.len()),
                )
            },
            None => first_placeholder(s@).is_none(),
        },
{
    let r = first_capture(PLACEHOLDER_PATTERN, s);
    proof {
        if let Some(m) = &r {
            lemma_first_placeholder_unique(
                s@,
                m.before@.len() as int,
                s@.len() - m.after@.len(),
            );
        }
    }
    r
}

} // verus!
