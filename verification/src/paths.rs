//! Paths as texts: their components, and the home directory behind a leading tilde.
//!
//! Paths are Unix paths. Their components stand between slashes; slashes in a row count as one,
//! and a component `.` is none.
use crate::text::chars_of;
use vstd::prelude::*;
use vstd::string::StrSliceExecFns;
use vstd::string::StringExecFns;

verus! {

/// What stands between the components of a path.
pub const SEPARATOR: char = '/';

/// Whether the characters from `start` to `end` are a component of `path`.
pub open spec fn is_component(path: Seq<char>, start: int, end: int) -> bool {
    &&& 0 <= start < end <= path.len()
    &&& start == 0 || path[start - 1] == SEPARATOR
    &&& end == path.len() || path[end] == SEPARATOR
    &&& forall|i: int| start <= i < end ==> path[i] != SEPARATOR
    &&& !(end == start + 1 && path[start] == '.')
}

/// Whether the characters from `start` to `end` are the last component of `path`.
pub open spec fn is_last_component(path: Seq<char>, start: int, end: int) -> bool {
    &&& is_component(path, start, end)
    &&& forall|s: int, e: int| #[trigger] is_component(path, s, e) ==> s <= start
}

/// Where the last component of `path` starts and ends, if it has one.
pub open spec fn last_component(path: Seq<char>) -> Option<(int, int)> {
    if exists|start: int, end: int| is_last_component(path, start, end) {
        Some(choose|span: (int, int)| #[trigger] is_last_component(path, span.0, span.1))
    } else {
        None
    }
}

/// The last component of a path is one of its components.
pub proof fn last_component_is_a_component(path: Seq<char>)
    ensures
        last_component(path) matches Some(span) ==> is_last_component(path, span.0, span.1),
{
    if last_component(path) is Some {
        let (start, end) = choose|start: int, end: int| is_last_component(path, start, end);
        assert(is_last_component(path, (start, end).0, (start, end).1));
    }
}

/// Two components that start at one place are one.
proof fn component_is_known_by_its_start(path: Seq<char>, start: int, end: int, other: int)
    requires
        is_component(path, start, end),
        is_component(path, start, other),
    ensures
        end == other,
{
    if end < other {
        assert(path[end] != SEPARATOR);
    } else if other < end {
        assert(path[other] != SEPARATOR);
    }
}

/// There is one last component at most.
pub(crate) proof fn last_component_is_known(path: Seq<char>, start: int, end: int)
    requires
        is_last_component(path, start, end),
    ensures
        last_component(path) == Some((start, end)),
{
    assert(is_last_component(path, (start, end).0, (start, end).1));
    let span = last_component(path).unwrap();
    assert(is_last_component(path, span.0, span.1));
    assert(span.0 == start);
    component_is_known_by_its_start(path, start, end, span.1);
}

/// The last component of the first `length` characters of a path.
pub fn find_last_component(path: &Vec<char>, length: usize) -> (found: Option<(usize, usize)>)
    requires
        length <= path.len(),
    ensures
        match last_component(path@.take(length as int)) {
            Some(span) => found matches Some(pair) && (pair.0 as int, pair.1 as int) == span,
            None => found is None,
        },
        found matches Some(pair) ==> is_last_component(
            path@.take(length as int),
            pair.0 as int,
            pair.1 as int,
        ),
        found is None ==> forall|s: int, e: int| !is_component(path@.take(length as int), s, e),
{
    let ghost text = path@.take(length as int);
    let mut end: usize = length;
    while end > 0
        invariant
            end <= length <= path.len(),
            text == path@.take(length as int),
            end == length || text[end as int] == SEPARATOR || end == 0 || text[end - 1]
                == SEPARATOR,
            forall|s: int, e: int| #[trigger] is_component(text, s, e) ==> s < end,
        decreases end,
    {
        if path[end - 1] == SEPARATOR {
            assert forall|s: int, e: int| #[trigger] is_component(text, s, e) implies s < end - 1 by {
                assert(text[s] != SEPARATOR);
            }
            end = end - 1;
            continue;
        }
        let mut start: usize = end - 1;
        while start > 0 && path[start - 1] != SEPARATOR
            invariant
                start < end <= length <= path.len(),
                text == path@.take(length as int),
                forall|i: int| start <= i < end ==> text[i] != SEPARATOR,
            decreases start,
        {
            start = start - 1;
        }
        if end - start == 1 && path[start] == '.' {
            assert forall|s: int, e: int| #[trigger] is_component(text, s, e) implies s < start by {
                if s >= start {
                    assert(s == start);
                    if e > end {
                        assert(text[end as int] != SEPARATOR);
                    }
                }
            }
            end = start;
        } else {
            assert(is_component(text, start as int, end as int));
            assert forall|s: int, e: int| #[trigger] is_component(text, s, e) implies s <= start by {
                if s > start {
                    assert(text[s - 1] == SEPARATOR);
                }
            }
            proof {
                last_component_is_known(text, start as int, end as int);
            }
            return Some((start, end));
        }
    }
    None
}

/// Whether a path leads into the home directory: its first component is a tilde alone.
pub open spec fn is_in_home(path: Seq<char>) -> bool {
    path.len() > 0 && path[0] == '~' && (path.len() == 1 || path[1] == SEPARATOR)
}

/// Whether all components of `path` but one at its very start lie between `start` and `end`,
/// the first of them at `start` and the last of them up to `end`.
pub open spec fn is_inner_span(path: Seq<char>, start: int, end: int) -> bool {
    &&& 0 < start < end <= path.len()
    &&& exists|e: int| #[trigger] is_component(path, start, e)
    &&& exists|s: int| #[trigger] is_component(path, s, end)
    &&& forall|s: int, e: int| #[trigger]
        is_component(path, s, e) && s > 0 ==> start <= s && e <= end
}

/// The part of `path` from its second component to its last.
pub open spec fn inner_path(path: Seq<char>) -> Seq<char> {
    if exists|start: int, end: int| is_inner_span(path, start, end) {
        let span = choose|span: (int, int)| #[trigger] is_inner_span(path, span.0, span.1);
        path.subrange(span.0, span.1)
    } else {
        Seq::empty()
    }
}

/// What of a path is left to look for in the home directory, where it leads there.
pub open spec fn home_suffix(path: Seq<char>) -> Option<Seq<char>> {
    if is_in_home(path) {
        Some(inner_path(path))
    } else {
        None
    }
}

/// `suffix` below `base`: with a separator between them, unless `base` is empty or ends in one.
pub open spec fn joined(base: Seq<char>, suffix: Seq<char>) -> Seq<char> {
    if base.len() == 0 || base.last() == SEPARATOR {
        base + suffix
    } else {
        base.push(SEPARATOR) + suffix
    }
}

/// `path` with the home directory in place of a leading tilde.
pub open spec fn expanded(path: Seq<char>, home: Seq<char>) -> Seq<char> {
    match home_suffix(path) {
        Some(suffix) => joined(home, suffix),
        None => path,
    }
}

/// There is one inner span at most.
proof fn inner_path_is_known(path: Seq<char>, start: int, end: int)
    requires
        is_inner_span(path, start, end),
    ensures
        inner_path(path) == path.subrange(start, end),
{
    assert(is_inner_span(path, (start, end).0, (start, end).1));
    let span = choose|span: (int, int)| #[trigger] is_inner_span(path, span.0, span.1);
    assert(span.0 == start) by {
        let e = choose|e: int| #[trigger] is_component(path, start, e);
        let f = choose|e: int| #[trigger] is_component(path, span.0, e);
        assert(is_component(path, start, e) && is_component(path, span.0, f));
    }
    assert(span.1 == end) by {
        let s = choose|s: int| #[trigger] is_component(path, s, end);
        let t = choose|s: int| #[trigger] is_component(path, s, span.1);
        assert(is_component(path, s, end) && is_component(path, t, span.1));
        if s == 0 {
            let e = choose|e: int| #[trigger] is_component(path, start, e);
            assert(path[start - 1] == SEPARATOR);
        }
        if t == 0 {
            let e = choose|e: int| #[trigger] is_component(path, span.0, e);
            assert(path[span.0 - 1] == SEPARATOR);
        }
    }
}

/// What of a path is left to look for in the home directory; nothing where it does not lead
/// there.
pub fn find_home_suffix(path: &str) -> (suffix: Option<String>)
    ensures
        match home_suffix(path@) {
            Some(text) => suffix matches Some(found) && found@ == text,
            None => suffix is None,
        },
{
    let chars = chars_of(path);
    if chars.len() == 0 || chars[0] != '~' || (chars.len() > 1 && chars[1] != SEPARATOR) {
        return None;
    }
    let ghost text = path@;
    assert(text.take(text.len() as int) == text);
    let mut start: usize = 1;
    while start < chars.len()
        invariant
            chars@ == text,
            text == path@,
            text.take(text.len() as int) == text,
            is_in_home(text),
            1 <= start <= chars.len(),
            start == chars.len() || text[start as int] == SEPARATOR || text[start - 1] == SEPARATOR,
            forall|s: int, e: int| #[trigger] is_component(text, s, e) && s > 0 ==> start <= s,
        decreases chars.len() - start,
    {
        if chars[start] == SEPARATOR {
            assert forall|s: int, e: int| #[trigger]
                is_component(text, s, e) && s > 0 implies start + 1 <= s by {
                assert(text[s] != SEPARATOR);
            }
            start = start + 1;
            continue;
        }
        let mut end: usize = start + 1;
        while end < chars.len() && chars[end] != SEPARATOR
            invariant
                chars@ == text,
                start < end <= chars.len(),
                forall|i: int| start <= i < end ==> text[i] != SEPARATOR,
            decreases chars.len() - end,
        {
            end = end + 1;
        }
        if end - start == 1 && chars[start] == '.' {
            assert forall|s: int, e: int| #[trigger]
                is_component(text, s, e) && s > 0 implies end <= s by {
                if s == start {
                    assert(!is_component(text, start as int, end as int));
                    if e > end {
                        assert(text[end as int] != SEPARATOR);
                    }
                }
            }
            start = end;
            continue;
        }
        assert(is_component(text, start as int, end as int));
        return match find_last_component(&chars, chars.len()) {
            Some((last, stop)) => {
                assert(is_last_component(text, last as int, stop as int));
                assert forall|s: int, e: int| #[trigger]
                    is_component(text, s, e) && s > 0 implies start <= s && e <= stop by {
                    if s == last {
                        component_is_known_by_its_start(text, s, e, stop as int);
                    } else {
                        assert(text[last - 1] == SEPARATOR);
                        if e >= last {
                            assert(text[last - 1] != SEPARATOR);
                        }
                    }
                }
                proof {
                    inner_path_is_known(text, start as int, stop as int);
                }
                Some(path.substring_char(start, stop).to_owned())
            },
            None => {
                assert(false);
                None
            },
        };
    }
    assert(forall|a: int, b: int| !is_inner_span(text, a, b));
    Some(String::new())
}

/// Puts the home directory in place of a tilde that is the first component of `path`; another
/// path stays as it is.
pub fn expand_home_from(path: &str, home: &str) -> (expanded_path: String)
    ensures
        expanded_path@ == expanded(path@, home@),
{
    match find_home_suffix(path) {
        None => path.to_owned(),
        Some(suffix) => {
            let mut whole = home.to_owned();
            let length: usize = home.unicode_len();
            if length > 0 && home.get_char(length - 1) != SEPARATOR {
                whole.append("/");
                proof {
                    reveal_strlit("/");
                }
                assert(whole@ == home@.push(SEPARATOR));
            }
            whole.append(suffix.as_str());
            whole
        },
    }
}

/// A path that leads into the home directory is found below it, and any other path stays as it is.
pub proof fn paths_lead_home(path: Seq<char>, home: Seq<char>)
    ensures
        is_in_home(path) ==> home.is_prefix_of(expanded(path, home)),
        !is_in_home(path) ==> expanded(path, home) == path,
{
}

/// Where the path of the home directory does not itself lead into a home directory, to expand a
/// path twice is to expand it once.
pub proof fn paths_are_expanded_once(path: Seq<char>, home: Seq<char>)
    requires
        home.len() > 0,
        !is_in_home(home),
    ensures
        !is_in_home(expanded(path, home)),
        expanded(expanded(path, home), home) == expanded(path, home),
{
}

/// Whether nothing from `from` to `to` belongs to a component of `path`: all that stands there are
/// separators, and components `.` between them.
pub open spec fn is_gap(path: Seq<char>, from: int, to: int) -> bool {
    forall|i: int|
        from <= i < to ==> #[trigger] path[i] == '/' || (path[i] == '.' && (i == 0 || path[i - 1]
            == '/') && (i == path.len() - 1 || path[i + 1] == '/'))
}

/// A character that is no separator stands in a run of such characters between separators or the
/// ends of the path.
proof fn run_around(path: Seq<char>, i: int) -> (run: (int, int))
    requires
        0 <= i < path.len(),
        path[i] != SEPARATOR,
    ensures
        0 <= run.0 <= i < run.1 <= path.len(),
        run.0 == 0 || path[run.0 - 1] == SEPARATOR,
        run.1 == path.len() || path[run.1] == SEPARATOR,
        forall|j: int| run.0 <= j < run.1 ==> path[j] != SEPARATOR,
{
    let start = run_start(path, i);
    let end = run_end(path, i);
    (start, end)
}

/// Where the run of characters that are no separators around `i` starts.
proof fn run_start(path: Seq<char>, i: int) -> (start: int)
    requires
        0 <= i < path.len(),
        path[i] != SEPARATOR,
    ensures
        0 <= start <= i,
        start == 0 || path[start - 1] == SEPARATOR,
        forall|j: int| start <= j <= i ==> path[j] != SEPARATOR,
    decreases i,
{
    if i == 0 || path[i - 1] == SEPARATOR {
        i
    } else {
        run_start(path, i - 1)
    }
}

/// Where the run of characters that are no separators around `i` ends.
proof fn run_end(path: Seq<char>, i: int) -> (end: int)
    requires
        0 <= i < path.len(),
        path[i] != SEPARATOR,
    ensures
        i < end <= path.len(),
        end == path.len() || path[end] == SEPARATOR,
        forall|j: int| i <= j < end ==> path[j] != SEPARATOR,
    decreases path.len() - i,
{
    if i == path.len() - 1 || path[i + 1] == SEPARATOR {
        i + 1
    } else {
        run_end(path, i + 1)
    }
}

/// Where no component of a path lies between two places, there is a gap.
pub(crate) proof fn gap_holds_no_component(path: Seq<char>, from: int, to: int)
    requires
        0 <= from <= to <= path.len(),
        forall|s: int, e: int| #[trigger] is_component(path, s, e) ==> e <= from || to <= s,
    ensures
        is_gap(path, from, to),
{
    assert forall|i: int| from <= i < to implies #[trigger] path[i] == '/' || (path[i] == '.' && (i
        == 0 || path[i - 1] == '/') && (i == path.len() - 1 || path[i + 1] == '/')) by {
        if path[i] != SEPARATOR {
            let run = run_around(path, i);
            if !(run.1 == run.0 + 1 && path[run.0] == '.') {
                assert(is_component(path, run.0, run.1));
            }
        }
    }
}

/// A path with a component has a last one.
pub(crate) proof fn components_have_a_last(path: Seq<char>, s: int, e: int)
    requires
        is_component(path, s, e),
    ensures
        last_component(path) is Some,
    decreases path.len() - s,
{
    if exists|a: int, b: int| #[trigger] is_component(path, a, b) && a > s {
        let (a, b) = choose|a: int, b: int| #[trigger] is_component(path, a, b) && a > s;
        components_have_a_last(path, a, b);
    } else {
        assert(is_last_component(path, s, e));
        last_component_is_known(path, s, e);
    }
}

/// Two paths with the same components have the same last component.
proof fn same_components_same_last(path: Seq<char>, other: Seq<char>)
    requires
        forall|s: int, e: int| is_component(path, s, e) <==> is_component(other, s, e),
    ensures
        last_component(path) == last_component(other),
{
    assert forall|s: int, e: int| is_last_component(path, s, e) <==> is_last_component(
        other,
        s,
        e,
    ) by {
        if is_last_component(path, s, e) {
            assert(is_component(other, s, e));
        }
        if is_last_component(other, s, e) {
            assert(is_component(path, s, e));
        }
    }
    if last_component(path) is Some {
        let (s, e) = choose|s: int, e: int| is_last_component(path, s, e);
        last_component_is_known(path, s, e);
        last_component_is_known(other, s, e);
    } else if last_component(other) is Some {
        let (s, e) = choose|s: int, e: int| is_last_component(other, s, e);
        assert(is_last_component(path, s, e));
    }
}

/// A separator at the end of a path, and a component `.` there, do not change its last component;
/// anything else that reaches from a separator, or from the start, to the end of the path is its
/// last component. An empty path has none.
pub proof fn last_components_end_the_path(path: Seq<char>, start: int)
    ensures
        path.len() == 0 ==> last_component(path) is None,
        path.len() > 0 && path.last() == '/' ==> last_component(path) == last_component(
            path.drop_last(),
        ),
        path.len() > 0 && path.last() == '.' && (path.len() == 1 || path[path.len() - 2] == '/')
            ==> last_component(path) == last_component(path.drop_last()),
        0 <= start < path.len() && (start == 0 || path[start - 1] == '/') && (forall|i: int|
            start <= i < path.len() ==> #[trigger] path[i] != '/') && path.skip(start) != seq!['.']
            ==> last_component(path) == Some((start, path.len() as int)),
{
    if path.len() > 0 {
        let short = path.drop_last();
        let end = path.len() as int;
        if path.last() == '/' || path.last() == '.' && (path.len() == 1 || path[end - 2] == '/') {
            assert forall|s: int, e: int| is_component(path, s, e) <==> is_component(short, s, e) by {
                if is_component(path, s, e) {
                    if e == end {
                        assert(path[end - 1] != SEPARATOR);
                        if s < end - 1 {
                            assert(path[end - 2] != SEPARATOR);
                        }
                    }
                    assert(e < end);
                    assert forall|i: int| s <= i < e implies short[i] != SEPARATOR by {
                        assert(short[i] == path[i]);
                    }
                }
                if is_component(short, s, e) {
                    assert forall|i: int| s <= i < e implies path[i] != SEPARATOR by {
                        assert(short[i] == path[i]);
                    }
                    if e == end - 1 && path.last() == '.' {
                        assert(short[end - 2] != SEPARATOR);
                    }
                }
            }
            same_components_same_last(path, short);
        }
        if 0 <= start < end && (start == 0 || path[start - 1] == '/') && (forall|i: int|
            start <= i < end ==> #[trigger] path[i] != '/') && path.skip(start) != seq!['.'] {
            if end == start + 1 && path[start] == '.' {
                assert(path.skip(start) == seq!['.']);
            }
            assert(is_component(path, start, end));
            assert forall|s: int, e: int| #[trigger] is_component(path, s, e) implies s <= start by {
                if s > start {
                    assert(path[s - 1] == SEPARATOR);
                }
            }
            last_component_is_known(path, start, end);
        }
    }
}

/// The place where the first component behind the start of a path starts.
proof fn earliest_component(path: Seq<char>, from: int, s: int, e: int) -> (first: int)
    requires
        0 < from <= s,
        is_component(path, s, e),
        forall|a: int, b: int| #[trigger] is_component(path, a, b) && a > 0 ==> from <= a,
    ensures
        from <= first <= s,
        exists|b: int| #[trigger] is_component(path, first, b),
        forall|a: int, b: int| #[trigger] is_component(path, a, b) && a > 0 ==> first <= a,
    decreases s - from,
{
    if exists|b: int| #[trigger] is_component(path, from, b) {
        from
    } else {
        assert(from != s);
        earliest_component(path, from + 1, s, e)
    }
}

/// The place where the last component of a path ends.
proof fn latest_component(path: Seq<char>, till: int, s: int, e: int) -> (last: int)
    requires
        e <= till,
        is_component(path, s, e),
        forall|a: int, b: int| #[trigger] is_component(path, a, b) ==> b <= till,
    ensures
        e <= last <= till,
        exists|a: int| #[trigger] is_component(path, a, last),
        forall|a: int, b: int| #[trigger] is_component(path, a, b) ==> b <= last,
    decreases till - e,
{
    if exists|a: int| #[trigger] is_component(path, a, till) {
        till
    } else {
        assert(till != e);
        latest_component(path, till - 1, s, e)
    }
}

/// A path leads into the home directory where it is a tilde, or begins with one and a separator.
/// What it leads to there is the rest of the path, from its next component to its last one:
/// nothing but separators and components `.` stand before and behind that. It follows the path
/// of the home directory, and a separator unless that ends in one.
pub proof fn homes_hold_the_rest_of_the_path(path: Seq<char>, home: Seq<char>)
    ensures
        is_in_home(path) <==> path == seq!['~'] || seq!['~', '/'].is_prefix_of(path),
        is_in_home(path) ==> exists|start: int, end: int|
            {
                &&& 1 <= start <= end <= path.len()
                &&& is_gap(path, 1, start)
                &&& is_gap(path, end, path.len() as int)
                &&& start < end ==> !is_gap(path, start, start + 1) && !is_gap(path, end - 1, end)
                &&& expanded(path, home) == (if home.len() == 0 || home.last() == '/' {
                    home + #[trigger] path.subrange(start, end)
                } else {
                    home + seq!['/'] + path.subrange(start, end)
                })
            },
        !is_in_home(path) ==> expanded(path, home) == path,
{
    if path == seq!['~'] {
        assert(path.len() == 1 && path[0] == '~');
    }
    if seq!['~', '/'].is_prefix_of(path) {
        assert(path[0] == seq!['~', '/'][0] && path[1] == seq!['~', '/'][1]);
    }
    if is_in_home(path) {
        if path.len() == 1 {
            assert(path == seq!['~']);
        }
        let end = path.len() as int;
        if exists|s: int, e: int| #[trigger] is_component(path, s, e) && s > 0 {
            let (s, e) = choose|s: int, e: int| #[trigger] is_component(path, s, e) && s > 0;
            let first = earliest_component(path, 1, s, e);
            let last = latest_component(path, end, s, e);
            assert(is_inner_span(path, first, last));
            inner_path_is_known(path, first, last);
            let b = choose|b: int| #[trigger] is_component(path, first, b);
            let a = choose|a: int| #[trigger] is_component(path, a, last);
            assert(is_component(path, first, b) && is_component(path, a, last));
            assert(!is_component(path, 0, last) || last == 1);
            assert(path[first] != SEPARATOR && path[last - 1] != SEPARATOR);
            if is_gap(path, first, first + 1) {
                assert(path[first] == '.');
                assert(b == first + 1) by {
                    if b > first + 1 {
                        assert(path[first + 1] != SEPARATOR);
                    }
                }
            }
            if is_gap(path, last - 1, last) {
                assert(path[last - 1] == '.');
                assert(a == last - 1) by {
                    if a < last - 1 {
                        assert(path[last - 2] != SEPARATOR);
                    }
                }
            }
            assert forall|x: int, y: int| #[trigger] is_component(path, x, y) implies y <= 1 || first
                <= x by {
                if x == 0 && y > 1 {
                    assert(path[1] != SEPARATOR);
                }
            }
            gap_holds_no_component(path, 1, first);
            gap_holds_no_component(path, last, end);
            assert(home.push(SEPARATOR) + path.subrange(first, last) == home + seq!['/']
                + path.subrange(first, last));
        } else {
            assert(forall|a: int, b: int| !is_inner_span(path, a, b));
            assert forall|x: int, y: int| #[trigger] is_component(path, x, y) implies y <= 1 by {
                if x == 0 && y > 1 {
                    assert(path[1] != SEPARATOR);
                }
            }
            gap_holds_no_component(path, 1, end);
            assert(path.subrange(end, end) == Seq::<char>::empty());
            assert(home.push(SEPARATOR) + path.subrange(end, end) == home + seq!['/']
                + path.subrange(end, end));
        }
    }
}

} // verus!
