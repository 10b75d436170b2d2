use vstd::prelude::*;

verus! {

/// The character has a meaning in a glob pattern.
pub open spec fn is_glob_char(c: char) -> bool {
    c == '*' || c == '?' || c == '['
}

/// The text holds a character that has a meaning in a glob pattern.
pub open spec fn has_glob_char(s: Seq<char>) -> bool {
    exists|k: int| 0 <= k < s.len() && is_glob_char(#[trigger] s[k])
}

/// Check if a pattern contains glob characters.
pub fn is_glob_pattern(pattern: &str) -> (b: bool)
    ensures
        b == has_glob_char(pattern@),
{
    let mut found: bool = false;
    for c in it: pattern.chars()
        invariant
            it.seq() == pattern@,
            found == exists|k: int| 0 <= k < it.index() && is_glob_char(#[trigger] it.seq()[k]),
    {
        if c == '*' || c == '?' || c == '[' {
            found = true;
        }
    }
    found
}

/// `i` is the first position at or after `from` that holds `c`.
pub open spec fn is_first(s: Seq<char>, c: char, from: int, i: int) -> bool {
    &&& 0 <= from <= i < s.len()
    &&& s[i] == c
    &&& forall|k: int| from <= k < i ==> #[trigger] s[k] != c
}

/// The text holds a brace expansion such as `{a,b}`: a comma between its
/// first `{` and the first `}` that follows it.
pub open spec fn has_brace_expansion(s: Seq<char>) -> bool {
    exists|open: int, close: int, comma: int|
        #![trigger is_first(s, '{', 0, open), is_first(s, '}', open, close), s[comma]]
        is_first(s, '{', 0, open) && is_first(s, '}', open, close) && open < comma < close
            && s[comma] == ','
}

/// Check if a pattern contains brace expansion syntax (e.g., `{a,b}`).
///
/// This is not supported by glob patterns and needs a helpful error message.
pub fn contains_brace_expansion(pattern: &str) -> (b: bool)
    ensures
        b == has_brace_expansion(pattern@),
{
    // Look for `{` followed eventually by `,` and then `}`
    // This avoids false positives on patterns that just happen to have a `{`
    let ghost s = pattern@;
    let mut opened: bool = false;
    let mut closed: bool = false;
    let mut comma: bool = false;
    let ghost mut open_at: int = 0;
    let ghost mut close_at: int = 0;
    let ghost mut comma_at: int = 0;
    for c in it: pattern.chars()
        invariant
            it.seq() == s,
            s == pattern@,
            closed ==> opened,
            !opened ==> forall|k: int| 0 <= k < it.index() ==> #[trigger] s[k] != '{',
            opened ==> is_first(s, '{', 0, open_at) && open_at < it.index(),
            opened && !closed ==> forall|k: int| open_at <= k < it.index() ==> #[trigger] s[k] != '}',
            closed ==> is_first(s, '}', open_at, close_at) && close_at < it.index(),
            opened && !closed ==> (comma <==> exists|k: int|
                open_at < k < it.index() && #[trigger] s[k] == ','),
            closed ==> (comma <==> exists|k: int| open_at < k < close_at && #[trigger] s[k] == ','),
            comma ==> opened && open_at < comma_at < it.index() && s[comma_at] == ',' && (closed
                ==> comma_at < close_at),
    {
        let ghost i = it.index() as int;
        if !opened {
            if c == '{' {
                opened = true;
                proof {
                    open_at = i;
                }
            }
        } else if !closed {
            if c == '}' {
                closed = true;
                proof {
                    close_at = i;
                }
            } else if c == ',' {
                comma = true;
                proof {
                    comma_at = i;
                }
            }
        }
    }
    let result: bool = closed && comma;
    proof {
        if result {
            assert(is_first(s, '{', 0, open_at) && is_first(s, '}', open_at, close_at) && open_at
                < comma_at < close_at && s[comma_at] == ',');
        } else {
            assert forall|open: int, close: int, k: int|
                is_first(s, '{', 0, open) && is_first(s, '}', open, close) && open < k
                    < close implies s[k] != ',' by {
                if opened {
                    assert(open == open_at);
                    if closed {
                        assert(close == close_at);
                    }
                }
            }
        }
    }
    result
}

} // verus!
