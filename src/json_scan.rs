use vstd::prelude::*;
use crate::text::{
    chars_of, contains, find_first, find_last, is_first_occurrence, is_last_occurrence, slice_chars,
    starts_with, starts_with_chars, string_of, trim, trim_chars,
};

verus! {

/// Where a left-to-right scan for a balanced JSON object stands.
pub struct ScanState {
    pub depth: int,
    pub in_string: bool,
    pub escape: bool,
}

pub open spec fn scan_init() -> ScanState {
    ScanState { depth: 0, in_string: false, escape: false }
}

/// Whether `c` flips the in-string flag, given the scan state before it.
pub open spec fn string_after(st: ScanState, c: char) -> bool {
    if c == '"' {
        !st.in_string
    } else {
        st.in_string
    }
}

/// One step of the scan: a character after a backslash is skipped; quotes
/// open and close strings; braces outside strings count depth.
pub open spec fn scan_step(st: ScanState, c: char) -> ScanState {
    if st.escape {
        ScanState { escape: false, ..st }
    } else if c == '\\' {
        ScanState { escape: true, ..st }
    } else {
        let ins = string_after(st, c);
        let d = if !ins && c == '{' {
            st.depth + 1
        } else if !ins && c == '}' {
            st.depth - 1
        } else {
            st.depth
        };
        ScanState { depth: d, in_string: ins, escape: false }
    }
}

/// The scan state after the characters of `s`.
pub open spec fn scan_after(s: Seq<char>) -> ScanState
    decreases s.len(),
{
    if s.len() == 0 {
        scan_init()
    } else {
        scan_step(scan_after(s.drop_last()), s.last())
    }
}

/// The character at `i` of `u` closes the object that `u` opens.
pub open spec fn closes_at(u: Seq<char>, i: int) -> bool {
    let st = scan_after(u.take(i));
    0 <= i < u.len() && !st.escape && u[i] != '\\' && !string_after(st, u[i]) && u[i] == '}'
        && st.depth == 1
}

/// `o` is the first balanced JSON object of `t`: it starts at the first `{`
/// and ends at the first brace that brings the depth back to zero.
pub open spec fn is_first_object(t: Seq<char>, o: Seq<char>) -> bool {
    exists|start: int, i: int|
        {
            &&& is_first_occurrence(t, seq!['{'], start)
            &&& closes_at(t.subrange(start, t.len() as int), i)
            &&& forall|j: int| 0 <= j < i ==> !closes_at(t.subrange(start, t.len() as int), j)
            &&& o == t.subrange(start, start + i + 1)
        }
}

/// `t` holds no balanced JSON object that starts at its first `{`.
pub open spec fn has_no_object(t: Seq<char>) -> bool {
    !contains(t, seq!['{']) || exists|start: int|
        {
            &&& is_first_occurrence(t, seq!['{'], start)
            &&& forall|j: int| !closes_at(t.subrange(start, t.len() as int), j)
        }
}

/// Extracts the first balanced JSON object from `text`, by a depth-tracking
/// scan that honours strings and escapes.
pub fn extract_json_object(text: &str) -> (r: Option<String>)
    ensures
        r matches Some(o) ==> is_first_object(text@, o@),
        r is None ==> has_no_object(text@),
{
    let t = chars_of(text);
    let open = vec!['{'];
    proof {
        assert(open@ =~= seq!['{']);
    }
    let start = match find_first(&t, &open) {
        Some(s) => s,
        None => {
            return None;
        },
    };
    let n = t.len();
    let ghost u = t@.subrange(start as int, n as int);
    let mut depth: usize = 0;
    let mut in_string = false;
    let mut escape = false;
    let mut k: usize = start;
    while k < n
        invariant
            start <= k <= n == t@.len(),
            t@ == text@,
            is_first_occurrence(t@, seq!['{'], start as int),
            u == t@.subrange(start as int, n as int),
            scan_after(u.take(k - start)) == (ScanState {
                depth: depth as int,
                in_string,
                escape,
            }),
            depth <= k - start,
            k > start ==> depth >= 1,
            forall|j: int| 0 <= j < k - start ==> !closes_at(u, j),
        decreases n - k,
    {
        let c = t[k];
        let ghost i = k - start;
        proof {
            assert(u.take(i + 1).drop_last() =~= u.take(i));
            assert(u.take(i + 1).last() == c);
            assert(u[i] == c);
            if i == 0 {
                assert(t@.subrange(start as int, start + 1) =~= seq![c]);
            }
        }
        if escape {
            escape = false;
        } else if c == '\\' {
            escape = true;
        } else {
            if c == '"' {
                in_string = !in_string;
            }
            if !in_string {
                if c == '{' {
                    depth = depth + 1;
                } else if c == '}' {
                    depth = depth - 1;
                    if depth == 0 {
                        let o = slice_chars(&t, start, k + 1);
                        proof {
                            assert(closes_at(u, i));
                            assert(o@ == t@.subrange(start as int, start + i + 1));
                        }
                        return Some(string_of(&o));
                    }
                }
            }
        }
        proof {
            assert(!closes_at(u, i));
        }
        k = k + 1;
    }
    proof {
        assert forall|j: int| !closes_at(u, j) by {
            if 0 <= j < n - start {
            }
        }
    }
    None
}

/// Why no JSON array could be taken from a reply.
#[derive(PartialEq, Eq, Structural, Clone, Copy, Debug)]
pub enum ExtractError {
    NoJsonArray,
}

/// The JSON array that a reply holds: from its first `[` to its last `]`, or,
/// failing that, the whole trimmed reply when it begins with `[`.
pub open spec fn json_array_of(t: Seq<char>) -> Option<Seq<char>> {
    if exists|a: int, b: int|
        is_first_occurrence(t, seq!['['], a) && is_last_occurrence(t, seq![']'], b) && b > a {
        let a = choose|a: int| is_first_occurrence(t, seq!['['], a);
        let b = choose|b: int| is_last_occurrence(t, seq![']'], b);
        Some(t.subrange(a, b + 1))
    } else if starts_with(trim(t), seq!['[']) {
        Some(trim(t))
    } else {
        None
    }
}

proof fn lemma_first_unique(t: Seq<char>, p: Seq<char>, a: int, b: int)
    requires
        is_first_occurrence(t, p, a),
        is_first_occurrence(t, p, b),
    ensures
        a == b,
{
}

proof fn lemma_last_unique(t: Seq<char>, p: Seq<char>, a: int, b: int)
    requires
        is_last_occurrence(t, p, a),
        is_last_occurrence(t, p, b),
    ensures
        a == b,
{
}

/// Takes the JSON array out of a reply: from the first `[` to the last `]`;
/// else the trimmed reply if it begins with `[`; else an error.
pub fn extract_json_array_static(text: &str) -> (r: Result<String, ExtractError>)
    ensures
        r matches Ok(s) ==> json_array_of(text@) == Some(s@),
        r is Err ==> json_array_of(text@) is None,
{
    let t = chars_of(text);
    let open = vec!['['];
    let close = vec![']'];
    proof {
        assert(open@ =~= seq!['[']);
        assert(close@ =~= seq![']']);
    }
    let first = find_first(&t, &open);
    let last = find_last(&t, &close);
    if let Some(a) = first {
        if let Some(b) = last {
            if b > a {
                let n = t.len();
                proof {
                    assert(b + 1 <= n);
                }
                let o = slice_chars(&t, a, b + 1);
                proof {
                    let ca = choose|x: int| is_first_occurrence(t@, seq!['['], x);
                    let cb = choose|x: int| is_last_occurrence(t@, seq![']'], x);
                    lemma_first_unique(t@, seq!['['], ca, a as int);
                    lemma_last_unique(t@, seq![']'], cb, b as int);
                }
                return Ok(string_of(&o));
            }
        }
    }
    let tr = trim_chars(&t);
    proof {
        if exists|x: int, y: int|
            is_first_occurrence(t@, seq!['['], x) && is_last_occurrence(t@, seq![']'], y) && y > x {
            let (x, y) = choose|x: int, y: int|
                is_first_occurrence(t@, seq!['['], x) && is_last_occurrence(t@, seq![']'], y) && y
                    > x;
            assert(contains(t@, seq!['[']));
            assert(contains(t@, seq![']']));
            lemma_first_unique(t@, seq!['['], x, first->Some_0 as int);
            lemma_last_unique(t@, seq![']'], y, last->Some_0 as int);
        }
    }
    if starts_with_chars(&tr, &open) {
        return Ok(string_of(&tr));
    }
    Err(ExtractError::NoJsonArray)
}

} // verus!
