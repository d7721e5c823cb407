use vstd::prelude::*;
use crate::text::{
    chars_of, contains, find_first, find_last, is_first_occurrence, is_last_occurrence, slice_chars,
    starts_with, starts_with_chars, string_of, trim, trim_chars,
};

verus! {

/// The characters of `s` before the first one for which `stop` holds.
pub open spec fn prefix_before(s: Seq<char>, stop: spec_fn(char) -> bool) -> Seq<char>
    decreases s.len(),
{
    if s.len() == 0 || stop(s[0]) {
        Seq::empty()
    } else {
        seq![s[0]] + prefix_before(s.drop_first(), stop)
    }
}

pub open spec fn is_path_start(c: char) -> bool {
    c == '/' || c == '?' || c == '#'
}

pub open spec fn is_port_start(c: char) -> bool {
    c == ':'
}

/// The text after the first occurrence of `p`, or all of it if `p` does not occur.
pub open spec fn after_first(s: Seq<char>, p: Seq<char>) -> Seq<char> {
    if contains(s, p) {
        let i = choose|i: int| is_first_occurrence(s, p, i);
        s.subrange(i + p.len(), s.len() as int)
    } else {
        s
    }
}

/// The text after the last occurrence of `p`, or all of it if `p` does not occur.
pub open spec fn after_last(s: Seq<char>, p: Seq<char>) -> Seq<char> {
    if contains(s, p) {
        let i = choose|i: int| is_last_occurrence(s, p, i);
        s.subrange(i + p.len(), s.len() as int)
    } else {
        s
    }
}

/// The host of a URL: no scheme, path, query, fragment, credentials, port,
/// nor a leading `www.`.
pub open spec fn host_spec(url: Seq<char>) -> Seq<char> {
    let rest = after_first(trim(url), "://"@);
    let authority = prefix_before(rest, |c: char| is_path_start(c));
    let host_port = after_last(authority, "@"@);
    let host = prefix_before(host_port, |c: char| is_port_start(c));
    if starts_with(host, "www."@) {
        host.subrange(4, host.len() as int)
    } else {
        host
    }
}

proof fn lemma_prefix_before_step(s: Seq<char>, stop: spec_fn(char) -> bool, k: int)
    requires
        0 <= k < s.len(),
        forall|j: int| 0 <= j <= k ==> !stop(#[trigger] s[j]),
    ensures
        prefix_before(s, stop) == s.take(k + 1) + prefix_before(s.skip(k + 1), stop),
    decreases k,
{
    if k == 0 {
        assert(s.take(1) =~= seq![s[0]]);
        assert(s.drop_first() =~= s.skip(1));
    } else {
        let t = s.drop_first();
        assert forall|j: int| 0 <= j <= k - 1 implies !stop(#[trigger] t[j]) by {
            assert(t[j] == s[j + 1]);
        }
        lemma_prefix_before_step(t, stop, k - 1);
        assert(t.take(k) =~= s.take(k + 1).drop_first());
        assert(s.take(k + 1) =~= seq![s[0]] + t.take(k));
        assert(t.skip(k) =~= s.skip(k + 1));
    }
}

fn is_separator(c: char, path: bool) -> (r: bool)
    ensures
        r == (if path {
            is_path_start(c)
        } else {
            is_port_start(c)
        }),
{
    if path {
        c == '/' || c == '?' || c == '#'
    } else {
        c == ':'
    }
}

/// The characters of `s` before the first separator: of a path, query or
/// fragment when `path` holds, else of a port.
fn prefix_until(s: &Vec<char>, path: bool) -> (r: Vec<char>)
    ensures
        path ==> r@ == prefix_before(s@, |c: char| is_path_start(c)),
        !path ==> r@ == prefix_before(s@, |c: char| is_port_start(c)),
{
    let ghost stop = if path {
        |c: char| is_path_start(c)
    } else {
        |c: char| is_port_start(c)
    };
    let n = s.len();
    let mut k: usize = 0;
    while k < n && !is_separator(s[k], path)
        invariant
            k <= n == s@.len(),
            stop == (if path {
                |c: char| is_path_start(c)
            } else {
                |c: char| is_port_start(c)
            }),
            forall|j: int| 0 <= j < k ==> !stop(#[trigger] s@[j]),
        decreases n - k,
    {
        k = k + 1;
    }
    proof {
        if k < n {
            assert(stop(s@[k as int]));
        }
        if k > 0 {
            lemma_prefix_before_step(s@, stop, k - 1);
        }
        let rest = s@.skip(k as int);
        if k < n {
            assert(rest[0] == s@[k as int]);
        }
        assert(prefix_before(rest, stop) == Seq::<char>::empty());
        assert(s@.take(k as int) + Seq::<char>::empty() =~= s@.take(k as int));
        assert(s@.skip(0) =~= s@);
        assert(s@.take(0) =~= Seq::<char>::empty());
    }
    slice_chars(s, 0, k)
}

/// The host part of a URL, for short progress lines.
pub fn host_from_url(url: &str) -> (r: String)
    ensures
        r@ == host_spec(url@),
{
    let all = chars_of(url);
    let u = trim_chars(&all);
    let sep = chars_of("://");
    proof {
        reveal_strlit("://");
        assert(sep@.len() == 3);
    }
    let rest = match find_first(&u, &sep) {
        Some(p) => {
            proof {
                let c = choose|i: int| is_first_occurrence(u@, "://"@, i);
                assert(is_first_occurrence(u@, "://"@, c));
                assert(c == p);
            }
            let n = u.len();
            proof {
                assert(p + 3 <= n);
            }
            slice_chars(&u, p + 3, n)
        },
        None => slice_chars(&u, 0, u.len()),
    };
    proof {
        assert(u@.subrange(0, u@.len() as int) =~= u@);
    }
    let authority = prefix_until(&rest, true);
    let at = chars_of("@");
    proof {
        reveal_strlit("@");
        assert(at@.len() == 1);
    }
    let host_port = match find_last(&authority, &at) {
        Some(a) => {
            proof {
                let c = choose|i: int| is_last_occurrence(authority@, "@"@, i);
                assert(is_last_occurrence(authority@, "@"@, c));
                assert(c == a);
            }
            let m = authority.len();
            proof {
                assert(a + 1 <= m);
            }
            slice_chars(&authority, a + 1, m)
        },
        None => slice_chars(&authority, 0, authority.len()),
    };
    proof {
        assert(authority@.subrange(0, authority@.len() as int) =~= authority@);
        reveal_strlit("@");
    }
    let host = prefix_until(&host_port, false);
    let www = chars_of("www.");
    proof {
        reveal_strlit("www.");
    }
    if starts_with_chars(&host, &www) {
        string_of(&slice_chars(&host, 4, host.len()))
    } else {
        string_of(&host)
    }
}

/// The host part of a URL, as shown next to a source in the interface.
pub fn extract_hostname(url: &str) -> (r: String)
    ensures
        r@ == host_spec(url@),
{
    host_from_url(url)
}

} // verus!
