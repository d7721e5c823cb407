use vstd::prelude::*;
use crate::status::{decimal_chars, decimal_of};
use crate::text::{
    append_chars, append_str, chars_eq, chars_of, contains, contains_chars, ends_with,
    ends_with_chars, lex_less, lex_lt, lemma_lex_total, lemma_lex_transitive, starts_with,
    starts_with_chars, string_of, trim, trim_chars,
};

verus! {

/// What `regex` finds in a text: for a pattern that compiles, the text of
/// capture group `group` in each successive match.
pub uninterp spec fn regex_captures_of(pattern: Seq<char>, text: Seq<char>, group: nat) -> Option<
    Seq<Seq<char>>,
>;

pub open spec fn views(v: Seq<String>) -> Seq<Seq<char>> {
    v.map_values(|s: String| s@)
}

/// Relies on `regex::Regex::new` and `regex::Regex::captures_iter`: when the
/// pattern compiles, the text of group `group` in each successive
/// non-overlapping match, empty where the group took no part.
#[verifier::external_body]
fn regex_captures(pattern: &str, text: &str, group: usize) -> (r: Option<Vec<String>>)
    ensures
        r matches Some(v) ==> regex_captures_of(pattern@, text@, group as nat) == Some(views(v@)),
        r is None ==> regex_captures_of(pattern@, text@, group as nat) is None,
{
    match regex::Regex::new(pattern) {
        Ok(re) => Some(
            re.captures_iter(text).map(
                |c| c.get(group).map_or(String::new(), |m| m.as_str().to_string()),
            ).collect(),
        ),
        Err(_) => None,
    }
}

pub open spec fn strictly_sorted(v: Seq<Seq<char>>) -> bool {
    forall|i: int, j: int| 0 <= i < j < v.len() ==> lex_lt(#[trigger] v[i], #[trigger] v[j])
}

/// Adds `x` to a strictly sorted list, unless it is there already.
pub(crate) fn insert_sorted(set: &mut Vec<String>, x: String)
    requires
        strictly_sorted(views(old(set)@)),
    ensures
        strictly_sorted(views(final(set)@)),
        views(final(set)@).to_set() == views(old(set)@).to_set().insert(x@),
{
    let xc = chars_of(x.as_str());
    let n = set.len();
    let mut p: usize = 0;
    let mut done = false;
    while p < n && !done
        invariant
            n == set@.len(),
            p <= n,
            xc@ == x@,
            set@ == old(set)@,
            forall|i: int| 0 <= i < p ==> lex_lt(#[trigger] views(set@)[i], x@),
            done ==> p < n && !lex_lt(views(set@)[p as int], x@),
        decreases (n - p) * 2 + (if done {
            0int
        } else {
            1int
        }),
    {
        let cur = chars_of(set[p].as_str());
        if lex_less(&cur, &xc) {
            p = p + 1;
        } else {
            done = true;
        }
    }
    let ghost v = views(set@);
    proof {
        assert(strictly_sorted(v));
        assert(p < n ==> !lex_lt(v[p as int], x@));
    }
    if p < n {
        let cur = chars_of(set[p].as_str());
        if chars_eq(&cur, &xc) {
            proof {
                assert(v.to_set().insert(x@) =~= v.to_set()) by {
                    assert(v[p as int] == x@);
                }
            }
            return;
        }
        proof {
            lemma_lex_total(v[p as int], x@);
            assert(lex_lt(x@, v[p as int]));
        }
    }
    set.insert(p, x);
    proof {
        let w = views(set@);
        assert(w =~= v.insert(p as int, x@));
        assert forall|i: int, j: int| 0 <= i < j < w.len() implies lex_lt(
            #[trigger] w[i],
            #[trigger] w[j],
        ) by {
            if j == p {
            } else if i == p {
                if j > p + 1 {
                    lemma_lex_transitive(x@, v[p as int], v[j - 1]);
                }
            } else if i < p && j > p {
                if j - 1 > p {
                    lemma_lex_transitive(x@, v[p as int], v[j - 1]);
                }
                lemma_lex_transitive(v[i], x@, v[j - 1]);
            }
        }
        assert forall|y: Seq<char>| #[trigger] w.to_set().contains(y) == v.to_set().insert(
            x@,
        ).contains(y) by {
            if w.to_set().contains(y) {
                let k = choose|k: int| 0 <= k < w.len() && w[k] == y;
                if k < p {
                    assert(v[k] == y);
                } else if k > p {
                    assert(v[k - 1] == y);
                }
            }
            if v.to_set().contains(y) {
                let k = choose|k: int| 0 <= k < v.len() && v[k] == y;
                if k < p {
                    assert(w[k] == y);
                } else {
                    assert(w[k + 1] == y);
                }
            }
            if y == x@ {
                assert(w[p as int] == y);
            }
        }
        assert(w.to_set() =~= v.to_set().insert(x@));
    }
}

/// The citation patterns: `[Source: …]`, `(Source: …)`, and bare URLs.
pub open spec fn bracket_pattern() -> Seq<char> {
    r"\[Source:\s*([^\]]+)\]"@
}

pub open spec fn paren_pattern() -> Seq<char> {
    r"\(Source:\s*([^\)]+)\)"@
}

pub open spec fn url_pattern() -> Seq<char> {
    r"https?://[^\s\)\]]+"@
}

pub open spec fn found(o: Option<Seq<Seq<char>>>) -> Seq<Seq<char>> {
    match o {
        Some(s) => s,
        None => Seq::empty(),
    }
}

/// The sources named in citation tags: each trimmed, the empty ones dropped.
pub open spec fn cleaned_tags(caps: Seq<Seq<char>>) -> Seq<Seq<char>> {
    caps.map_values(|c: Seq<char>| trim(c)).filter(|c: Seq<char>| c.len() > 0)
}

/// The text already cites `u` inside a `[Source: …]` or `(Source: …)` tag.
pub open spec fn is_wrapped(text: Seq<char>, u: Seq<char>) -> bool {
    contains(text, "[Source: "@ + u + "]"@) || contains(text, "(Source: "@ + u + ")"@)
}

pub open spec fn is_url_tail(c: char) -> bool {
    c == '.' || c == ',' || c == ';'
}

/// A URL without the trailing `.`, `,` and `;` that prose leaves on it.
pub open spec fn trim_url_end(u: Seq<char>) -> Seq<char>
    decreases u.len(),
{
    if u.len() > 0 && is_url_tail(u.last()) {
        trim_url_end(u.drop_last())
    } else {
        u
    }
}

/// The bare URLs that no citation tag already holds, with their trailing
/// punctuation removed.
pub open spec fn bare_urls(text: Seq<char>, urls: Seq<Seq<char>>) -> Seq<Seq<char>> {
    urls.filter(|u: Seq<char>| !is_wrapped(text, u)).map_values(|u: Seq<char>| trim_url_end(u))
}


proof fn lemma_cleaned_push(s: Seq<Seq<char>>, c: Seq<char>)
    ensures
        cleaned_tags(s.push(c)) == (if trim(c).len() > 0 {
            cleaned_tags(s).push(trim(c))
        } else {
            cleaned_tags(s)
        }),
{
    let f = |c: Seq<char>| trim(c);
    let p = |c: Seq<char>| c.len() > 0;
    assert(s.push(c).map_values(f) =~= s.map_values(f).push(trim(c)));
    s.map_values(f).lemma_filter_push(trim(c), p);
}

proof fn lemma_bare_push(text: Seq<char>, s: Seq<Seq<char>>, u: Seq<char>)
    ensures
        bare_urls(text, s.push(u)) == (if !is_wrapped(text, u) {
            bare_urls(text, s).push(trim_url_end(u))
        } else {
            bare_urls(text, s)
        }),
{
    let p = |u: Seq<char>| !is_wrapped(text, u);
    let f = |u: Seq<char>| trim_url_end(u);
    s.lemma_filter_push(u, p);
    if !is_wrapped(text, u) {
        assert(s.filter(p).push(u).map_values(f) =~= s.filter(p).map_values(f).push(trim_url_end(u)));
    }
}

proof fn lemma_concat_to_set(a: Seq<Seq<char>>, b: Seq<Seq<char>>)
    ensures
        (a + b).to_set() == a.to_set() + b.to_set(),
{
    assert forall|y: Seq<char>| #[trigger] (a + b).to_set().contains(y) == (a.to_set()
        + b.to_set()).contains(y) by {
        if (a + b).to_set().contains(y) {
            let k = choose|k: int| 0 <= k < (a + b).len() && (a + b)[k] == y;
            if k < a.len() {
                assert(a[k] == y);
            } else {
                assert(b[k - a.len()] == y);
            }
        }
        if a.to_set().contains(y) {
            let k = choose|k: int| 0 <= k < a.len() && a[k] == y;
            assert((a + b)[k] == y);
        }
        if b.to_set().contains(y) {
            let k = choose|k: int| 0 <= k < b.len() && b[k] == y;
            assert((a + b)[k + a.len()] == y);
        }
    }
    assert((a + b).to_set() =~= a.to_set() + b.to_set());
}

/// Adds the trimmed, nonempty tag captures to a sorted set of sources.
fn add_tagged(set: &mut Vec<String>, caps: &Vec<String>)
    requires
        strictly_sorted(views(old(set)@)),
    ensures
        strictly_sorted(views(final(set)@)),
        views(final(set)@).to_set() == views(old(set)@).to_set() + cleaned_tags(
            views(caps@),
        ).to_set(),
{
    let mut k: usize = 0;
    proof {
        assert(views(caps@).take(0) =~= Seq::<Seq<char>>::empty());
        assert(cleaned_tags(Seq::<Seq<char>>::empty()) =~= Seq::<Seq<char>>::empty());
        assert(views(set@).to_set() + Seq::<Seq<char>>::empty().to_set() =~= views(set@).to_set());
    }
    while k < caps.len()
        invariant
            k <= caps@.len(),
            strictly_sorted(views(set@)),
            views(set@).to_set() == views(old(set)@).to_set() + cleaned_tags(
                views(caps@).take(k as int),
            ).to_set(),
        decreases caps.len() - k,
    {
        let c = chars_of(caps[k].as_str());
        let t = trim_chars(&c);
        let ghost before = views(set@).to_set();
        proof {
            assert(views(caps@).take(k + 1) =~= views(caps@).take(k as int).push(caps@[k as int]@));
            lemma_cleaned_push(views(caps@).take(k as int), caps@[k as int]@);
            cleaned_tags(views(caps@).take(k as int)).lemma_push_to_set_commute(trim(caps@[k as int]@));
        }
        if t.len() > 0 {
            insert_sorted(set, string_of(&t));
            proof {
                assert(views(set@).to_set() =~= views(old(set)@).to_set() + cleaned_tags(
                    views(caps@).take(k + 1),
                ).to_set());
            }
        }
        k = k + 1;
    }
    proof {
        assert(views(caps@).take(caps@.len() as int) =~= views(caps@));
    }
}

/// `u` without trailing `.`, `,` and `;`.
fn trim_url_end_exec(u: &Vec<char>) -> (r: Vec<char>)
    ensures
        r@ == trim_url_end(u@),
{
    let mut j: usize = u.len();
    proof {
        assert(u@.subrange(0, j as int) =~= u@);
    }
    while j > 0 && (u[j - 1] == '.' || u[j - 1] == ',' || u[j - 1] == ';')
        invariant
            j <= u@.len(),
            trim_url_end(u@) == trim_url_end(u@.subrange(0, j as int)),
        decreases j,
    {
        proof {
            assert(u@.subrange(0, j as int).drop_last() =~= u@.subrange(0, j - 1));
        }
        j = j - 1;
    }
    let mut r: Vec<char> = Vec::new();
    let mut k: usize = 0;
    while k < j
        invariant
            k <= j <= u@.len(),
            r@ == u@.subrange(0, k as int),
        decreases j - k,
    {
        r.push(u[k]);
        k = k + 1;
        proof {
            assert(r@ =~= u@.subrange(0, k as int));
        }
    }
    r
}

/// Whether `text` already cites `u` in a `[Source: …]` or `(Source: …)` tag.
fn is_wrapped_exec(text: &Vec<char>, u: &Vec<char>) -> (r: bool)
    ensures
        r == is_wrapped(text@, u@),
{
    let mut a: Vec<char> = Vec::new();
    append_str(&mut a, "[Source: ");
    append_chars(&mut a, u);
    append_str(&mut a, "]");
    let mut b: Vec<char> = Vec::new();
    append_str(&mut b, "(Source: ");
    append_chars(&mut b, u);
    append_str(&mut b, ")");
    proof {
        assert(a@ =~= "[Source: "@ + u@ + "]"@);
        assert(b@ =~= "(Source: "@ + u@ + ")"@);
    }
    contains_chars(text, &a) || contains_chars(text, &b)
}

/// Adds the bare URLs that no tag already cites to a sorted set of sources.
fn add_bare_urls(set: &mut Vec<String>, text: &Vec<char>, urls: &Vec<String>)
    requires
        strictly_sorted(views(old(set)@)),
    ensures
        strictly_sorted(views(final(set)@)),
        views(final(set)@).to_set() == views(old(set)@).to_set() + bare_urls(
            text@,
            views(urls@),
        ).to_set(),
{
    let mut k: usize = 0;
    proof {
        assert(views(urls@).take(0) =~= Seq::<Seq<char>>::empty());
        assert(bare_urls(text@, Seq::<Seq<char>>::empty()) =~= Seq::<Seq<char>>::empty());
        assert(views(set@).to_set() + Seq::<Seq<char>>::empty().to_set() =~= views(set@).to_set());
    }
    while k < urls.len()
        invariant
            k <= urls@.len(),
            strictly_sorted(views(set@)),
            views(set@).to_set() == views(old(set)@).to_set() + bare_urls(
                text@,
                views(urls@).take(k as int),
            ).to_set(),
        decreases urls.len() - k,
    {
        let u = chars_of(urls[k].as_str());
        proof {
            assert(views(urls@).take(k + 1) =~= views(urls@).take(k as int).push(urls@[k as int]@));
            lemma_bare_push(text@, views(urls@).take(k as int), urls@[k as int]@);
            bare_urls(text@, views(urls@).take(k as int)).lemma_push_to_set_commute(
                trim_url_end(urls@[k as int]@),
            );
        }
        if !is_wrapped_exec(text, &u) {
            let t = trim_url_end_exec(&u);
            insert_sorted(set, string_of(&t));
            proof {
                assert(views(set@).to_set() =~= views(old(set)@).to_set() + bare_urls(
                    text@,
                    views(urls@).take(k + 1),
                ).to_set());
            }
        }
        k = k + 1;
    }
    proof {
        assert(views(urls@).take(urls@.len() as int) =~= views(urls@));
    }
}

/// The references that the three citation patterns found: the trimmed,
/// nonempty sources of `[Source: …]` captures and of `(Source: …)` captures,
/// and the bare URLs that no tag in `text` already cites, without trailing
/// punctuation.
pub open spec fn references_of(
    text: Seq<char>,
    bracket: Seq<Seq<char>>,
    paren: Seq<Seq<char>>,
    urls: Seq<Seq<char>>,
) -> Seq<Seq<char>> {
    cleaned_tags(bracket) + cleaned_tags(paren) + bare_urls(text, urls)
}

/// Every reference that the three citation patterns find in a text.
pub open spec fn source_candidates(text: Seq<char>) -> Seq<Seq<char>> {
    references_of(
        text,
        found(regex_captures_of(bracket_pattern(), text, 1)),
        found(regex_captures_of(paren_pattern(), text, 1)),
        found(regex_captures_of(url_pattern(), text, 0)),
    )
}

/// The unique references, in sorted order, given what the three citation
/// patterns captured in `text`: the group of each `[Source: …]` and
/// `(Source: …)` match, and each bare URL match.
pub fn sources_from_captures(
    text: &str,
    bracket: &Vec<String>,
    paren: &Vec<String>,
    urls: &Vec<String>,
) -> (r: Vec<String>)
    ensures
        strictly_sorted(views(r@)),
        views(r@).to_set() == references_of(text@, views(bracket@), views(paren@), views(urls@)).to_set(),
{
    let t = chars_of(text);
    let mut set: Vec<String> = Vec::new();
    proof {
        assert(views(set@) =~= Seq::<Seq<char>>::empty());
        assert(views(set@).to_set() =~= Set::<Seq<char>>::empty());
    }
    add_tagged(&mut set, bracket);
    let ghost s1 = views(set@).to_set();
    add_tagged(&mut set, paren);
    let ghost s2 = views(set@).to_set();
    add_bare_urls(&mut set, &t, urls);
    proof {
        let a = cleaned_tags(views(bracket@));
        let b = cleaned_tags(views(paren@));
        let c = bare_urls(text@, views(urls@));
        assert(s1 =~= a.to_set());
        assert(s2 =~= a.to_set() + b.to_set());
        assert(views(set@).to_set() =~= a.to_set() + b.to_set() + c.to_set());
        lemma_concat_to_set(a, b);
        lemma_concat_to_set(a + b, c);
        assert((a + b + c).to_set() =~= a.to_set() + b.to_set() + c.to_set());
    }
    set
}

/// The unique references cited in `text`, in sorted order: the sources of
/// `[Source: …]` and `(Source: …)` tags, and bare URLs that no such tag holds.
pub fn extract_sources(text: &str) -> (r: Vec<String>)
    ensures
        strictly_sorted(views(r@)),
        views(r@).to_set() == source_candidates(text@).to_set(),
{
    let bracket = match regex_captures(r"\[Source:\s*([^\]]+)\]", text, 1) {
        Some(v) => v,
        None => {
            let v: Vec<String> = Vec::new();
            proof {
                assert(views(v@) =~= Seq::<Seq<char>>::empty());
            }
            v
        },
    };
    let paren = match regex_captures(r"\(Source:\s*([^\)]+)\)", text, 1) {
        Some(v) => v,
        None => {
            let v: Vec<String> = Vec::new();
            proof {
                assert(views(v@) =~= Seq::<Seq<char>>::empty());
            }
            v
        },
    };
    let urls = match regex_captures(r"https?://[^\s\)\]]+", text, 0) {
        Some(v) => v,
        None => {
            let v: Vec<String> = Vec::new();
            proof {
                assert(views(v@) =~= Seq::<Seq<char>>::empty());
            }
            v
        },
    };
    sources_from_captures(text, &bracket, &paren, &urls)
}

/// Whether a reference is a web address.
pub open spec fn is_web(s: Seq<char>) -> bool {
    starts_with(s, "http://"@) || starts_with(s, "https://"@)
}

/// One numbered line of the references list.
pub open spec fn list_line(n: nat, s: Seq<char>, web: bool) -> Seq<char> {
    decimal_of(n) + ". "@ + (if web {
        "<"@ + s + ">"@
    } else {
        s
    }) + "\n"@
}

/// The items numbered from `first` on, one line each.
pub open spec fn numbered(items: Seq<Seq<char>>, first: nat, web: bool) -> Seq<char>
    decreases items.len(),
{
    if items.len() == 0 {
        Seq::empty()
    } else {
        numbered(items.drop_last(), first, web) + list_line(
            (first + items.len() - 1) as nat,
            items.last(),
            web,
        )
    }
}

/// The references section: web sources first, then the others, numbered on.
pub open spec fn references_block(web: Seq<Seq<char>>, other: Seq<Seq<char>>) -> Seq<char> {
    "---\n\n## References\n\n"@ + (if web.len() > 0 {
        "### Web Sources\n\n"@ + "The following websites and online resources were consulted:\n\n"@
            + numbered(web, 1, true)
    } else {
        Seq::empty()
    }) + (if other.len() > 0 {
        (if web.len() > 0 {
            "\n"@
        } else {
            Seq::empty()
        }) + "### Additional Sources\n\n"@ + "Other sources referenced:\n\n"@ + numbered(
            other,
            (web.len() + 1) as nat,
            false,
        )
    } else {
        Seq::empty()
    })
}

/// The text with a references section for `sources` appended, or the text
/// itself when there are none.
pub open spec fn with_references(text: Seq<char>, sources: Seq<Seq<char>>) -> Seq<char> {
    if sources.len() == 0 {
        text
    } else {
        text + (if ends_with(text, "\n\n"@) {
            Seq::empty()
        } else {
            "\n\n"@
        }) + references_block(
            sources.filter(|s: Seq<char>| is_web(s)),
            sources.filter(|s: Seq<char>| !is_web(s)),
        )
    }
}

fn is_web_exec(s: &Vec<char>) -> (r: bool)
    ensures
        r == is_web(s@),
{
    let a = chars_of("http://");
    let b = chars_of("https://");
    starts_with_chars(s, &a) || starts_with_chars(s, &b)
}

fn list_line_exec(n: usize, item: &str, web: bool) -> (r: Vec<char>)
    ensures
        r@ == list_line(n as nat, item@, web),
{
    let mut out = decimal_chars(n);
    append_str(&mut out, ". ");
    if web {
        append_str(&mut out, "<");
        append_str(&mut out, item);
        append_str(&mut out, ">");
    } else {
        append_str(&mut out, item);
    }
    append_str(&mut out, "\n");
    proof {
        assert(out@ =~= list_line(n as nat, item@, web));
    }
    out
}

/// Appends the numbered lines for `items` to `out`.
fn append_numbered(out: &mut Vec<char>, items: &Vec<String>, first: usize, web: bool)
    requires
        first + items@.len() <= usize::MAX + 1,
    ensures
        final(out)@ == old(out)@ + numbered(views(items@), first as nat, web),
{
    let mut i: usize = 0;
    proof {
        assert(views(items@).take(0) =~= Seq::<Seq<char>>::empty());
        assert(out@ =~= old(out)@ + numbered(views(items@).take(0), first as nat, web));
    }
    while i < items.len()
        invariant
            i <= items@.len(),
            first + items@.len() <= usize::MAX + 1,
            out@ == old(out)@ + numbered(views(items@).take(i as int), first as nat, web),
        decreases items.len() - i,
    {
        let ghost before = out@;
        let line = list_line_exec(first + i, items[i].as_str(), web);
        append_chars(out, &line);
        proof {
            let t = views(items@).take(i + 1);
            assert(t.drop_last() =~= views(items@).take(i as int));
            assert(t.last() == items@[i as int]@);
        }
        i = i + 1;
    }
    proof {
        assert(views(items@).take(items@.len() as int) =~= views(items@));
    }
}

/// Splits references into web addresses and the rest, keeping their order.
fn partition_sources(sources: &Vec<String>) -> (r: (Vec<String>, Vec<String>))
    ensures
        views(r.0@) == views(sources@).filter(|s: Seq<char>| is_web(s)),
        views(r.1@) == views(sources@).filter(|s: Seq<char>| !is_web(s)),
        r.0@.len() + r.1@.len() == sources@.len(),
{
    let mut urls: Vec<String> = Vec::new();
    let mut others: Vec<String> = Vec::new();
    let ghost pw = |s: Seq<char>| is_web(s);
    let ghost po = |s: Seq<char>| !is_web(s);
    let mut k: usize = 0;
    proof {
        assert(views(sources@).take(0) =~= Seq::<Seq<char>>::empty());
        assert(views(urls@) =~= Seq::<Seq<char>>::empty());
        assert(views(others@) =~= Seq::<Seq<char>>::empty());
    }
    while k < sources.len()
        invariant
            k <= sources@.len(),
            pw == (|s: Seq<char>| is_web(s)),
            po == (|s: Seq<char>| !is_web(s)),
            views(urls@) == views(sources@).take(k as int).filter(pw),
            views(others@) == views(sources@).take(k as int).filter(po),
            urls@.len() + others@.len() == k,
        decreases sources.len() - k,
    {
        let s = chars_of(sources[k].as_str());
        proof {
            assert(views(sources@).take(k + 1) =~= views(sources@).take(k as int).push(
                sources@[k as int]@,
            ));
            views(sources@).take(k as int).lemma_filter_push(sources@[k as int]@, pw);
            views(sources@).take(k as int).lemma_filter_push(sources@[k as int]@, po);
        }
        if is_web_exec(&s) {
            urls.push(sources[k].clone());
            proof {
                assert(views(urls@) =~= views(sources@).take(k + 1).filter(pw));
                assert(views(others@) =~= views(sources@).take(k + 1).filter(po));
            }
        } else {
            others.push(sources[k].clone());
            proof {
                assert(views(urls@) =~= views(sources@).take(k + 1).filter(pw));
                assert(views(others@) =~= views(sources@).take(k + 1).filter(po));
            }
        }
        k = k + 1;
    }
    proof {
        assert(views(sources@).take(sources@.len() as int) =~= views(sources@));
    }
    (urls, others)
}

/// The references section for web sources `urls` and other sources `others`.
fn references_block_exec(urls: &Vec<String>, others: &Vec<String>) -> (r: Vec<char>)
    requires
        urls@.len() + others@.len() <= usize::MAX,
    ensures
        r@ == references_block(views(urls@), views(others@)),
{
    let mut out: Vec<char> = Vec::new();
    append_str(&mut out, "---\n\n## References\n\n");
    let ghost a = out@;
    if urls.len() > 0 {
        append_str(&mut out, "### Web Sources\n\n");
        append_str(&mut out, "The following websites and online resources were consulted:\n\n");
        append_numbered(&mut out, urls, 1, true);
    }
    let ghost b = out@;
    if others.len() > 0 {
        if urls.len() > 0 {
            append_str(&mut out, "\n");
        }
        append_str(&mut out, "### Additional Sources\n\n");
        append_str(&mut out, "Other sources referenced:\n\n");
        append_numbered(&mut out, others, urls.len() + 1, false);
    }
    proof {
        assert(out@ =~= references_block(views(urls@), views(others@)));
    }
    out
}

/// Appends a references section for `sources`, a sorted list of unique
/// references, to `text`: web sources and others under their own headings.
pub fn render_sources_section(text: &str, sources: &Vec<String>) -> (r: String)
    ensures
        r@ == with_references(text@, views(sources@)),
{
    let mut out = chars_of(text);
    if sources.len() == 0 {
        return string_of(&out);
    }
    let (urls, others) = partition_sources(sources);
    let sep = chars_of("\n\n");
    if !ends_with_chars(&out, &sep) {
        append_str(&mut out, "\n\n");
    }
    let block = references_block_exec(&urls, &others);
    append_chars(&mut out, &block);
    proof {
        assert(out@ =~= with_references(text@, views(sources@)));
    }
    string_of(&out)
}

/// Appends a references section to `text`, built from the references that
/// `text` itself cites.
pub fn add_sources_section(text: &str) -> (r: String)
    ensures
        exists|s: Seq<Seq<char>>|
            {
                &&& strictly_sorted(s)
                &&& s.to_set() == source_candidates(text@).to_set()
                &&& r@ == with_references(text@, s)
            },
{
    let sources = extract_sources(text);
    render_sources_section(text, &sources)
}

/// The endpoints that HTTP tools have called, as a sorted set, for showing
/// what is being consulted.
pub struct SourceLog {
    sources: Vec<String>,
}

impl View for SourceLog {
    type V = Set<Seq<char>>;

    closed spec fn view(&self) -> Set<Seq<char>> {
        views(self.sources@).to_set()
    }
}

impl SourceLog {
    pub closed spec fn wf(&self) -> bool {
        strictly_sorted(views(self.sources@))
    }

    /// A log with no sources.
    pub fn new() -> (r: SourceLog)
        ensures
            r.wf(),
            r@ == Set::<Seq<char>>::empty(),
    {
        let r = SourceLog { sources: Vec::new() };
        proof {
            assert(views(r.sources@) =~= Seq::<Seq<char>>::empty());
            assert(r@ =~= Set::<Seq<char>>::empty());
        }
        r
    }

    /// Records that `url` is being consulted.
    pub fn note_current_source(&mut self, url: &str)
        requires
            old(self).wf(),
        ensures
            final(self).wf(),
            final(self)@ == old(self)@.insert(url@),
    {
        insert_sorted(&mut self.sources, url.to_owned());
    }

    /// The sources recorded so far, sorted.
    pub fn get_current_sources(&self) -> (r: Vec<String>)
        requires
            self.wf(),
        ensures
            strictly_sorted(views(r@)),
            views(r@).to_set() == self@,
    {
        let mut r: Vec<String> = Vec::new();
        let mut i: usize = 0;
        while i < self.sources.len()
            invariant
                i <= self.sources@.len(),
                views(r@) == views(self.sources@).take(i as int),
            decreases self.sources.len() - i,
        {
            let ghost prev = r@;
            let c = self.sources[i].clone();
            r.push(c);
            proof {
                assert(r@ =~= prev.push(self.sources@[i as int]));
                assert(views(r@) =~= views(prev).push(self.sources@[i as int]@));
                assert(views(self.sources@).take(i + 1) =~= views(self.sources@).take(i as int).push(
                    self.sources@[i as int]@,
                ));
            }
            i = i + 1;
        }
        proof {
            assert(views(self.sources@).take(i as int) =~= views(self.sources@));
        }
        r
    }

    /// Forgets every recorded source.
    pub fn clear_current_sources(&mut self)
        ensures
            final(self).wf(),
            final(self)@ == Set::<Seq<char>>::empty(),
    {
        self.sources.clear();
        proof {
            assert(views(self.sources@) =~= Seq::<Seq<char>>::empty());
            assert(self@ =~= Set::<Seq<char>>::empty());
        }
    }
}

} // verus!
