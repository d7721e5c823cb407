use vstd::prelude::*;
use crate::text::chars_of;

verus! {

pub open spec fn is_digit(c: char) -> bool {
    '0' <= c && c <= '9'
}

pub open spec fn digit_value(c: char) -> int {
    c as int - '0' as int
}

/// The number that a string of decimal digits denotes.
pub open spec fn digits_value(s: Seq<char>) -> int
    decreases s.len(),
{
    if s.len() == 0 {
        0
    } else {
        digits_value(s.drop_last()) * 10 + digit_value(s.last())
    }
}

pub open spec fn all_digits(s: Seq<char>) -> bool {
    forall|i: int| 0 <= i < s.len() ==> is_digit(#[trigger] s[i])
}

/// The digits of an unsigned number in text, after an optional leading `+`.
pub open spec fn unsigned_body(s: Seq<char>) -> Seq<char> {
    if s.len() > 0 && s[0] == '+' {
        s.drop_first()
    } else {
        s
    }
}

/// The `u16` that a text denotes, as `u16`'s `FromStr` reads it: an optional
/// `+`, then one or more decimal digits, with a value that fits.
pub open spec fn parse_u16_spec(s: Seq<char>) -> Option<u16> {
    let d = unsigned_body(s);
    if d.len() > 0 && all_digits(d) && digits_value(d) <= 65535 {
        Some(digits_value(d) as u16)
    } else {
        None
    }
}

/// Whether a status code matches a pattern: an exact code (`404`) or a family
/// wildcard (`2xx`).
pub open spec fn status_matches_spec(code: u16, p: Seq<char>) -> bool {
    match parse_u16_spec(p) {
        Some(e) => code == e,
        None => p.len() == 3 && p[1] == 'x' && p[2] == 'x' && is_digit(p[0]) && code / 100
            == digit_value(p[0]),
    }
}

/// Whether a status code matches some pattern of a list.
pub open spec fn status_in_list_spec(code: u16, ps: Seq<String>) -> bool {
    exists|i: int| 0 <= i < ps.len() && status_matches_spec(code, #[trigger] ps[i]@)
}

/// What an HTTP tool call comes to, given its status code.
#[derive(PartialEq, Eq, Structural, Clone, Copy, Debug)]
pub enum StatusOutcome {
    /// The code is acceptable: the body is dropped and the call reports it was ignored.
    Ignored,
    /// The code is expected: the body is the result.
    Success,
    /// The code counts as a failure of the tool.
    Error,
}

/// The status policy: `acceptable` first, then `error` when it is nonempty,
/// then anything outside `expected` is an error.
pub open spec fn decide_status_spec(
    code: u16,
    expected: Seq<String>,
    acceptable: Seq<String>,
    error: Seq<String>,
) -> StatusOutcome {
    if status_in_list_spec(code, acceptable) {
        StatusOutcome::Ignored
    } else if error.len() > 0 && status_in_list_spec(code, error) {
        StatusOutcome::Error
    } else if status_in_list_spec(code, expected) {
        StatusOutcome::Success
    } else {
        StatusOutcome::Error
    }
}

proof fn lemma_digits_value_nonneg(s: Seq<char>)
    requires
        all_digits(s),
    ensures
        digits_value(s) >= 0,
    decreases s.len(),
{
    if s.len() > 0 {
        assert(is_digit(s[s.len() - 1]));
        lemma_digits_value_nonneg(s.drop_last());
    }
}

/// A longer run of digits never denotes a smaller number than its prefix.
proof fn lemma_digits_value_prefix(s: Seq<char>, k: int)
    requires
        all_digits(s),
        0 <= k <= s.len(),
    ensures
        digits_value(s.take(k)) <= digits_value(s),
    decreases s.len(),
{
    if k < s.len() {
        assert(all_digits(s.drop_last()));
        lemma_digits_value_prefix(s.drop_last(), k);
        assert(s.drop_last().take(k) =~= s.take(k));
        lemma_digits_value_nonneg(s.drop_last());
        assert(is_digit(s[s.len() - 1]));
    } else {
        assert(s.take(k) =~= s);
    }
}

/// Reads a `u16` the way `u16`'s `FromStr` does.
pub fn parse_u16(s: &Vec<char>) -> (r: Option<u16>)
    ensures
        r == parse_u16_spec(s@),
{
    let n = s.len();
    let start: usize = if n > 0 && s[0] == '+' { 1 } else { 0 };
    let ghost d = unsigned_body(s@);
    proof {
        assert(d =~= s@.subrange(start as int, n as int));
    }
    if start >= n {
        return None;
    }
    let mut acc: u32 = 0;
    let mut k: usize = start;
    while k < n
        invariant
            start <= k <= n == s@.len(),
            d == s@.subrange(start as int, n as int),
            d == unsigned_body(s@),
            all_digits(d.take(k - start)),
            acc as int == digits_value(d.take(k - start)),
            acc <= 65535,
        decreases n - k,
    {
        let c = s[k];
        if c < '0' || c > '9' {
            proof {
                assert(d[k - start] == c);
            }
            return None;
        }
        let v: u32 = (c as u32) - ('0' as u32);
        proof {
            let t = d.take(k - start + 1);
            assert(t.drop_last() =~= d.take(k - start));
            assert(t.last() == c);
            assert(all_digits(t));
        }
        if acc * 10 + v > 65535 {
            proof {
                if all_digits(d) {
                    lemma_digits_value_prefix(d, k - start + 1);
                }
            }
            return None;
        }
        acc = acc * 10 + v;
        k = k + 1;
    }
    proof {
        assert(d.take(n - start) =~= d);
    }
    Some(acc as u16)
}

/// Whether `status_code` matches `pattern`: an exact code such as `404`, or a
/// family wildcard such as `2xx`.
pub fn status_matches(status_code: u16, pattern: &str) -> (r: bool)
    ensures
        r == status_matches_spec(status_code, pattern@),
{
    let p = chars_of(pattern);
    match parse_u16(&p) {
        Some(exact) => status_code == exact,
        None => {
            if p.len() == 3 && p[1] == 'x' && p[2] == 'x' && '0' <= p[0] && p[0] <= '9' {
                let digit: u16 = (p[0] as u32 - '0' as u32) as u16;
                status_code / 100 == digit
            } else {
                false
            }
        },
    }
}

/// Whether `status_code` matches any of `patterns`.
pub fn status_in_list(status_code: u16, patterns: &[String]) -> (r: bool)
    ensures
        r == status_in_list_spec(status_code, patterns@),
{
    let mut i: usize = 0;
    while i < patterns.len()
        invariant
            i <= patterns@.len(),
            forall|j: int| 0 <= j < i ==> !status_matches_spec(status_code, #[trigger] patterns@[j]@),
        decreases patterns.len() - i,
    {
        if status_matches(status_code, patterns[i].as_str()) {
            return true;
        }
        i = i + 1;
    }
    false
}

/// The status patterns an HTTP tool expects when its configuration names none.
pub fn default_expected_status() -> (r: Vec<String>)
    ensures
        r@.len() == 2,
        r@[0]@ == seq!['2', 'x', 'x'],
        r@[1]@ == seq!['3', 'x', 'x'],
{
    let mut r: Vec<String> = Vec::new();
    r.push("2xx".to_owned());
    r.push("3xx".to_owned());
    proof {
        reveal_strlit("2xx");
        reveal_strlit("3xx");
    }
    r
}

/// Decides what an HTTP response with `status_code` comes to under a tool's
/// three pattern lists.
pub fn decide_status(
    status_code: u16,
    expected: &[String],
    acceptable: &[String],
    error: &[String],
) -> (r: StatusOutcome)
    ensures
        r == decide_status_spec(status_code, expected@, acceptable@, error@),
{
    if status_in_list(status_code, acceptable) {
        StatusOutcome::Ignored
    } else if error.len() > 0 && status_in_list(status_code, error) {
        StatusOutcome::Error
    } else if status_in_list(status_code, expected) {
        StatusOutcome::Success
    } else {
        StatusOutcome::Error
    }
}

/// The decimal digits of a number, without leading zeros.
pub open spec fn decimal_of(n: nat) -> Seq<char>
    decreases n,
{
    if n < 10 {
        seq![('0' as int + n) as char]
    } else {
        decimal_of(n / 10).push(('0' as int + n % 10) as char)
    }
}

proof fn lemma_decimal_of(n: nat)
    ensures
        all_digits(decimal_of(n)),
        decimal_of(n).len() > 0,
        decimal_of(n)[0] != '+',
        digits_value(decimal_of(n)) == n,
    decreases n,
{
    if n < 10 {
        let s = decimal_of(n);
        assert(s.drop_last() =~= Seq::<char>::empty());
        assert(digits_value(s.drop_last()) == 0);
        assert(digit_value(s.last()) == n);
    } else {
        lemma_decimal_of(n / 10);
        let s = decimal_of(n);
        assert(s.drop_last() =~= decimal_of(n / 10));
        assert(s[0] == decimal_of(n / 10)[0]);
        assert(digit_value(s.last()) == n % 10);
        assert((n / 10) * 10 + n % 10 == n) by (nonlinear_arith);
    }
}

/// A family wildcard matches exactly the codes of its hundred: `2xx` matches a
/// code if and only if it lies between 200 and 299.
pub proof fn lemma_family_pattern(code: u16)
    ensures
        status_matches_spec(code, seq!['2', 'x', 'x']) <==> (200 <= code && code <= 299),
{
    let p = seq!['2', 'x', 'x'];
    assert(!all_digits(unsigned_body(p))) by {
        assert(unsigned_body(p)[1] == 'x');
    }
}

/// A code written out in decimal matches itself.
pub proof fn lemma_exact_pattern(code: u16)
    ensures
        status_matches_spec(code, decimal_of(code as nat)),
{
    lemma_decimal_of(code as nat);
    assert(unsigned_body(decimal_of(code as nat)) == decimal_of(code as nat));
}

/// Exactly one outcome comes of a status code, and the acceptable list is read
/// before the error list, which is read before the expected list.
pub proof fn lemma_status_policy_order(
    code: u16,
    expected: Seq<String>,
    acceptable: Seq<String>,
    error: Seq<String>,
)
    ensures
        status_in_list_spec(code, acceptable) ==> decide_status_spec(code, expected, acceptable, error)
            == StatusOutcome::Ignored,
        !status_in_list_spec(code, acceptable) && error.len() > 0 && status_in_list_spec(
            code,
            error,
        ) ==> decide_status_spec(code, expected, acceptable, error) == StatusOutcome::Error,
        !status_in_list_spec(code, acceptable) ==> (decide_status_spec(
            code,
            expected,
            acceptable,
            error,
        ) == StatusOutcome::Success <==> (status_in_list_spec(code, expected) && !(error.len() > 0
            && status_in_list_spec(code, error)))),
        decide_status_spec(code, expected, acceptable, error) == StatusOutcome::Ignored
            ==> status_in_list_spec(code, acceptable),
{
}

/// The decimal digits of `n`.
pub fn decimal_chars(n: usize) -> (r: Vec<char>)
    ensures
        r@ == decimal_of(n as nat),
    decreases n,
{
    let d: u8 = (n % 10) as u8;
    let c: char = (d + 48u8) as char;
    proof {
        assert(c == ('0' as int + n % 10) as char);
    }
    if n < 10 {
        vec![c]
    } else {
        let mut r = decimal_chars(n / 10);
        r.push(c);
        r
    }
}

/// The `usize` that a text denotes, as `usize`'s `FromStr` reads it.
pub open spec fn parse_usize_spec(s: Seq<char>) -> Option<usize> {
    let d = unsigned_body(s);
    if d.len() > 0 && all_digits(d) && digits_value(d) <= usize::MAX {
        Some(digits_value(d) as usize)
    } else {
        None
    }
}

/// Reads a `usize` the way `usize`'s `FromStr` does.
pub fn parse_usize(s: &Vec<char>) -> (r: Option<usize>)
    ensures
        r == parse_usize_spec(s@),
{
    let n = s.len();
    let start: usize = if n > 0 && s[0] == '+' { 1 } else { 0 };
    let ghost d = unsigned_body(s@);
    proof {
        assert(d =~= s@.subrange(start as int, n as int));
    }
    if start >= n {
        return None;
    }
    let mut acc: u128 = 0;
    let mut k: usize = start;
    while k < n
        invariant
            start <= k <= n == s@.len(),
            d == s@.subrange(start as int, n as int),
            d == unsigned_body(s@),
            all_digits(d.take(k - start)),
            acc as int == digits_value(d.take(k - start)),
            acc <= usize::MAX,
        decreases n - k,
    {
        let c = s[k];
        if c < '0' || c > '9' {
            proof {
                assert(d[k - start] == c);
            }
            return None;
        }
        let v: u128 = (c as u32 - '0' as u32) as u128;
        proof {
            let t = d.take(k - start + 1);
            assert(t.drop_last() =~= d.take(k - start));
            assert(t.last() == c);
            assert(all_digits(t));
        }
        if acc * 10 + v > usize::MAX as u128 {
            proof {
                if all_digits(d) {
                    lemma_digits_value_prefix(d, k - start + 1);
                }
            }
            return None;
        }
        acc = acc * 10 + v;
        k = k + 1;
    }
    proof {
        assert(d.take(n - start) =~= d);
    }
    Some(acc as usize)
}

/// The decimal digits of a 64-bit `n`.
pub fn decimal_chars_u64(n: u64) -> (r: Vec<char>)
    ensures
        r@ == decimal_of(n as nat),
    decreases n,
{
    let d: u8 = (n % 10) as u8;
    let c: char = (d + 48u8) as char;
    proof {
        assert(c == ('0' as int + n % 10) as char);
    }
    if n < 10 {
        vec![c]
    } else {
        let mut r = decimal_chars_u64(n / 10);
        r.push(c);
        r
    }
}

} // verus!
