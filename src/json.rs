//! JSON text: the pieces that serde_json and std compute, and the decimal
//! notation of integers.
use vstd::prelude::*;

verus! {

/// The JSON string literal that serde_json writes for `s`, quotes included.
pub uninterp spec fn json_quoted(s: Seq<char>) -> Seq<char>;

/// What serde_json makes of `s` read as a JSON document: its compact text, or
/// the text of the syntax error.
pub uninterp spec fn json_reading(s: Seq<char>) -> Result<Seq<char>, Seq<char>>;

/// The text of std's error on reading `s` as a 64-bit integer.
pub uninterp spec fn int_error_text(s: Seq<char>) -> Seq<char>;

/// The text of std's error on reading `s` as a boolean.
pub uninterp spec fn bool_error_text(s: Seq<char>) -> Seq<char>;

pub open spec fn is_digit(c: char) -> bool {
    '0' <= c && c <= '9'
}

pub open spec fn digit_value(c: char) -> int {
    (c as u32) as int - ('0' as u32) as int
}

pub open spec fn digit_char(d: int) -> char
    recommends
        0 <= d < 10,
{
    ((d + ('0' as u32) as int) as u32) as char
}

pub open spec fn all_digits(s: Seq<char>) -> bool {
    forall|i: int| 0 <= i < s.len() ==> #[trigger] is_digit(s[i])
}

/// The number that a string of decimal digits denotes.
pub open spec fn digits_value(s: Seq<char>) -> int
    decreases s.len(),
{
    if s.len() == 0 {
        0
    } else {
        digits_value(s.drop_last()) * 10 + digit_value(s.last())
    }
}

/// The integer that `s` denotes in the notation std reads: an optional `+` or
/// `-`, then one or more decimal digits, and nothing else.
pub open spec fn decimal_reading(s: Seq<char>) -> Option<int> {
    if s.len() > 0 && (s[0] == '+' || s[0] == '-') {
        let d = s.drop_first();
        if d.len() > 0 && all_digits(d) {
            Some(if s[0] == '-' { -digits_value(d) } else { digits_value(d) })
        } else {
            None
        }
    } else if s.len() > 0 && all_digits(s) {
        Some(digits_value(s))
    } else {
        None
    }
}

pub open spec fn fits_i64(n: int) -> bool {
    i64::MIN <= n <= i64::MAX
}

/// The shortest decimal digits of a natural number.
pub open spec fn digits_of(n: nat) -> Seq<char>
    decreases n,
{
    if n < 10 {
        seq![digit_char(n as int)]
    } else {
        digits_of(n / 10).push(digit_char((n % 10) as int))
    }
}

/// The decimal notation of an integer: a `-` before negative numbers, no
/// leading zeros.
pub open spec fn decimal_text(n: int) -> Seq<char> {
    if n < 0 {
        seq!['-'] + digits_of((-n) as nat)
    } else {
        digits_of(n as nat)
    }
}

/// Relies on serde_json::to_string: the JSON string literal for `s`. It never
/// fails on a `str`.
#[verifier::external_body]
pub(crate) fn quote(s: &str) -> (r: String)
    ensures
        r@ == json_quoted(s@),
{
    serde_json::to_string(s).unwrap_or_default()
}

/// Relies on serde_json's `Number` built from an `i64` and its `Display`:
/// the integer's decimal notation.
#[verifier::external_body]
pub(crate) fn integer_text(v: i64) -> (r: String)
    ensures
        r@ == decimal_text(v as int),
{
    serde_json::Number::from(v).to_string()
}

/// Relies on serde_json::from_str into a `Value` and that value's `Display`:
/// the compact text of a JSON document, or the text of the error.
#[verifier::external_body]
pub(crate) fn reformat(s: &str) -> (r: Result<String, String>)
    ensures
        match r {
            Ok(t) => json_reading(s@) == Ok::<Seq<char>, Seq<char>>(t@),
            Err(e) => json_reading(s@) == Err::<Seq<char>, Seq<char>>(e@),
        },
{
    match serde_json::from_str::<serde_json::Value>(s) {
        Ok(v) => Ok(v.to_string()),
        Err(e) => Err(e.to_string()),
    }
}

/// Relies on `str::parse::<i64>`: it accepts exactly an optional sign and
/// decimal digits whose value fits in an `i64`, and returns that value.
#[verifier::external_body]
pub(crate) fn parse_i64(s: &str) -> (r: Result<i64, String>)
    ensures
        match r {
            Ok(v) => decimal_reading(s@) == Some(v as int),
            Err(e) => {
                &&& !(decimal_reading(s@) matches Some(n) && fits_i64(n))
                &&& e@ == int_error_text(s@)
            },
        },
{
    s.parse::<i64>().map_err(|e| e.to_string())
}

/// Relies on `str::parse::<bool>`: it accepts exactly `true` and `false`.
#[verifier::external_body]
pub(crate) fn parse_bool(s: &str) -> (r: Result<bool, String>)
    ensures
        match r {
            Ok(b) => (b && s@ == "true"@) || (!b && s@ == "false"@),
            Err(e) => s@ != "true"@ && s@ != "false"@ && e@ == bool_error_text(s@),
        },
{
    s.parse::<bool>().map_err(|e| e.to_string())
}

/// The texts of `parts`, separated by commas.
pub open spec fn comma_joined(parts: Seq<Seq<char>>) -> Seq<char>
    decreases parts.len(),
{
    if parts.len() == 0 {
        Seq::empty()
    } else if parts.len() == 1 {
        parts[0]
    } else {
        comma_joined(parts.drop_last()) + ","@ + parts.last()
    }
}

/// Joining one more part onto the first `i` parts.
pub proof fn lemma_comma_joined_step(parts: Seq<Seq<char>>, i: int)
    requires
        0 <= i < parts.len(),
    ensures
        comma_joined(parts.take(i + 1)) == if i == 0 {
            parts[0]
        } else {
            comma_joined(parts.take(i)) + ","@ + parts[i]
        },
{
    assert(parts.take(i + 1).drop_last() =~= parts.take(i));
}

/// The digits of a natural number are digits, and denote it.
pub proof fn lemma_digits_of(n: nat)
    ensures
        digits_of(n).len() > 0,
        all_digits(digits_of(n)),
        digits_value(digits_of(n)) == n,
    decreases n,
{
    let d = if n < 10 { n as int } else { (n % 10) as int };
    assert(is_digit(digit_char(d)) && digit_value(digit_char(d)) == d);
    if n >= 10 {
        lemma_digits_of(n / 10);
        let s = digits_of(n);
        assert(s.drop_last() =~= digits_of(n / 10));
        assert(s.last() == digit_char(d));
        assert((n / 10) * 10 + n % 10 == n) by (nonlinear_arith);
        assert(digits_value(s) == digits_value(s.drop_last()) * 10 + digit_value(s.last()));
        assert forall|i: int| 0 <= i < s.len() implies #[trigger] is_digit(s[i]) by {
            if i < s.len() - 1 {
                assert(s[i] == digits_of(n / 10)[i]);
            }
        }
    } else {
        assert(digits_of(n).drop_last() =~= Seq::<char>::empty());
        assert(digits_value(Seq::<char>::empty()) == 0);
        assert(digits_value(digits_of(n)) == digits_value(digits_of(n).drop_last()) * 10
            + digit_value(digits_of(n).last()));
    }
}

/// The decimal notation of an integer reads back as that integer.
pub proof fn lemma_decimal_round_trip(n: int)
    ensures
        decimal_reading(decimal_text(n)) == Some(n),
{
    if n < 0 {
        let m = (-n) as nat;
        lemma_digits_of(m);
        let s = decimal_text(n);
        assert(s.drop_first() =~= digits_of(m));
        assert(s[0] == '-');
    } else {
        let m = n as nat;
        lemma_digits_of(m);
        let s = digits_of(m);
        assert(is_digit(s[0]));
    }
}

} // verus!
