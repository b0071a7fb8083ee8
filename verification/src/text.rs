//! Text helpers: Unicode white space and trimming, exact comparison, decimal
//! rendering and parsing of integers, and lower-casing.

use vstd::prelude::*;

verus! {

/// The Unicode `White_Space` property, as `char::is_whitespace` uses it.
pub open spec fn is_space(c: char) -> bool {
    let v = c as u32;
    ||| 0x09 <= v <= 0x0D
    ||| v == 0x20
    ||| v == 0x85
    ||| v == 0xA0
    ||| v == 0x1680
    ||| 0x2000 <= v <= 0x200A
    ||| v == 0x2028
    ||| v == 0x2029
    ||| v == 0x202F
    ||| v == 0x205F
    ||| v == 0x3000
}

/// Whether `c` is Unicode white space.
pub fn char_is_space(c: char) -> (r: bool)
    ensures
        r == is_space(c),
{
    let v = c as u32;
    (0x09 <= v && v <= 0x0D) || v == 0x20 || v == 0x85 || v == 0xA0 || v == 0x1680 || (0x2000
        <= v && v <= 0x200A) || v == 0x2028 || v == 0x2029 || v == 0x202F || v == 0x205F || v
        == 0x3000
}

/// Every character of `s` is white space (so trimming leaves nothing).
pub open spec fn is_blank(s: Seq<char>) -> bool {
    forall|i: int| 0 <= i < s.len() ==> is_space(#[trigger] s[i])
}

/// Index of the first non-space character at or after `i` (or `s.len()`).
pub open spec fn skip_space_from(s: Seq<char>, i: int) -> int
    decreases s.len() - i,
{
    if 0 <= i < s.len() && is_space(s[i]) {
        skip_space_from(s, i + 1)
    } else {
        i
    }
}

/// End of `s` after dropping trailing white space, never going below `lo`.
pub open spec fn trim_end_from(s: Seq<char>, lo: int, j: int) -> int
    decreases j - lo,
{
    if lo < j && j <= s.len() && is_space(s[j - 1]) {
        trim_end_from(s, lo, j - 1)
    } else {
        j
    }
}

/// `s` without leading and trailing white space, as `str::trim` gives it.
pub open spec fn trimmed(s: Seq<char>) -> Seq<char> {
    let lo = skip_space_from(s, 0);
    s.subrange(lo, trim_end_from(s, lo, s.len() as int))
}

/// The characters of `s`, one by one.
pub fn chars_of(s: &str) -> (r: Vec<char>)
    ensures
        r@ == s@,
{
    let n = s.unicode_len();
    let mut out: Vec<char> = Vec::new();
    let mut i: usize = 0;
    while i < n
        invariant
            n == s@.len(),
            i <= n,
            out@ == s@.subrange(0, i as int),
        decreases n - i,
    {
        let c = s.get_char(i);
        out.push(c);
        i = i + 1;
        assert(out@ =~= s@.subrange(0, i as int));
    }
    assert(out@ =~= s@);
    out
}

/// Whether `a` and `b` hold the same characters.
pub fn text_eq(a: &str, b: &str) -> (r: bool)
    ensures
        r == (a@ == b@),
{
    let x = chars_of(a);
    let y = chars_of(b);
    if x.len() != y.len() {
        return false;
    }
    let mut i: usize = 0;
    while i < x.len()
        invariant
            x@ == a@,
            y@ == b@,
            x.len() == y.len(),
            i <= x.len(),
            forall|k: int| 0 <= k < i ==> x@[k] == y@[k],
        decreases x.len() - i,
    {
        if x[i] != y[i] {
            return false;
        }
        i = i + 1;
    }
    assert(a@ =~= b@);
    true
}

/// Whether every character of `s` is white space (`s.trim().is_empty()`).
pub fn text_is_blank(s: &str) -> (r: bool)
    ensures
        r == is_blank(s@),
{
    let chars = chars_of(s);
    let mut i: usize = 0;
    while i < chars.len()
        invariant
            chars@ == s@,
            i <= chars.len(),
            forall|k: int| 0 <= k < i ==> is_space(#[trigger] chars@[k]),
        decreases chars.len() - i,
    {
        if !char_is_space(chars[i]) {
            return false;
        }
        i = i + 1;
    }
    true
}

/// `s` with leading and trailing white space removed.
pub fn trim_text(s: &str) -> (r: String)
    ensures
        r@ == trimmed(s@),
{
    let chars = chars_of(s);
    let n = chars.len();
    let mut lo: usize = 0;
    while lo < n && char_is_space(chars[lo])
        invariant
            chars@ == s@,
            n == s@.len(),
            lo <= n,
            skip_space_from(s@, lo as int) == skip_space_from(s@, 0),
        decreases n - lo,
    {
        lo = lo + 1;
    }
    let mut hi: usize = n;
    while hi > lo && char_is_space(chars[hi - 1])
        invariant
            chars@ == s@,
            n == s@.len(),
            lo <= hi <= n,
            lo == skip_space_from(s@, 0),
            trim_end_from(s@, lo as int, hi as int) == trim_end_from(s@, lo as int, n as int),
        decreases hi - lo,
    {
        hi = hi - 1;
    }
    let part = s.substring_char(lo, hi);
    String::from_str(part)
}


/// The ASCII digit for `d` (`0 <= d < 10`).
pub open spec fn digit_char(d: int) -> char {
    (48 + d) as char
}

/// Decimal rendering of `n`, without sign or leading zeros.
pub open spec fn decimal(n: nat) -> Seq<char>
    decreases n,
{
    if n < 10 {
        seq![digit_char(n as int)]
    } else {
        decimal(n / 10).push(digit_char((n % 10) as int))
    }
}

fn digit_text(d: u64) -> (r: &'static str)
    requires
        d < 10,
    ensures
        r@ == seq![digit_char(d as int)],
{
    proof {
        reveal_strlit("0");
        reveal_strlit("1");
        reveal_strlit("2");
        reveal_strlit("3");
        reveal_strlit("4");
        reveal_strlit("5");
        reveal_strlit("6");
        reveal_strlit("7");
        reveal_strlit("8");
        reveal_strlit("9");
    }
    let r = if d == 0 {
        "0"
    } else if d == 1 {
        "1"
    } else if d == 2 {
        "2"
    } else if d == 3 {
        "3"
    } else if d == 4 {
        "4"
    } else if d == 5 {
        "5"
    } else if d == 6 {
        "6"
    } else if d == 7 {
        "7"
    } else if d == 8 {
        "8"
    } else {
        "9"
    };
    assert(r@ =~= seq![digit_char(d as int)]);
    r
}

/// Appends the decimal rendering of `n` to `out`.
pub fn push_decimal(out: &mut String, n: u64)
    ensures
        final(out)@ == old(out)@ + decimal(n as nat),
    decreases n,
{
    if n >= 10 {
        push_decimal(out, n / 10);
    }
    out.append(digit_text(n % 10));
    assert(final(out)@ =~= old(out)@ + decimal(n as nat)) by {
        if n >= 10 {
            assert(decimal(n as nat) == decimal((n / 10) as nat).push(digit_char((n % 10) as int)));
        }
    }
}

/// Decimal rendering of `n` (what `n.to_string()` gives).
pub fn decimal_text(n: u64) -> (r: String)
    ensures
        r@ == decimal(n as nat),
{
    let mut out = String::new();
    push_decimal(&mut out, n);
    assert(out@ =~= decimal(n as nat));
    out
}

/// An ASCII decimal digit.
pub open spec fn is_digit(c: char) -> bool {
    '0' <= c <= '9'
}

/// Value of the digit `c`.
pub open spec fn digit_value(c: char) -> int {
    c as int - 48
}

/// Index of the first non-digit at or after `i` (or `s.len()`).
pub open spec fn digit_run_end(s: Seq<char>, i: int) -> int
    decreases s.len() - i,
{
    if 0 <= i < s.len() && is_digit(s[i]) {
        digit_run_end(s, i + 1)
    } else {
        i
    }
}

/// Value of a run of decimal digits, most significant first.
pub open spec fn digits_value(s: Seq<char>) -> int
    decreases s.len(),
{
    if s.len() == 0 {
        0
    } else {
        digits_value(s.drop_last()) * 10 + digit_value(s.last())
    }
}

/// Why a text is not an integer of the wanted type, as `core::num::IntErrorKind` says it.
#[derive(Clone, Copy, Debug, PartialEq, Eq, Structural)]
pub enum IntErrorKind {
    Empty,
    InvalidDigit,
    PosOverflow,
    NegOverflow,
}

/// Reading of `s` as a decimal integer by the rules of `str::parse` for integers:
/// an optional `+` (or `-` when `signed`) followed by ASCII digits only, of value at
/// most `max` (or at least `-min_abs` when negative). Scanning from the left, the
/// first overflow or the first non-digit decides the error.
pub open spec fn int_reading(s: Seq<char>, signed: bool, max: int, min_abs: int) -> Result<
    int,
    IntErrorKind,
> {
    if s.len() == 0 {
        Err(IntErrorKind::Empty)
    } else if (s[0] == '+' || s[0] == '-') && s.len() == 1 {
        Err(IntErrorKind::InvalidDigit)
    } else {
        let negative = signed && s[0] == '-';
        let body = if s[0] == '+' || negative {
            s.drop_first()
        } else {
            s
        };
        let k = digit_run_end(body, 0);
        let v = digits_value(body.take(k));
        if !negative && v > max {
            Err(IntErrorKind::PosOverflow)
        } else if negative && v > min_abs {
            Err(IntErrorKind::NegOverflow)
        } else if k < body.len() {
            Err(IntErrorKind::InvalidDigit)
        } else if negative {
            Ok(-v)
        } else {
            Ok(v)
        }
    }
}

proof fn lemma_digit_run(s: Seq<char>, i: int)
    requires
        0 <= i <= s.len(),
    ensures
        i <= digit_run_end(s, i) <= s.len(),
        forall|k: int| i <= k < digit_run_end(s, i) ==> is_digit(#[trigger] s[k]),
        digit_run_end(s, i) < s.len() ==> !is_digit(s[digit_run_end(s, i)]),
    decreases s.len() - i,
{
    if i < s.len() && is_digit(s[i]) {
        lemma_digit_run(s, i + 1);
    }
}

proof fn lemma_digits_value_step(s: Seq<char>, i: int)
    requires
        0 <= i < s.len(),
    ensures
        digits_value(s.take(i + 1)) == digits_value(s.take(i)) * 10 + digit_value(s[i]),
{
    assert(s.take(i + 1).drop_last() =~= s.take(i));
}

proof fn lemma_digits_value_grows(s: Seq<char>, i: int, j: int)
    requires
        0 <= i <= j <= s.len(),
        forall|k: int| 0 <= k < j ==> is_digit(#[trigger] s[k]),
    ensures
        0 <= digits_value(s.take(i)) <= digits_value(s.take(j)),
    decreases j,
{
    if j == 0 {
        assert(s.take(0) =~= Seq::<char>::empty());
    } else if i == j {
        lemma_digits_value_grows(s, 0, j - 1);
        lemma_digits_value_step(s, j - 1);
        assert(0 <= digits_value(s.take(0)));
    } else {
        lemma_digits_value_grows(s, i, j - 1);
        lemma_digits_value_step(s, j - 1);
        assert(is_digit(s[j - 1]));
    }
}

/// Reads `s` as a decimal integer of magnitude at most `max` (or `min_abs` when
/// negative and `signed`); on success gives the sign and the magnitude.
#[verifier::loop_isolation(false)]
fn read_int(s: &str, signed: bool, max: u64, min_abs: u64) -> (r: Result<(bool, u64), IntErrorKind>)
    ensures
        match (r, int_reading(s@, signed, max as int, min_abs as int)) {
            (Ok((negative, m)), Ok(v)) => {
                &&& v == (if negative { -(m as int) } else { m as int })
                &&& negative ==> signed
                &&& m <= (if negative { min_abs } else { max })
            },
            (Err(e), Err(f)) => e == f,
            _ => false,
        },
{
    let chars = chars_of(s);
    let n = chars.len();
    if n == 0 {
        return Err(IntErrorKind::Empty);
    }
    if (chars[0] == '+' || chars[0] == '-') && n == 1 {
        return Err(IntErrorKind::InvalidDigit);
    }
    let negative = signed && chars[0] == '-';
    let start: usize = if chars[0] == '+' || negative {
        1
    } else {
        0
    };
    let ghost body = if s@[0] == '+' || negative {
        s@.drop_first()
    } else {
        s@
    };
    assert(body =~= s@.subrange(start as int, n as int));
    let limit: u64 = if negative {
        min_abs
    } else {
        max
    };
    let mut acc: u128 = 0;
    let mut i: usize = start;
    proof {
        lemma_digit_run(body, 0);
        assert(body.take(0) =~= Seq::<char>::empty());
    }
    while i < n && '0' <= chars[i] && chars[i] <= '9'
        invariant
            chars@ == s@,
            n == s@.len(),
            body =~= s@.subrange(start as int, n as int),
            start <= i <= n,
            i - start <= digit_run_end(body, 0),
            0 <= digit_run_end(body, 0) <= body.len(),
            forall|k: int| 0 <= k < digit_run_end(body, 0) ==> is_digit(#[trigger] body[k]),
            digit_run_end(body, 0) < body.len() ==> !is_digit(body[digit_run_end(body, 0)]),
            acc == digits_value(body.take(i - start)),
            acc <= limit,
        decreases n - i,
    {
        let d = (chars[i] as u32 - 48) as u128;
        proof {
            assert(body[i - start] == chars@[i as int]);
            assert(is_digit(body[i - start]));
            assert(i - start < digit_run_end(body, 0));
            lemma_digits_value_step(body, i - start);
        }
        acc = acc * 10 + d;
        i = i + 1;
        if acc > limit as u128 {
            proof {
                lemma_digits_value_grows(body, i - start, digit_run_end(body, 0));
                assert(digits_value(body.take(digit_run_end(body, 0))) > limit);
            }
            if negative {
                return Err(IntErrorKind::NegOverflow);
            } else {
                return Err(IntErrorKind::PosOverflow);
            }
        }
    }
    assert(i - start == digit_run_end(body, 0)) by {
        if i < n {
            assert(body[i - start] == chars@[i as int]);
        }
    }
    if i < n {
        return Err(IntErrorKind::InvalidDigit);
    }
    Ok((negative, acc as u64))
}

/// `s` read as a `u16`, as `s.parse::<u16>()` reads it.
pub fn parse_u16(s: &str) -> (r: Result<u16, IntErrorKind>)
    ensures
        match (r, int_reading(s@, false, 65535, 0)) {
            (Ok(p), Ok(v)) => p == v,
            (Err(e), Err(f)) => e == f,
            _ => false,
        },
{
    match read_int(s, false, 65535, 0) {
        Ok((_, m)) => Ok(m as u16),
        Err(e) => Err(e),
    }
}

/// `s` read as an `i64`, as `s.parse::<i64>()` reads it.
pub fn parse_i64(s: &str) -> (r: Result<i64, IntErrorKind>)
    ensures
        match (r, int_reading(s@, true, 0x7fff_ffff_ffff_ffff, 0x8000_0000_0000_0000)) {
            (Ok(p), Ok(v)) => p == v,
            (Err(e), Err(f)) => e == f,
            _ => false,
        },
{
    match read_int(s, true, 0x7fff_ffff_ffff_ffff, 0x8000_0000_0000_0000) {
        Ok((negative, m)) => {
            let wide: i128 = if negative {
                0 - (m as i128)
            } else {
                m as i128
            };
            Ok(wide as i64)
        },
        Err(e) => Err(e),
    }
}

impl IntErrorKind {
    /// The message that `core::num::ParseIntError` displays for this kind.
    pub fn message(&self) -> (r: String)
        ensures
            r@ == self.spec_message(),
    {
        match self {
            IntErrorKind::Empty => String::from_str("cannot parse integer from empty string"),
            IntErrorKind::InvalidDigit => String::from_str("invalid digit found in string"),
            IntErrorKind::PosOverflow => String::from_str("number too large to fit in target type"),
            IntErrorKind::NegOverflow => String::from_str("number too small to fit in target type"),
        }
    }

    pub open spec fn spec_message(&self) -> Seq<char> {
        match self {
            IntErrorKind::Empty => "cannot parse integer from empty string"@,
            IntErrorKind::InvalidDigit => "invalid digit found in string"@,
            IntErrorKind::PosOverflow => "number too large to fit in target type"@,
            IntErrorKind::NegOverflow => "number too small to fit in target type"@,
        }
    }
}

/// What `str::to_lowercase` gives for a text: its full Unicode lower-case mapping.
pub uninterp spec fn unicode_lowercase(s: Seq<char>) -> Seq<char>;

/// Calls `str::to_lowercase`; claims only that the result is a function of the
/// text, named `unicode_lowercase`.
#[verifier::external_body]
pub(crate) fn lowercase_text(s: &str) -> (r: String)
    ensures
        r@ == unicode_lowercase(s@),
{
    s.to_lowercase()
}


proof fn lemma_skip_space(s: Seq<char>, i: int)
    requires
        0 <= i <= s.len(),
    ensures
        i <= skip_space_from(s, i) <= s.len(),
        forall|k: int| i <= k < skip_space_from(s, i) ==> is_space(#[trigger] s[k]),
        skip_space_from(s, i) < s.len() ==> !is_space(s[skip_space_from(s, i)]),
    decreases s.len() - i,
{
    if i < s.len() && is_space(s[i]) {
        lemma_skip_space(s, i + 1);
    }
}

proof fn lemma_trim_end(s: Seq<char>, lo: int, j: int)
    requires
        0 <= lo <= j <= s.len(),
    ensures
        lo <= trim_end_from(s, lo, j) <= j,
        forall|k: int| trim_end_from(s, lo, j) <= k < j ==> is_space(#[trigger] s[k]),
        lo < trim_end_from(s, lo, j) ==> !is_space(s[trim_end_from(s, lo, j) - 1]),
    decreases j - lo,
{
    if lo < j && is_space(s[j - 1]) {
        lemma_trim_end(s, lo, j - 1);
    }
}

/// Trimming leaves no white space at either end, keeps a contiguous part of the
/// text, and removes only white space; a text is blank exactly when trimming
/// leaves nothing.
pub proof fn lemma_trimmed_shape(s: Seq<char>)
    ensures
        ({
            let t = trimmed(s);
            &&& t.len() > 0 ==> !is_space(t[0]) && !is_space(t[t.len() - 1])
            &&& exists|lo: int|
                0 <= lo && lo + t.len() <= s.len() && t == #[trigger] s.subrange(lo, lo + t.len()) && (
                forall|k: int| 0 <= k < lo ==> is_space(#[trigger] s[k])) && (forall|k: int|
                    lo + t.len() <= k < s.len() ==> is_space(#[trigger] s[k]))
            &&& (t.len() == 0 <==> is_blank(s))
        }),
{
    let lo = skip_space_from(s, 0);
    lemma_skip_space(s, 0);
    let hi = trim_end_from(s, lo, s.len() as int);
    lemma_trim_end(s, lo, s.len() as int);
    let t = trimmed(s);
    assert(t == s.subrange(lo, hi));
    if t.len() > 0 {
        assert(t[0] == s[lo]);
        assert(t[t.len() - 1] == s[hi - 1]);
    }
    assert(t == s.subrange(lo, lo + t.len()));
    if t.len() == 0 {
        assert forall|k: int| 0 <= k < s.len() implies is_space(#[trigger] s[k]) by {
            if k >= lo {
                assert(hi == lo);
            }
        }
    }
    if is_blank(s) && t.len() > 0 {
        assert(is_space(s[lo]));
    }
}

pub proof fn lemma_decimal_digits(n: nat)
    ensures
        decimal(n).len() > 0,
        forall|k: int| 0 <= k < decimal(n).len() ==> is_digit(#[trigger] decimal(n)[k]),
        digits_value(decimal(n)) == n,
    decreases n,
{
    let d = decimal(n);
    assert(digit_value(digit_char((n % 10) as int)) == n % 10);
    if n < 10 {
        assert(d.drop_last() =~= Seq::<char>::empty());
        assert(digit_value(digit_char(n as int)) == n);
        assert(digits_value(d) == digits_value(d.drop_last()) * 10 + digit_value(d.last()));
    } else {
        lemma_decimal_digits(n / 10);
        assert(d.drop_last() =~= decimal(n / 10));
        assert(d.last() == digit_char((n % 10) as int));
        assert(n == (n / 10) * 10 + n % 10);
        assert(digits_value(d) == digits_value(d.drop_last()) * 10 + digit_value(d.last()));
        assert(digits_value(d.drop_last()) == n / 10);
        assert forall|k: int| 0 <= k < d.len() implies is_digit(#[trigger] d[k]) by {
            if k < d.len() - 1 {
                assert(d[k] == decimal(n / 10)[k]);
            }
        }
    }
}

proof fn lemma_all_digits_run(s: Seq<char>, i: int)
    requires
        0 <= i <= s.len(),
        forall|k: int| 0 <= k < s.len() ==> is_digit(#[trigger] s[k]),
    ensures
        digit_run_end(s, i) == s.len(),
    decreases s.len() - i,
{
    if i < s.len() {
        lemma_all_digits_run(s, i + 1);
    }
}

/// Different numbers have different decimal renderings.
pub proof fn lemma_decimal_injective(a: nat, b: nat)
    ensures
        decimal(a) == decimal(b) <==> a == b,
{
    lemma_decimal_digits(a);
    lemma_decimal_digits(b);
}

/// Reading back the decimal rendering of a port gives the port.
pub proof fn lemma_port_text_round_trip(port: u16)
    ensures
        int_reading(decimal(port as nat), false, 65535, 0) == Ok::<int, IntErrorKind>(port as int),
{
    let d = decimal(port as nat);
    lemma_decimal_digits(port as nat);
    lemma_all_digits_run(d, 0);
    assert(d.take(d.len() as int) =~= d);
    assert(d[0] != '+' && d[0] != '-');
}

} // verus!
