//! Texts: how numbers and times are written and read, and how texts are
//! compared.

use vstd::prelude::*;
use vstd::string::*;

verus! {

/// `String::push`: the string afterwards is the string before with the
/// character `c` at its end.
pub assume_specification[ String::push ](s: &mut String, c: char)
    ensures
        final(s)@ == old(s)@.push(c),
;

/// The byte of the digit `0`.
pub const DIGIT_ZERO: u8 = 48;

/// The byte of the digit `9`.
pub const DIGIT_NINE: u8 = 57;

/// The byte of the sign `+`.
pub const PLUS: u8 = 43;

/// The byte of the sign `-`.
pub const MINUS: u8 = 45;

/// The character that writes the digit `d`.
pub open spec fn digit_char(d: nat) -> char
    recommends
        d < 10,
{
    (('0' as u8) + d) as u8 as char
}

/// Whether `c` is one of `'0'..='9'`.
pub open spec fn is_digit(c: char) -> bool {
    '0' <= c <= '9'
}

/// The number that the digit `c` stands for.
pub open spec fn digit_value(c: char) -> nat
    recommends
        is_digit(c),
{
    (c as u8 - '0' as u8) as nat
}

/// `n` written in base ten, without sign or leading zeros.
pub open spec fn decimal(n: nat) -> Seq<char>
    decreases n,
{
    if n < 10 {
        seq![digit_char(n)]
    } else {
        decimal(n / 10).push(digit_char(n % 10))
    }
}

/// Whether every character of `s` is a digit.
pub open spec fn all_digits(s: Seq<char>) -> bool {
    forall|i: int| 0 <= i < s.len() ==> is_digit(#[trigger] s[i])
}

/// The number that a run of digits denotes, most significant digit first.
pub open spec fn digits_value(s: Seq<char>) -> nat
    decreases s.len(),
{
    if s.len() == 0 {
        0
    } else {
        digits_value(s.drop_last()) * 10 + digit_value(s.last())
    }
}

/// Reading of an unsigned number no larger than `max`: an optional `+`, then
/// at least one digit. `None` for any other text and for a number above `max`.
pub open spec fn parse_unsigned(s: Seq<char>, max: nat) -> Option<nat> {
    let body = if s.len() > 0 && s[0] == '+' {
        s.drop_first()
    } else {
        s
    };
    if body.len() > 0 && all_digits(body) && digits_value(body) <= max {
        Some(digits_value(body))
    } else {
        None
    }
}

/// Reading of a signed number within `min..=max`: an optional `+` or `-`, then
/// at least one digit.
pub open spec fn parse_signed(s: Seq<char>, min: int, max: int) -> Option<int> {
    let negative = s.len() > 0 && s[0] == '-';
    let body = if s.len() > 0 && (s[0] == '+' || s[0] == '-') {
        s.drop_first()
    } else {
        s
    };
    let value = if negative {
        -(digits_value(body) as int)
    } else {
        digits_value(body) as int
    };
    if body.len() > 0 && all_digits(body) && min <= value <= max {
        Some(value)
    } else {
        None
    }
}

/// A longer run of digits never denotes less than its beginning.
pub proof fn lemma_digits_value_grows(s: Seq<char>, i: int)
    requires
        0 <= i <= s.len(),
    ensures
        digits_value(s.subrange(0, i)) <= digits_value(s),
    decreases s.len(),
{
    if i == s.len() {
        assert(s.subrange(0, i) =~= s);
    } else {
        lemma_digits_value_grows(s.drop_last(), i);
        assert(s.drop_last().subrange(0, i) =~= s.subrange(0, i));
    }
}

/// What is written in decimal is read back: the digits of `n` are digits, and
/// they denote `n`.
pub proof fn lemma_decimal_reads_back(n: nat)
    ensures
        decimal(n).len() > 0,
        all_digits(decimal(n)),
        digits_value(decimal(n)) == n,
    decreases n,
{
    let d = digit_char(n % 10);
    if n < 10 {
        assert(digits_value(decimal(n).drop_last()) == 0);
    } else {
        lemma_decimal_reads_back(n / 10);
        let head = decimal(n / 10);
        assert(decimal(n).drop_last() =~= head);
    }
}

/// A number written in decimal is read as that number, if it is within the
/// bound.
pub proof fn lemma_parse_decimal(n: nat, max: nat)
    requires
        n <= max,
    ensures
        parse_unsigned(decimal(n), max) == Some(n),
{
    lemma_decimal_reads_back(n);
}

fn digit_of(d: u8) -> (c: char)
    requires
        d < 10,
    ensures
        c == digit_char(d as nat),
{
    (DIGIT_ZERO + d) as char
}

/// Appends `n` in base ten to `out`.
pub fn push_decimal(out: &mut String, n: u128)
    ensures
        final(out)@ == old(out)@ + decimal(n as nat),
    decreases n,
{
    if n >= 10 {
        push_decimal(out, n / 10);
    }
    out.push(digit_of((n % 10) as u8));
}

/// `n` in base ten.
pub fn decimal_string(n: u128) -> (s: String)
    ensures
        s@ == decimal(n as nat),
{
    let mut s = String::new();
    push_decimal(&mut s, n);
    s
}

/// Reads the digits at positions `from..to` of `s`, as a number up to `max`.
fn read_digits(s: &str, from: usize, to: usize, max: u128) -> (r: Option<u128>)
    requires
        s.is_ascii(),
        from <= to <= s@.len(),
    ensures
        r == (if from < to && all_digits(s@.subrange(from as int, to as int)) && digits_value(
            s@.subrange(from as int, to as int),
        ) <= max {
            Some(digits_value(s@.subrange(from as int, to as int)) as u128)
        } else {
            None
        }),
{
    let bytes = s.as_bytes();
    let ghost body = s@.subrange(from as int, to as int);
    proof {
        is_ascii_spec_bytes(s);
    }
    if from >= to {
        return None;
    }
    let mut acc: u128 = 0;
    let mut i: usize = from;
    while i < to
        invariant
            s.is_ascii(),
            to <= s@.len(),
            bytes@ == s.spec_bytes(),
            from <= i <= to,
            body == s@.subrange(from as int, to as int),
            all_digits(body.subrange(0, i - from)),
            acc == digits_value(body.subrange(0, i - from)),
            acc <= max,
        decreases to - i,
    {
        proof {
            is_ascii_spec_bytes(s);
        }
        let b = bytes[i];
        let ghost upto = body.subrange(0, i - from);
        let ghost next = body.subrange(0, i + 1 - from);
        assert(next.drop_last() =~= upto);
        if b < DIGIT_ZERO || b > DIGIT_NINE {
            assert(!is_digit(body[i - from]));
            return None;
        }
        let d = (b - DIGIT_ZERO) as u128;
        if acc > max / 10 || (acc == max / 10 && d > max % 10) {
            proof {
                lemma_digits_value_grows(body, i + 1 - from);
            }
            return None;
        }
        acc = acc * 10 + d;
        i = i + 1;
    }
    assert(body.subrange(0, i - from) =~= body);
    Some(acc)
}

/// Reads an unsigned decimal number no larger than `max` at positions
/// `from..to` of an ASCII text.
pub fn read_unsigned_in(s: &str, from: usize, to: usize, max: u128) -> (r: Option<u128>)
    requires
        s.is_ascii(),
        from <= to <= s@.len(),
    ensures
        r == match parse_unsigned(s@.subrange(from as int, to as int), max as nat) {
            Some(v) => Some(v as u128),
            None => None,
        },
{
    proof {
        is_ascii_spec_bytes(s);
    }
    let ghost part = s@.subrange(from as int, to as int);
    let bytes = s.as_bytes();
    if from < to && bytes[from] == PLUS {
        assert(part.drop_first() =~= s@.subrange(from + 1, to as int));
        read_digits(s, from + 1, to, max)
    } else {
        read_digits(s, from, to, max)
    }
}

/// Reads an unsigned decimal number no larger than `max`.
pub fn read_unsigned(s: &str, max: u128) -> (r: Option<u128>)
    ensures
        r == match parse_unsigned(s@, max as nat) {
            Some(v) => Some(v as u128),
            None => None,
        },
{
    if !s.is_ascii() {
        proof {
            lemma_not_ascii_not_number(s@);
        }
        return None;
    }
    proof {
        is_ascii_spec_bytes(s);
    }
    let n = s.as_bytes().len();
    assert(s@ =~= s@.subrange(0, n as int));
    read_unsigned_in(s, 0, n, max)
}

/// Reads a signed decimal number within `min..=max`.
pub fn read_signed(s: &str, min: i128, max: i128) -> (r: Option<i128>)
    requires
        min <= 0 <= max,
        min > i128::MIN,
    ensures
        r == match parse_signed(s@, min as int, max as int) {
            Some(v) => Some(v as i128),
            None => None,
        },
{
    if !s.is_ascii() {
        proof {
            lemma_not_ascii_not_number(s@);
        }
        return None;
    }
    proof {
        is_ascii_spec_bytes(s);
    }
    let bytes = s.as_bytes();
    let n = bytes.len();
    if n > 0 && bytes[0] == MINUS {
        match read_digits(s, 1, n, (-min) as u128) {
            Some(v) => Some(-(v as i128)),
            None => None,
        }
    } else if n > 0 && bytes[0] == PLUS {
        match read_digits(s, 1, n, max as u128) {
            Some(v) => Some(v as i128),
            None => None,
        }
    } else {
        assert(s@ =~= s@.subrange(0, n as int));
        match read_digits(s, 0, n, max as u128) {
            Some(v) => Some(v as i128),
            None => None,
        }
    }
}

/// The upper-case form of a text, as `str::to_uppercase` gives it.
pub uninterp spec fn uppercase(s: Seq<char>) -> Seq<char>;

/// `str::to_uppercase`: each character replaced by its upper-case mapping of
/// the Unicode tables, which can be more than one character. The result is
/// known by the name [`uppercase`] alone.
#[verifier::external_body]
pub(crate) fn to_upper(s: &str) -> (upper: String)
    ensures
        upper@ == uppercase(s@),
{
    s.to_uppercase()
}

/// Ten to the power `n`.
pub open spec fn pow10(n: nat) -> nat
    decreases n,
{
    if n == 0 {
        1
    } else {
        10 * pow10((n - 1) as nat)
    }
}

/// How long a blocked client is ready to wait.
#[derive(Clone, Copy, Debug, PartialEq, Eq, Structural)]
pub enum Wait {
    /// Until there is data.
    Forever,
    /// This many nanoseconds.
    Nanos(u128),
}

/// Nanoseconds in a second.
pub const NANOS_PER_SECOND: u128 = 1_000_000_000;

impl Wait {
    /// The longest time to sleep, in whole seconds and the nanoseconds beyond
    /// them, or `None` for no limit. A time of more than `u64::MAX` seconds
    /// counts as `u64::MAX` seconds.
    pub open spec fn spec_limit(self) -> Option<(u64, u32)> {
        match self {
            Wait::Forever => None,
            Wait::Nanos(nanos) => Some(
                (
                    if nanos / NANOS_PER_SECOND > u64::MAX {
                        u64::MAX
                    } else {
                        (nanos / NANOS_PER_SECOND) as u64
                    },
                    (nanos % NANOS_PER_SECOND) as u32,
                ),
            ),
        }
    }

    /// The longest time to sleep, in whole seconds and the nanoseconds beyond
    /// them, or `None` for no limit.
    pub fn limit(&self) -> (limit: Option<(u64, u32)>)
        ensures
            limit == self.spec_limit(),
    {
        match self {
            Wait::Forever => None,
            Wait::Nanos(nanos) => {
                let whole = *nanos / NANOS_PER_SECOND;
                let seconds = if whole > u64::MAX as u128 {
                    u64::MAX
                } else {
                    whole as u64
                };
                Some((seconds, (*nanos % NANOS_PER_SECOND) as u32))
            },
        }
    }
}

/// The byte of `.`.
pub const POINT: u8 = 46;

/// The nanoseconds that the digits after a decimal point stand for: digits
/// beyond the ninth are dropped.
pub open spec fn fraction_nanos(digits: Seq<char>) -> nat {
    if digits.len() <= 9 {
        digits_value(digits) * pow10((9 - digits.len()) as nat)
    } else {
        digits_value(digits.subrange(0, 9))
    }
}

/// Reading of a time in seconds, written in decimal with an optional
/// fraction: digits, then optionally a point and more digits, with at least
/// one digit in all. Zero means no limit. `None` for any other text, and
/// where the whole seconds exceed `u64::MAX`.
pub open spec fn parse_seconds(s: Seq<char>) -> Option<Wait> {
    let point = first_index(s, '.');
    let whole = s.subrange(0, point);
    let fraction = if point < s.len() {
        s.subrange(point + 1, s.len() as int)
    } else {
        Seq::empty()
    };
    if all_digits(whole) && all_digits(fraction) && whole.len() + fraction.len() > 0
        && digits_value(whole) <= u64::MAX {
        if digits_value(whole) == 0 && digits_value(fraction) == 0 {
            Some(Wait::Forever)
        } else {
            Some(
                Wait::Nanos(
                    (digits_value(whole) * NANOS_PER_SECOND + fraction_nanos(fraction)) as u128,
                ),
            )
        }
    } else {
        None
    }
}

/// Text with a character outside ASCII is no time in seconds.
pub proof fn lemma_not_ascii_no_seconds(s: Seq<char>)
    requires
        !vstd::utf8::is_ascii_chars(s),
    ensures
        parse_seconds(s) is None,
{
    let k = choose|k: int| 0 <= k < s.len() && !('\0' <= #[trigger] s[k] <= '\u{7f}');
    let point = first_index(s, '.');
    lemma_first_index(s, '.');
    if k < point {
        let whole = s.subrange(0, point);
        assert(!is_digit(whole[k]));
    } else {
        let fraction = s.subrange(point + 1, s.len() as int);
        assert(!is_digit(fraction[k - point - 1]));
    }
}

/// Reads a time in seconds, written in decimal with an optional fraction.
pub fn read_seconds(s: &str) -> (r: Option<Wait>)
    ensures
        r == parse_seconds(s@),
{
    if !s.is_ascii() {
        proof {
            lemma_not_ascii_no_seconds(s@);
        }
        return None;
    }
    let n = ascii_len(s);
    let point = find_ascii(s, POINT);
    let whole: u128 = if point == 0 {
        0
    } else {
        match read_digits(s, 0, point, u64::MAX as u128) {
            Some(v) => v,
            None => {
                return None;
            },
        }
    };
    let start: usize = if point < n {
        point + 1
    } else {
        n
    };
    let ghost fraction = s@.subrange(start as int, n as int);
    let mut i: usize = start;
    let mut nanos: u128 = 0;
    let mut scale: u128 = NANOS_PER_SECOND;
    let mut nonzero = false;
    proof {
        reveal_with_fuel(pow10, 10);
    }
    while i < n
        invariant
            s.is_ascii(),
            n == s@.len(),
            start <= i <= n,
            point == first_index(s@, '.'),
            start == (if point < n {
                point + 1
            } else {
                n as int
            }),
            fraction == s@.subrange(start as int, n as int),
            all_digits(fraction.subrange(0, i - start)),
            nonzero == (digits_value(fraction.subrange(0, i - start)) != 0),
            i - start <= 9 ==> scale == pow10((9 - (i - start)) as nat) && nanos == digits_value(
                fraction.subrange(0, i - start),
            ) * scale,
            i - start > 9 ==> nanos == digits_value(fraction.subrange(0, 9)),
            nanos + scale <= NANOS_PER_SECOND,
            1 <= scale,
        decreases n - i,
    {
        let b = ascii_at(s, i);
        let ghost upto = fraction.subrange(0, i - start);
        let ghost next = fraction.subrange(0, i + 1 - start);
        assert(next.drop_last() =~= upto);
        if b < DIGIT_ZERO || b > DIGIT_NINE {
            assert(!is_digit(fraction[i - start]));
            return None;
        }
        let d = (b - DIGIT_ZERO) as u128;
        if i - start < 9 {
            let ghost lower = pow10((9 - (i - start) - 1) as nat);
            scale = scale / 10;
            assert((digits_value(upto) * 10 + d) * lower == digits_value(upto) * (10 * lower) + d
                * lower) by (nonlinear_arith);
            assert(d * lower <= 9 * lower) by (nonlinear_arith)
                requires
                    d <= 9,
                    lower >= 0,
            ;
            nanos = nanos + d * scale;
        } else {
            if i - start == 9 {
                assert(nanos == digits_value(upto) * 1);
            }
        }
        if d != 0 {
            nonzero = true;
        }
        i = i + 1;
    }
    assert(fraction.subrange(0, i - start) =~= fraction);
    if point == 0 && start == n {
        return None;
    }
    if whole == 0 && !nonzero {
        Some(Wait::Forever)
    } else {
        Some(Wait::Nanos(whole * NANOS_PER_SECOND + nanos))
    }
}

/// Whether two texts are the same.
pub fn same_text(a: &str, b: &str) -> (same: bool)
    ensures
        same == (a@ == b@),
{
    let x = a.as_bytes();
    let y = b.as_bytes();
    if x.len() != y.len() {
        return false;
    }
    let mut i: usize = 0;
    while i < x.len()
        invariant
            x@ == a.spec_bytes(),
            y@ == b.spec_bytes(),
            x.len() == y.len(),
            i <= x.len(),
            forall|j: int| 0 <= j < i ==> x@[j] == y@[j],
        decreases x.len() - i,
    {
        if x[i] != y[i] {
            return false;
        }
        i = i + 1;
    }
    proof {
        assert(x@ =~= y@);
        vstd::utf8::encode_utf8_decode_utf8(a@);
        vstd::utf8::encode_utf8_decode_utf8(b@);
    }
    true
}

/// Number of characters of an ASCII text.
pub fn ascii_len(s: &str) -> (n: usize)
    requires
        s.is_ascii(),
    ensures
        n == s@.len(),
{
    proof {
        is_ascii_spec_bytes(s);
    }
    s.as_bytes().len()
}

/// The character at position `i` of an ASCII text, as a byte.
pub fn ascii_at(s: &str, i: usize) -> (b: u8)
    requires
        s.is_ascii(),
        i < s@.len(),
    ensures
        b == s@[i as int] as u8,
        b < 128,
        b as char == s@[i as int],
{
    proof {
        is_ascii_spec_bytes(s);
    }
    s.as_bytes()[i]
}

/// Position of the first `c` in `s`, or the length of `s` where it has none.
pub open spec fn first_index(s: Seq<char>, c: char) -> int
    decreases s.len(),
{
    if s.len() == 0 {
        0
    } else if s[0] == c {
        0
    } else {
        1 + first_index(s.drop_first(), c)
    }
}

/// `first_index` is within bounds, names an occurrence, and nothing before it
/// is one.
pub proof fn lemma_first_index(s: Seq<char>, c: char)
    ensures
        0 <= first_index(s, c) <= s.len(),
        first_index(s, c) < s.len() ==> s[first_index(s, c)] == c,
        forall|j: int| 0 <= j < first_index(s, c) ==> s[j] != c,
    decreases s.len(),
{
    if s.len() > 0 && s[0] != c {
        lemma_first_index(s.drop_first(), c);
        assert forall|j: int| 0 <= j < first_index(s, c) implies s[j] != c by {
            if j > 0 {
                assert(s.drop_first()[j - 1] == s[j]);
            }
        }
    }
}

/// A position that holds `c` with no `c` before it is the first.
pub proof fn lemma_first_index_is(s: Seq<char>, c: char, i: int)
    requires
        0 <= i <= s.len(),
        i < s.len() ==> s[i] == c,
        forall|j: int| 0 <= j < i ==> s[j] != c,
    ensures
        first_index(s, c) == i,
    decreases s.len(),
{
    if s.len() > 0 && i > 0 {
        lemma_first_index_is(s.drop_first(), c, i - 1);
    }
}

/// Position of the first byte `c` in an ASCII text, or its length.
pub fn find_ascii(s: &str, c: u8) -> (i: usize)
    requires
        s.is_ascii(),
        c < 128,
    ensures
        i == first_index(s@, c as char),
        i <= s@.len(),
{
    let n = ascii_len(s);
    let mut i: usize = 0;
    while i < n
        invariant
            s.is_ascii(),
            n == s@.len(),
            i <= n,
            c < 128,
            forall|j: int| 0 <= j < i ==> s@[j] != c as char,
        decreases n - i,
    {
        if ascii_at(s, i) == c {
            proof {
                lemma_first_index_is(s@, c as char, i as int);
            }
            return i;
        }
        i = i + 1;
    }
    proof {
        lemma_first_index_is(s@, c as char, i as int);
    }
    i
}

/// Text with a character outside ASCII is no number.
pub proof fn lemma_not_ascii_not_number(s: Seq<char>)
    requires
        !vstd::utf8::is_ascii_chars(s),
    ensures
        forall|max: nat| parse_unsigned(s, max) is None,
        forall|min: int, max: int| parse_signed(s, min, max) is None,
{
    let i = choose|i: int| 0 <= i < s.len() && !('\0' <= #[trigger] s[i] <= '\u{7f}');
    if i > 0 {
        assert(s.drop_first()[i - 1] == s[i]);
    }
}

} // verus!
