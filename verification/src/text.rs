//! Reading numbers and keywords out of the short texts that the kernel's
//! attribute files hold.

use vstd::prelude::*;
use vstd::string::*;

verus! {

/// Whether `c` is white space, as Unicode defines it.
pub open spec fn is_space(c: char) -> bool {
    let u = c as u32;
    ||| 0x09 <= u <= 0x0d
    ||| u == 0x20
    ||| u == 0x85
    ||| u == 0xa0
    ||| u == 0x1680
    ||| 0x2000 <= u <= 0x200a
    ||| u == 0x2028
    ||| u == 0x2029
    ||| u == 0x202f
    ||| u == 0x205f
    ||| u == 0x3000
}

/// `s` without its leading white space.
pub open spec fn trim_start(s: Seq<char>) -> Seq<char>
    decreases s.len(),
{
    if s.len() > 0 && is_space(s.first()) {
        trim_start(s.drop_first())
    } else {
        s
    }
}

/// `s` without its trailing white space.
pub open spec fn trim_end(s: Seq<char>) -> Seq<char>
    decreases s.len(),
{
    if s.len() > 0 && is_space(s.last()) {
        trim_end(s.drop_last())
    } else {
        s
    }
}

/// `s` without its leading and trailing white space.
pub open spec fn trim(s: Seq<char>) -> Seq<char> {
    trim_end(trim_start(s))
}

/// Whether `c` is one of the ten decimal digits.
pub open spec fn is_digit(c: char) -> bool {
    '0' <= c <= '9'
}

/// The number a decimal digit stands for.
pub open spec fn digit_value(c: char) -> nat {
    (c as u32 - '0' as u32) as nat
}

/// Whether `s` holds decimal digits only.
pub open spec fn all_digits(s: Seq<char>) -> bool {
    forall|i: int| 0 <= i < s.len() ==> is_digit(#[trigger] s[i])
}

/// The number that the digits of `s` spell in base ten.
pub open spec fn decimal_value(s: Seq<char>) -> nat
    decreases s.len(),
{
    if s.len() == 0 {
        0
    } else {
        decimal_value(s.drop_last()) * 10 + digit_value(s.last())
    }
}

/// The number that `s` spells, where `s` is one or more decimal digits.
pub open spec fn natural(s: Seq<char>) -> Option<nat> {
    if s.len() > 0 && all_digits(s) {
        Some(decimal_value(s))
    } else {
        None
    }
}

/// The number that `s` spells, where `s` is one or more decimal digits that
/// a plus sign may precede.
pub open spec fn unsigned(s: Seq<char>) -> Option<nat> {
    if s.len() > 0 && s[0] == '+' {
        natural(s.drop_first())
    } else {
        natural(s)
    }
}

/// The number that `s` spells, where `s` is one or more decimal digits that
/// a plus or a minus sign may precede.
pub open spec fn integer(s: Seq<char>) -> Option<int> {
    if s.len() > 0 && s[0] == '-' {
        match natural(s.drop_first()) {
            Some(n) => Some(-(n as int)),
            None => None,
        }
    } else {
        match unsigned(s) {
            Some(n) => Some(n as int),
            None => None,
        }
    }
}

/// The `i64` that `s` spells once the white space around it is set aside.
pub open spec fn spelled_i64(s: Seq<char>) -> Option<i64> {
    match integer(trim(s)) {
        Some(v) if i64::MIN <= v <= i64::MAX => Some(v as i64),
        _ => None,
    }
}

/// The `u32` that `s` spells once the white space around it is set aside.
pub open spec fn spelled_u32(s: Seq<char>) -> Option<u32> {
    match unsigned(trim(s)) {
        Some(v) if v <= u32::MAX => Some(v as u32),
        _ => None,
    }
}

/// Extending a run of digits never makes the number it spells smaller.
proof fn lemma_decimal_value_grows(s: Seq<char>, k: int)
    requires
        0 <= k <= s.len(),
    ensures
        decimal_value(s.subrange(0, k)) <= decimal_value(s),
    decreases s.len() - k,
{
    if k == s.len() {
        assert(s.subrange(0, k) =~= s);
    } else {
        lemma_decimal_value_grows(s.drop_last(), k);
        assert(s.drop_last().subrange(0, k) =~= s.subrange(0, k));
    }
}

fn is_whitespace(c: char) -> (b: bool)
    ensures
        b == is_space(c),
{
    let u: u32 = c as u32;
    (0x09 <= u && u <= 0x0d) || u == 0x20 || u == 0x85 || u == 0xa0 || u == 0x1680 || (0x2000 <= u
        && u <= 0x200a) || u == 0x2028 || u == 0x2029 || u == 0x202f || u == 0x205f || u == 0x3000
}

fn chars_of(s: &str) -> (chars: Vec<char>)
    ensures
        chars@ == s@,
{
    let mut chars: Vec<char> = Vec::new();
    for c in it: s.chars()
        invariant
            chars@ == it.seq().take(it.index() as int),
            it.seq() == s@,
    {
        chars.push(c);
    }
    chars
}

/// Finds where the text between the surrounding white space begins and ends.
fn trim_bounds(chars: &Vec<char>) -> (bounds: (usize, usize))
    ensures
        bounds.0 <= bounds.1 <= chars.len(),
        trim(chars@) == chars@.subrange(bounds.0 as int, bounds.1 as int),
{
    let n = chars.len();
    let mut start: usize = 0;
    assert(chars@.subrange(0, n as int) =~= chars@);
    while start < n && is_whitespace(chars[start])
        invariant
            start <= n == chars.len(),
            trim_start(chars@) == trim_start(chars@.subrange(start as int, n as int)),
        decreases n - start,
    {
        proof {
            let rest = chars@.subrange(start as int, n as int);
            assert(rest.drop_first() =~= chars@.subrange(start + 1, n as int));
        }
        start += 1;
    }
    assert(trim_start(chars@) == chars@.subrange(start as int, n as int));
    let mut end: usize = n;
    while end > start && is_whitespace(chars[end - 1])
        invariant
            start <= end <= n == chars.len(),
            trim(chars@) == trim_end(chars@.subrange(start as int, end as int)),
        decreases end,
    {
        proof {
            let rest = chars@.subrange(start as int, end as int);
            assert(rest.drop_last() =~= chars@.subrange(start as int, end - 1));
        }
        end -= 1;
    }
    (start, end)
}

/// Reads the digits in `chars[from..to]` as a number no larger than `limit`.
fn parse_digits(chars: &Vec<char>, from: usize, to: usize, limit: u64) -> (value: Option<u64>)
    requires
        from <= to <= chars.len(),
    ensures
        value == match natural(chars@.subrange(from as int, to as int)) {
            Some(v) if v <= limit => Some(v as u64),
            _ => None,
        },
{
    if from == to {
        return None;
    }
    let ghost digits = chars@.subrange(from as int, to as int);
    let mut value: u64 = 0;
    let mut i: usize = from;
    while i < to
        invariant
            from <= i <= to <= chars.len(),
            digits == chars@.subrange(from as int, to as int),
            all_digits(digits.subrange(0, i - from)),
            value == decimal_value(digits.subrange(0, i - from)),
            value <= limit,
        decreases to - i,
    {
        let c = chars[i];
        assert(c == digits[i - from]);
        if !('0' <= c && c <= '9') {
            return None;
        }
        let d: u64 = (c as u32 - '0' as u32) as u64;
        proof {
            let seen = digits.subrange(0, i - from + 1);
            assert(seen.drop_last() =~= digits.subrange(0, i - from));
            assert(seen.last() == c);
            assert(decimal_value(seen) == value * 10 + d);
            assert forall|j: int| 0 <= j < seen.len() implies is_digit(#[trigger] seen[j]) by {
                if j < i - from {
                    assert(seen[j] == digits.subrange(0, i - from)[j]);
                }
            }
            lemma_decimal_value_grows(digits, i - from + 1);
        }
        if limit < d || value > (limit - d) / 10 {
            return None;
        }
        value = value * 10 + d;
        i += 1;
    }
    assert(digits.subrange(0, to - from) =~= digits);
    Some(value)
}

/// Reads `s` as a decimal integer, setting aside the white space around it.
///
/// The number is one or more decimal digits that a `+` or a `-` may precede.
/// Nothing is returned where `s` is not of that form or the number does not
/// fit.
pub fn parse_i64(s: &str) -> (value: Option<i64>)
    ensures
        value == spelled_i64(s@),
{
    let chars = chars_of(s);
    let (start, end) = trim_bounds(&chars);
    let ghost core = chars@.subrange(start as int, end as int);
    if start < end && chars[start] == '-' {
        assert(core.drop_first() =~= chars@.subrange(start + 1, end as int));
        match parse_digits(&chars, start + 1, end, 0x8000_0000_0000_0000) {
            Some(magnitude) => {
                if magnitude == 0x8000_0000_0000_0000 {
                    Some(i64::MIN)
                } else {
                    Some(-(magnitude as i64))
                }
            },
            None => None,
        }
    } else {
        let from = if start < end && chars[start] == '+' {
            assert(core.drop_first() =~= chars@.subrange(start + 1, end as int));
            start + 1
        } else {
            start
        };
        match parse_digits(&chars, from, end, 0x7fff_ffff_ffff_ffff) {
            Some(magnitude) => Some(magnitude as i64),
            None => None,
        }
    }
}

/// Reads `s` as a decimal number that fits a `u32`, setting aside the white
/// space around it.
///
/// The number is one or more decimal digits that a `+` may precede. Nothing
/// is returned where `s` is not of that form or the number does not fit.
pub fn parse_u32(s: &str) -> (value: Option<u32>)
    ensures
        value == spelled_u32(s@),
{
    let chars = chars_of(s);
    let (start, end) = trim_bounds(&chars);
    let ghost core = chars@.subrange(start as int, end as int);
    let from = if start < end && chars[start] == '+' {
        assert(core.drop_first() =~= chars@.subrange(start + 1, end as int));
        start + 1
    } else {
        start
    };
    match parse_digits(&chars, from, end, 0xffff_ffff) {
        Some(value) => Some(value as u32),
        None => None,
    }
}

/// Whether `s` begins with `prefix`.
pub fn starts_with(s: &str, prefix: &str) -> (found: bool)
    ensures
        found == prefix@.is_prefix_of(s@),
{
    let chars = chars_of(s);
    let wanted = chars_of(prefix);
    if wanted.len() > chars.len() {
        return false;
    }
    let mut i: usize = 0;
    while i < wanted.len()
        invariant
            i <= wanted.len() <= chars.len(),
            chars@ == s@,
            wanted@ == prefix@,
            wanted@.subrange(0, i as int) == chars@.subrange(0, i as int),
        decreases wanted.len() - i,
    {
        if wanted[i] != chars[i] {
            assert(chars@.subrange(0, wanted.len() as int)[i as int] != wanted@[i as int]);
            return false;
        }
        assert(wanted@.subrange(0, i + 1) =~= wanted@.subrange(0, i as int).push(wanted@[i as int]));
        assert(chars@.subrange(0, i + 1) =~= chars@.subrange(0, i as int).push(chars@[i as int]));
        i += 1;
    }
    assert(wanted@.subrange(0, wanted.len() as int) =~= wanted@);
    true
}

/// Whether `s` is `word` once the white space around `s` is set aside.
pub fn trimmed_equals(s: &str, word: &str) -> (same: bool)
    ensures
        same == (trim(s@) == word@),
{
    let chars = chars_of(s);
    let wanted = chars_of(word);
    let (start, end) = trim_bounds(&chars);
    let ghost core = chars@.subrange(start as int, end as int);
    if end - start != wanted.len() {
        return false;
    }
    let mut i: usize = 0;
    while i < wanted.len()
        invariant
            i <= wanted.len(),
            start <= end <= chars.len(),
            end - start == wanted.len(),
            core == chars@.subrange(start as int, end as int),
            core == trim(s@),
            wanted@ == word@,
            wanted@.subrange(0, i as int) == core.subrange(0, i as int),
        decreases wanted.len() - i,
    {
        if wanted[i] != chars[start + i] {
            assert(core[i as int] != wanted@[i as int]);
            return false;
        }
        assert(wanted@.subrange(0, i + 1) =~= wanted@.subrange(0, i as int).push(wanted@[i as int]));
        assert(core.subrange(0, i + 1) =~= core.subrange(0, i as int).push(core[i as int]));
        i += 1;
    }
    assert(wanted@.subrange(0, wanted.len() as int) =~= wanted@);
    assert(core.subrange(0, wanted.len() as int) =~= core);
    true
}

/// The character for the decimal digit `d`.
pub open spec fn digit_char(d: nat) -> char {
    ('0' as u32 + d) as char
}

/// The digits that spell `n` in base ten, without leading zeros.
pub open spec fn decimal_text(n: nat) -> Seq<char>
    decreases n,
{
    if n < 10 {
        seq![digit_char(n)]
    } else {
        decimal_text(n / 10).push(digit_char(n % 10))
    }
}

/// The digits after the decimal point for `thousandths` of a unit, without
/// trailing zeros.
pub open spec fn fraction_text(thousandths: nat) -> Seq<char> {
    let tenths = digit_char(thousandths / 100);
    let hundredths = digit_char(thousandths / 10 % 10);
    let last = digit_char(thousandths % 10);
    if thousandths % 10 != 0 {
        seq![tenths, hundredths, last]
    } else if thousandths % 100 != 0 {
        seq![tenths, hundredths]
    } else {
        seq![tenths]
    }
}

/// How a temperature of `thousandths` of a degree reads in degrees: a minus
/// sign where it is negative, the whole degrees, and a decimal point with
/// the remaining thousandths where there are any.
pub open spec fn degrees_text(thousandths: int) -> Seq<char> {
    let size = if thousandths < 0 { -thousandths } else { thousandths } as nat;
    let sign = if thousandths < 0 { seq!['-'] } else { Seq::<char>::empty() };
    let fraction = if size % 1000 == 0 {
        Seq::<char>::empty()
    } else {
        seq!['.'] + fraction_text(size % 1000)
    };
    sign + decimal_text(size / 1000) + fraction
}

/// Reading back what [`decimal_text`] wrote gives the number again.
pub proof fn lemma_decimal_text_reads_back(n: nat)
    ensures
        natural(decimal_text(n)) == Some(n),
    decreases n,
{
    let text = decimal_text(n);
    if n < 10 {
        assert(text.drop_last() =~= Seq::<char>::empty());
        assert(decimal_value(text.drop_last()) == 0);
    } else {
        lemma_decimal_text_reads_back(n / 10);
        assert(text.drop_last() =~= decimal_text(n / 10));
        assert forall|i: int| 0 <= i < text.len() implies is_digit(#[trigger] text[i]) by {
            if i < text.len() - 1 {
                assert(text[i] == decimal_text(n / 10)[i]);
            }
        }
    }
}

fn digit_str(d: u64) -> (digit: &'static str)
    requires
        d < 10,
    ensures
        digit@ == seq![digit_char(d as nat)],
{
    proof {
        reveal_strlit("0");
        reveal_strlit("1");
        reveal_strlit("2");
        reveal_strlit("3");
        reveal_strlit("4");
        reveal_strlit("5");
        reveal_strlit("6");
        reveal_strlit("7");
        reveal_strlit("8");
        reveal_strlit("9");
    }
    let digit = if d == 0 {
        "0"
    } else if d == 1 {
        "1"
    } else if d == 2 {
        "2"
    } else if d == 3 {
        "3"
    } else if d == 4 {
        "4"
    } else if d == 5 {
        "5"
    } else if d == 6 {
        "6"
    } else if d == 7 {
        "7"
    } else if d == 8 {
        "8"
    } else {
        "9"
    };
    assert(digit@ =~= seq![digit_char(d as nat)]);
    digit
}

/// Writes `n` in base ten.
pub fn decimal(n: u64) -> (text: String)
    ensures
        text@ == decimal_text(n as nat),
    decreases n,
{
    if n < 10 {
        digit_str(n).to_owned()
    } else {
        let mut text = decimal(n / 10);
        text.append(digit_str(n % 10));
        assert(text@ =~= decimal_text(n as nat));
        text
    }
}

/// Writes a temperature of `thousandths` of a degree in degrees.
pub fn degrees(thousandths: i64) -> (text: String)
    ensures
        text@ == degrees_text(thousandths as int),
{
    proof {
        reveal_strlit("-");
        reveal_strlit(".");
    }
    let size: u64 = if thousandths < 0 {
        (-(thousandths as i128)) as u64
    } else {
        thousandths as u64
    };
    let mut text = String::new();
    if thousandths < 0 {
        text.append("-");
    }
    let whole = decimal(size / 1000);
    text.append(whole.as_str());
    let rest = size % 1000;
    if rest != 0 {
        text.append(".");
        text.append(digit_str(rest / 100));
        if rest % 100 != 0 {
            text.append(digit_str(rest / 10 % 10));
        }
        if rest % 10 != 0 {
            text.append(digit_str(rest % 10));
        }
    }
    assert(text@ =~= degrees_text(thousandths as int));
    text
}

/// The path of the file `name` inside the directory `dir`.
pub open spec fn joined(dir: Seq<char>, name: Seq<char>) -> Seq<char> {
    dir + seq!['/'] + name
}

/// Builds the path of the file `name` inside the directory `dir`.
pub fn join(dir: &str, name: &str) -> (path: String)
    ensures
        path@ == joined(dir@, name@),
{
    proof {
        reveal_strlit("/");
    }
    let mut path = dir.to_owned();
    path.append("/");
    path.append(name);
    assert("/"@ =~= seq!['/']);
    path
}

} // verus!
