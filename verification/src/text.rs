//! Character-level helpers on strings.
use vstd::prelude::*;
use vstd::utf8::{encode_utf8, encode_utf8_decode_utf8};

verus! {

/// `String::push` appends the character to the end of the string.
pub assume_specification[ String::push ](s: &mut String, c: char)
    ensures
        final(s)@ == old(s)@.push(c),
;

/// Whether a character carries the Unicode `White_Space` property: the
/// controls from tab to carriage return, the space, next line, the no-break
/// space, the ogham space mark, the spaces from en quad to hair space, the
/// line and paragraph separators, the narrow no-break space, the medium
/// mathematical space and the ideographic space.
pub open spec fn white_space(c: char) -> bool {
    ||| '\u{9}' <= c && c <= '\u{d}'
    ||| c == '\u{20}'
    ||| c == '\u{85}'
    ||| c == '\u{a0}'
    ||| c == '\u{1680}'
    ||| '\u{2000}' <= c && c <= '\u{200a}'
    ||| c == '\u{2028}'
    ||| c == '\u{2029}'
    ||| c == '\u{202f}'
    ||| c == '\u{205f}'
    ||| c == '\u{3000}'
}

/// `char::is_whitespace` reports the `White_Space` property of its argument.
pub assume_specification[ char::is_whitespace ](c: char) -> (b: bool)
    ensures
        b == white_space(c),
;

/// Whether two string slices hold the same characters in the same order.
/// They do where their encodings agree byte by byte.
pub(crate) fn str_eq(a: &str, b: &str) -> (same: bool)
    ensures
        same == (a@ == b@),
{
    let x = a.as_bytes();
    let y = b.as_bytes();
    proof {
        // The characters are what the bytes decode to.
        encode_utf8_decode_utf8(a@);
        encode_utf8_decode_utf8(b@);
    }
    if x.len() != y.len() {
        return false;
    }
    let mut i: usize = 0;
    while i < x.len()
        invariant
            i <= x@.len(),
            x@.len() == y@.len(),
            x@ == encode_utf8(a@),
            y@ == encode_utf8(b@),
            forall|j: int| 0 <= j < i ==> x@[j] == y@[j],
        decreases x.len() - i,
    {
        if x[i] != y[i] {
            return false;
        }
        i = i + 1;
    }
    proof {
        assert(x@ =~= y@);
    }
    true
}

/// A vocalization mark that is dropped from stored surah names.
pub open spec fn is_haraka(c: char) -> bool {
    ('\u{64b}' <= c && c <= '\u{65f}') || c == '\u{670}'
}

/// The name with every vocalization mark removed.
pub open spec fn strip_harakat(name: Seq<char>) -> Seq<char> {
    name.filter(|c: char| !is_haraka(c))
}

/// Removes the vocalization marks from a surah name.
pub fn remove_surah_name_harakat(surah_name: &str) -> (stripped: String)
    ensures
        stripped@ == strip_harakat(surah_name@),
{
    let mut out = String::new();
    for c in it: surah_name.chars()
        invariant
            it.seq() == surah_name@,
            out@ == strip_harakat(surah_name@.take(it.index())),
    {
        proof {
            let i = it.index();
            assert(surah_name@.take(i + 1) == surah_name@.take(i).push(c));
            surah_name@.take(i).lemma_filter_push(c, |c: char| !is_haraka(c));
        }
        if !(('\u{64b}' <= c && c <= '\u{65f}') || c == '\u{670}') {
            out.push(c);
        }
    }
    proof {
        assert(surah_name@.take(surah_name@.len() as int) == surah_name@);
    }
    out
}

/// Stripping is idempotent: a stripped name is left as it is.
pub proof fn strip_harakat_idempotent(name: Seq<char>)
    ensures
        strip_harakat(strip_harakat(name)) == strip_harakat(name),
{
    let keep = |c: char| !is_haraka(c);
    let once = name.filter(keep);
    assert forall|i: int| 0 <= i < once.len() implies keep(#[trigger] once[i]) by {
        name.lemma_filter_pred(keep, i);
    }
    lemma_filter_all(once, keep);
}

/// No vocalization mark survives stripping.
pub proof fn strip_harakat_removes_all(name: Seq<char>)
    ensures
        forall|i: int|
            0 <= i < strip_harakat(name).len() ==> !is_haraka(#[trigger] strip_harakat(name)[i]),
{
    let keep = |c: char| !is_haraka(c);
    assert forall|i: int| 0 <= i < strip_harakat(name).len() implies !is_haraka(
        #[trigger] strip_harakat(name)[i],
    ) by {
        name.lemma_filter_pred(keep, i);
    }
}

/// A name without vocalization marks is returned unchanged.
pub proof fn strip_harakat_keeps_plain(name: Seq<char>)
    requires
        forall|i: int| 0 <= i < name.len() ==> !is_haraka(#[trigger] name[i]),
    ensures
        strip_harakat(name) == name,
{
    lemma_filter_all(name, |c: char| !is_haraka(c));
}

/// Filtering by a predicate that every element meets changes nothing.
proof fn lemma_filter_all(s: Seq<char>, pred: spec_fn(char) -> bool)
    requires
        forall|i: int| 0 <= i < s.len() ==> pred(#[trigger] s[i]),
    ensures
        s.filter(pred) == s,
    decreases s.len(),
{
    reveal(Seq::filter);
    if s.len() > 0 {
        lemma_filter_all(s.drop_last(), pred);
    }
}

/// The text without its leading whitespace.
pub open spec fn trim_start(s: Seq<char>) -> Seq<char>
    decreases s.len(),
{
    if s.len() > 0 && white_space(s.first()) {
        trim_start(s.drop_first())
    } else {
        s
    }
}

/// The text without its trailing whitespace.
pub open spec fn trim_end(s: Seq<char>) -> Seq<char>
    decreases s.len(),
{
    if s.len() > 0 && white_space(s.last()) {
        trim_end(s.drop_last())
    } else {
        s
    }
}

/// The text without leading and trailing whitespace.
pub open spec fn trimmed(s: Seq<char>) -> Seq<char> {
    trim_end(trim_start(s))
}

/// Leading whitespace ends at the first character that is none.
proof fn lemma_trim_start(s: Seq<char>, a: int)
    requires
        0 <= a <= s.len(),
        forall|j: int| 0 <= j < a ==> white_space(#[trigger] s[j]),
        a < s.len() ==> !white_space(s[a]),
    ensures
        trim_start(s) == s.skip(a),
    decreases a,
{
    if a > 0 {
        lemma_trim_start(s.drop_first(), a - 1);
    }
}

/// Trailing whitespace starts after the last character that is none.
proof fn lemma_trim_end(s: Seq<char>, b: int)
    requires
        0 <= b <= s.len(),
        forall|j: int| b <= j < s.len() ==> white_space(#[trigger] s[j]),
        b > 0 ==> !white_space(s[b - 1]),
    ensures
        trim_end(s) == s.take(b),
    decreases s.len() - b,
{
    if b < s.len() {
        lemma_trim_end(s.drop_last(), b);
    }
}

/// Removes leading and trailing whitespace.
pub fn trim(s: &str) -> (out: String)
    ensures
        out@ == trimmed(s@),
{
    let n = s.unicode_len();
    let mut i: usize = 0;
    let mut start: usize = n;
    let mut end: usize = n;
    let mut found = false;
    for c in it: s.chars()
        invariant
            it.seq() == s@,
            n == s@.len(),
            i == it.index(),
            !found ==> start == n && end == n,
            !found ==> forall|j: int| 0 <= j < i ==> white_space(#[trigger] s@[j]),
            found ==> start < end <= i,
            found ==> !white_space(s@[start as int]) && !white_space(s@[end - 1]),
            found ==> forall|j: int| 0 <= j < start ==> white_space(#[trigger] s@[j]),
            found ==> forall|j: int| end <= j < i ==> white_space(#[trigger] s@[j]),
    {
        if !c.is_whitespace() {
            if !found {
                start = i;
                found = true;
            }
            end = i + 1;
        }
        i = i + 1;
    }
    proof {
        lemma_trim_start(s@, start as int);
        lemma_trim_end(s@.skip(start as int), end - start);
    }
    s.substring_char(start, end).to_owned()
}

/// Whether the character is a decimal digit.
pub open spec fn is_digit(c: char) -> bool {
    '0' <= c && c <= '9'
}

/// Whether the text consists of decimal digits only.
pub open spec fn all_digits(s: Seq<char>) -> bool {
    forall|i: int| 0 <= i < s.len() ==> is_digit(#[trigger] s[i])
}

/// The number that a run of decimal digits denotes.
pub open spec fn digits_value(s: Seq<char>) -> nat
    decreases s.len(),
{
    if s.len() == 0 {
        0
    } else {
        digits_value(s.drop_last()) * 10 + (s.last() as nat - '0' as nat) as nat
    }
}

/// The text without one leading plus sign.
pub open spec fn unsigned_digits(s: Seq<char>) -> Seq<char> {
    if s.len() > 0 && s[0] == '+' {
        s.skip(1)
    } else {
        s
    }
}

/// The number that the text denotes: an optional plus sign, then one or more
/// decimal digits and nothing else, with a value of at most `max`.
pub open spec fn parse_unsigned(s: Seq<char>, max: nat) -> Option<nat> {
    let digits = unsigned_digits(s);
    if digits.len() > 0 && all_digits(digits) && digits_value(digits) <= max {
        Some(digits_value(digits))
    } else {
        None
    }
}

/// More digits never denote a smaller number.
proof fn lemma_digits_value_grows(s: Seq<char>, k: int)
    requires
        0 <= k <= s.len(),
    ensures
        digits_value(s.take(k)) <= digits_value(s),
    decreases s.len() - k,
{
    if k == s.len() {
        assert(s.take(k) == s);
    } else {
        lemma_digits_value_grows(s.drop_last(), k);
        assert(s.drop_last().take(k) == s.take(k));
    }
}

/// Reads a number of at most `max`.
fn parse_bounded(s: &str, max: u64) -> (value: Option<u64>)
    ensures
        match value {
            Some(v) => parse_unsigned(s@, max as nat) == Some(v as nat),
            None => parse_unsigned(s@, max as nat) is None,
        },
{
    let ghost digits = unsigned_digits(s@);
    let ghost shift: int = s@.len() - digits.len();
    let mut first = true;
    let mut any = false;
    let mut acc: u64 = 0;
    for c in it: s.chars()
        invariant
            it.seq() == s@,
            digits == unsigned_digits(s@),
            shift == s@.len() - digits.len(),
            first <==> it.index() == 0,
            any <==> it.index() - shift > 0,
            it.index() >= shift || it.index() == 0,
            it.index() > 0 ==> all_digits(digits.take(it.index() - shift)),
            it.index() > 0 ==> acc == digits_value(digits.take(it.index() - shift)),
            it.index() == 0 ==> acc == 0,
            acc <= max,
    {
        let ghost k = it.index() - shift;
        if first && c == '+' {
            first = false;
        } else {
            first = false;
            proof {
                assert(digits[k] == c);
                assert(digits.take(k + 1).drop_last() == digits.take(k));
            }
            if !('0' <= c && c <= '9') {
                return None;
            }
            let d: u64 = (c as u32 - '0' as u32) as u64;
            let next = match acc.checked_mul(10) {
                Some(tens) => tens.checked_add(d),
                None => None,
            };
            match next {
                Some(v) if v <= max => {
                    acc = v;
                    any = true;
                },
                _ => {
                    proof {
                        lemma_digits_value_grows(digits, k + 1);
                    }
                    return None;
                },
            }
        }
    }
    proof {
        assert(digits.take(digits.len() as int) == digits);
    }
    if any {
        Some(acc)
    } else {
        None
    }
}

/// Reads a number that fits in 32 bits.
pub fn parse_u32(s: &str) -> (value: Option<u32>)
    ensures
        match value {
            Some(v) => parse_unsigned(s@, u32::MAX as nat) == Some(v as nat),
            None => parse_unsigned(s@, u32::MAX as nat) is None,
        },
{
    match parse_bounded(s, u32::MAX as u64) {
        Some(v) => Some(v as u32),
        None => None,
    }
}

/// Reads a number that fits in a machine word.
pub fn parse_usize(s: &str) -> (value: Option<usize>)
    ensures
        match value {
            Some(v) => parse_unsigned(s@, usize::MAX as nat) == Some(v as nat),
            None => parse_unsigned(s@, usize::MAX as nat) is None,
        },
{
    match parse_bounded(s, usize::MAX as u64) {
        Some(v) => Some(v as usize),
        None => None,
    }
}

/// The character of a digit below ten.
pub open spec fn digit_char(d: nat) -> char {
    (d + '0' as nat) as char
}

/// The decimal digits of a number, without leading zeros.
pub open spec fn decimal(n: nat) -> Seq<char>
    decreases n,
{
    if n < 10 {
        seq![digit_char(n)]
    } else {
        decimal(n / 10).push(digit_char(n % 10))
    }
}

/// The decimal digits of a number, filled up with zeros on the left to the
/// given width. A longer number is not cut.
pub open spec fn zero_padded(n: nat, width: nat) -> Seq<char> {
    if decimal(n).len() >= width {
        decimal(n)
    } else {
        Seq::new((width - decimal(n).len()) as nat, |i: int| '0') + decimal(n)
    }
}

/// Appends the decimal digits of a number.
pub fn push_decimal(out: &mut String, n: u64)
    ensures
        final(out)@ == old(out)@ + decimal(n as nat),
    decreases n,
{
    if n >= 10 {
        push_decimal(out, n / 10);
    }
    let d: u8 = (n % 10) as u8;
    out.push((d + 48u8) as char);
}

/// The number of decimal digits of a number.
fn decimal_len(n: u64) -> (len: usize)
    ensures
        len == decimal(n as nat).len(),
        1 <= len <= 20,
    decreases n,
{
    if n >= 10 {
        let shorter = decimal_len(n / 10);
        proof {
            lemma_decimal_len_bound(n as nat);
        }
        shorter + 1
    } else {
        1
    }
}

/// A 64-bit number has twenty digits at most.
proof fn lemma_decimal_len_bound(n: nat)
    ensures
        n < 10 ==> decimal(n).len() == 1,
        n <= u64::MAX ==> decimal(n).len() <= 20,
{
    reveal_with_fuel(decimal, 21);
}

/// Appends the decimal digits of a number, zero-padded to the given width.
pub fn push_zero_padded(out: &mut String, n: u64, width: usize)
    ensures
        final(out)@ == old(out)@ + zero_padded(n as nat, width as nat),
{
    let len = decimal_len(n);
    let mut filled: usize = len;
    while filled < width
        invariant
            len <= filled,
            len < width ==> filled <= width,
            len >= width ==> filled == len,
            out@ == old(out)@ + Seq::new((filled - len) as nat, |i: int| '0'),
        decreases width - filled,
    {
        out.push('0');
        filled = filled + 1;
    }
    let ghost padding = Seq::new((filled - len) as nat, |i: int| '0');
    push_decimal(out, n);
    proof {
        assert(zero_padded(n as nat, width as nat) == padding + decimal(n as nat));
    }
}

} // verus!
