//! Character-level helpers shared by the value types: reading a string as a
//! sequence of characters, Unicode whitespace, trimming, the UTF-8 bytes of a
//! string, and decimal digits.
use vstd::prelude::*;

verus! {

// ---------------------------------------------------------------------------
// Reading and comparing strings
// ---------------------------------------------------------------------------

/// The characters of `s`, in order.
pub fn chars_of(s: &str) -> (v: Vec<char>)
    ensures
        v@ == s@,
{
    let mut v: Vec<char> = Vec::new();
    for c in it: s.chars()
        invariant
            v@ == it.seq().take(it.index() as int),
            it.seq() == s@,
    {
        v.push(c);
    }
    v
}

/// Whether two character vectors hold the same characters.
pub fn chars_eq(a: &Vec<char>, b: &Vec<char>) -> (r: bool)
    ensures
        r == (a@ == b@),
{
    if a.len() != b.len() {
        return false;
    }
    let mut i: usize = 0;
    while i < a.len()
        invariant
            a.len() == b.len(),
            i <= a.len(),
            forall|k: int| 0 <= k < i ==> a@[k] == b@[k],
        decreases a.len() - i,
    {
        if a[i] != b[i] {
            return false;
        }
        i = i + 1;
    }
    assert(a@ =~= b@);
    true
}

/// Whether two strings hold the same characters.
pub fn str_eq(a: &str, b: &str) -> (r: bool)
    ensures
        r == (a@ == b@),
{
    let va = chars_of(a);
    let vb = chars_of(b);
    chars_eq(&va, &vb)
}

// ---------------------------------------------------------------------------
// Whitespace and trimming
// ---------------------------------------------------------------------------

/// Whether `c` has the Unicode `White_Space` property, the property that
/// `char::is_whitespace` and `str::trim` go by.
pub open spec fn is_unicode_whitespace(c: char) -> bool {
    ||| '\u{9}' <= c <= '\u{d}'
    ||| c == ' '
    ||| c == '\u{85}'
    ||| c == '\u{a0}'
    ||| c == '\u{1680}'
    ||| '\u{2000}' <= c <= '\u{200a}'
    ||| c == '\u{2028}'
    ||| c == '\u{2029}'
    ||| c == '\u{202f}'
    ||| c == '\u{205f}'
    ||| c == '\u{3000}'
}

/// Whether `c` is Unicode whitespace.
pub fn is_whitespace(c: char) -> (b: bool)
    ensures
        b == is_unicode_whitespace(c),
{
    ('\u{9}' <= c && c <= '\u{d}') || c == ' ' || c == '\u{85}' || c == '\u{a0}' || c
        == '\u{1680}' || ('\u{2000}' <= c && c <= '\u{200a}') || c == '\u{2028}' || c
        == '\u{2029}' || c == '\u{202f}' || c == '\u{205f}' || c == '\u{3000}'
}

/// Every character of `s` is whitespace (the empty sequence included).
pub open spec fn is_blank(s: Seq<char>) -> bool {
    forall|i: int| 0 <= i < s.len() ==> is_unicode_whitespace(#[trigger] s[i])
}

/// `s` without its leading whitespace.
pub open spec fn trim_start(s: Seq<char>) -> Seq<char>
    decreases s.len(),
{
    if s.len() > 0 && is_unicode_whitespace(s[0]) {
        trim_start(s.drop_first())
    } else {
        s
    }
}

/// `s` without its trailing whitespace.
pub open spec fn trim_end(s: Seq<char>) -> Seq<char>
    decreases s.len(),
{
    if s.len() > 0 && is_unicode_whitespace(s.last()) {
        trim_end(s.drop_last())
    } else {
        s
    }
}

/// `s` without its leading and trailing whitespace (what `str::trim` returns).
pub open spec fn trim(s: Seq<char>) -> Seq<char> {
    trim_end(trim_start(s))
}

proof fn lemma_trim_start_of_blank(s: Seq<char>)
    ensures
        is_blank(s) <==> trim_start(s).len() == 0,
        trim_start(s).len() > 0 ==> !is_unicode_whitespace(trim_start(s)[0]),
    decreases s.len(),
{
    if s.len() > 0 && is_unicode_whitespace(s[0]) {
        lemma_trim_start_of_blank(s.drop_first());
        if is_blank(s.drop_first()) {
            assert forall|i: int| 0 <= i < s.len() implies is_unicode_whitespace(#[trigger] s[i]) by {
                if i > 0 {
                    assert(s[i] == s.drop_first()[i - 1]);
                }
            }
        }
        if is_blank(s) {
            assert forall|i: int| 0 <= i < s.drop_first().len() implies is_unicode_whitespace(
                #[trigger] s.drop_first()[i],
            ) by {
                assert(s.drop_first()[i] == s[i + 1]);
            }
        }
    } else if s.len() > 0 {
        assert(!is_unicode_whitespace(s[0]));
    }
}

proof fn lemma_trim_end_keeps_nonempty(s: Seq<char>)
    ensures
        s.len() > 0 && !is_unicode_whitespace(s[0]) ==> trim_end(s).len() > 0,
    decreases s.len(),
{
    if s.len() > 0 && is_unicode_whitespace(s.last()) {
        lemma_trim_end_keeps_nonempty(s.drop_last());
        if s.len() > 0 && !is_unicode_whitespace(s[0]) {
            assert(s.len() > 1);
            assert(s.drop_last()[0] == s[0]);
        }
    }
}

/// Trimming leaves nothing exactly when the text is all whitespace.
pub proof fn lemma_trim_empty_iff_blank(s: Seq<char>)
    ensures
        trim(s).len() == 0 <==> is_blank(s),
{
    lemma_trim_start_of_blank(s);
    lemma_trim_end_keeps_nonempty(trim_start(s));
}

/// Whether `s` is empty or all whitespace.
pub fn str_is_blank(s: &str) -> (r: bool)
    ensures
        r == is_blank(s@),
        r == (trim(s@).len() == 0),
{
    proof {
        lemma_trim_empty_iff_blank(s@);
    }
    let v = chars_of(s);
    let mut i: usize = 0;
    while i < v.len()
        invariant
            v@ == s@,
            i <= v.len(),
            forall|k: int| 0 <= k < i ==> is_unicode_whitespace(#[trigger] v@[k]),
            trim(s@).len() == 0 <==> is_blank(s@),
        decreases v.len() - i,
    {
        if !is_whitespace(v[i]) {
            return false;
        }
        i = i + 1;
    }
    true
}

/// `s` with leading and trailing whitespace removed.
pub fn trim_str(s: &str) -> (r: &str)
    ensures
        r@ == trim(s@),
{
    let v = chars_of(s);
    let n = v.len();
    let mut start: usize = 0;
    assert(s@.subrange(0, n as int) =~= s@);
    while start < n && is_whitespace(v[start])
        invariant
            v@ == s@,
            n == v.len(),
            start <= n,
            trim_start(s@) == trim_start(s@.subrange(start as int, n as int)),
        decreases n - start,
    {
        assert(s@.subrange(start as int, n as int).drop_first() =~= s@.subrange(
            start + 1,
            n as int,
        ));
        start = start + 1;
    }
    assert(trim_start(s@) == s@.subrange(start as int, n as int));
    let mut end: usize = n;
    while end > start && is_whitespace(v[end - 1])
        invariant
            v@ == s@,
            n == v.len(),
            start <= end <= n,
            trim(s@) == trim_end(s@.subrange(start as int, end as int)),
        decreases end - start,
    {
        assert(s@.subrange(start as int, end as int).drop_last() =~= s@.subrange(
            start as int,
            end - 1,
        ));
        end = end - 1;
    }
    s.substring_char(start, end)
}

// ---------------------------------------------------------------------------
// UTF-8 bytes
// ---------------------------------------------------------------------------

/// Whether the byte `b` is an ASCII digit `0`–`9`.
pub open spec fn is_digit_byte(b: u8) -> bool {
    48 <= b <= 57
}

/// Every byte of `b` is an ASCII digit.
pub open spec fn digit_bytes(b: Seq<u8>) -> bool {
    forall|k: int| 0 <= k < b.len() ==> is_digit_byte(#[trigger] b[k])
}

/// Whether the bytes `b[lo..hi]` are all ASCII digits.
pub fn all_digit_bytes(b: &[u8], lo: usize, hi: usize) -> (r: bool)
    requires
        lo <= hi <= b@.len(),
    ensures
        r == digit_bytes(b@.subrange(lo as int, hi as int)),
{
    let mut i: usize = lo;
    while i < hi
        invariant
            lo <= i <= hi <= b@.len(),
            forall|k: int| lo <= k < i ==> is_digit_byte(#[trigger] b@[k]),
        decreases hi - i,
    {
        if !(48u8 <= b[i] && b[i] <= 57u8) {
            assert(b@.subrange(lo as int, hi as int)[i - lo] == b@[i as int]);
            return false;
        }
        i = i + 1;
    }
    assert forall|k: int| 0 <= k < hi - lo implies is_digit_byte(
        #[trigger] b@.subrange(lo as int, hi as int)[k],
    ) by {
        assert(b@.subrange(lo as int, hi as int)[k] == b@[lo + k]);
    }
    true
}

/// A character with a one-byte encoding is ASCII; every other character's
/// encoding starts with a byte of value `0xC0` or more.
proof fn lemma_first_byte_of_scalar(c: char)
    ensures
        vstd::utf8::encode_scalar(c as u32).len() >= 1,
        (c as u32) <= 0x7f || vstd::utf8::encode_scalar(c as u32)[0] >= 0xc0,
{
    vstd::utf8::char_is_scalar(c);
    let v = c as u32;
    if vstd::utf8::has_width_1_encoding(v) {
    } else if vstd::utf8::has_width_2_encoding(v) {
        assert((0xC0u8 | ((v >> 6) & 0x1F) as u8) >= 0xc0) by (bit_vector);
    } else if vstd::utf8::has_width_3_encoding(v) {
        assert((0xE0u8 | ((v >> 12) & 0x0F) as u8) >= 0xc0) by (bit_vector);
    } else {
        assert((0xF0u8 | ((v >> 18) & 0x7) as u8) >= 0xc0) by (bit_vector);
    }
}

/// Text whose UTF-8 bytes are all below `0x80` is ASCII, one byte per
/// character, each byte the character's value.
pub proof fn lemma_ascii_bytes(s: Seq<char>)
    requires
        forall|i: int|
            0 <= i < vstd::utf8::encode_utf8(s).len() ==> #[trigger] vstd::utf8::encode_utf8(s)[i]
                < 0x80,
    ensures
        vstd::utf8::is_ascii_chars(s),
        s.len() == vstd::utf8::encode_utf8(s).len(),
        forall|i: int| 0 <= i < s.len() ==> #[trigger] s[i] as int == vstd::utf8::encode_utf8(s)[i],
    decreases s.len(),
{
    if s.len() > 0 {
        let b = vstd::utf8::encode_utf8(s);
        let head = vstd::utf8::encode_scalar(s[0] as u32);
        let rest = vstd::utf8::encode_utf8(s.drop_first());
        lemma_first_byte_of_scalar(s[0]);
        assert(b == head + rest);
        assert(b[0] == head[0]);
        assert forall|i: int| 0 <= i < rest.len() implies #[trigger] rest[i] < 0x80 by {
            assert(rest[i] == b[head.len() + i]);
        }
        lemma_ascii_bytes(s.drop_first());
        assert forall|i: int| 0 <= i < s.len() implies '\0' <= #[trigger] s[i] <= '\u{7f}' by {
            if i > 0 {
                assert(s[i] == s.drop_first()[i - 1]);
            } else {
                assert(b[0] < 0x80);
                assert((s[0] as u32) <= 0x7f);
                vstd::utf8::char_u32_cast(s[0], s[0] as u32);
            }
        }
    }
    vstd::utf8::is_ascii_chars_encode_utf8(s);
    let b = vstd::utf8::encode_utf8(s);
    assert forall|i: int| 0 <= i < s.len() implies #[trigger] s[i] as int == b[i] by {
        assert(s[i] as u8 == b[i]);
        assert(s[i] <= '\u{7f}');
    }
}

// ---------------------------------------------------------------------------
// Decimal digits
// ---------------------------------------------------------------------------

/// The character of a decimal digit `d` (0–9).
pub open spec fn digit_char(d: int) -> char {
    (48 + d) as char
}

/// Whether `c` is one of `0`–`9`.
pub open spec fn is_digit(c: char) -> bool {
    '0' <= c <= '9'
}

/// The value of a digit character.
pub open spec fn digit_value(c: char) -> int {
    c as int - 48
}

/// Every character of `s` is a decimal digit.
pub open spec fn all_digits(s: Seq<char>) -> bool {
    forall|i: int| 0 <= i < s.len() ==> is_digit(#[trigger] s[i])
}

/// The number that a sequence of digits spells (0 for the empty sequence).
pub open spec fn digits_value(s: Seq<char>) -> nat
    decreases s.len(),
{
    if s.len() == 0 {
        0
    } else {
        (digits_value(s.drop_last()) * 10 + digit_value(s.last())) as nat
    }
}

/// `10` to the power `w`.
pub open spec fn pow10(w: nat) -> nat
    decreases w,
{
    if w == 0 {
        1
    } else {
        10 * pow10((w - 1) as nat)
    }
}

/// The last `w` decimal digits of `n`, with leading zeros.
pub open spec fn fixed_digits(n: nat, w: nat) -> Seq<char>
    decreases w,
{
    if w == 0 {
        Seq::empty()
    } else {
        fixed_digits(n / 10, (w - 1) as nat).push(digit_char((n % 10) as int))
    }
}

/// The decimal form of `n`, without leading zeros (`{}`).
pub open spec fn decimal(n: nat) -> Seq<char>
    decreases n,
{
    if n < 10 {
        seq![digit_char(n as int)]
    } else {
        decimal(n / 10).push(digit_char((n % 10) as int))
    }
}

/// The decimal form of `n` zero-padded to at least `w` characters (`{:0w}`).
pub open spec fn zero_padded(n: nat, w: nat) -> Seq<char> {
    if n < pow10(w) {
        fixed_digits(n, w)
    } else {
        decimal(n)
    }
}

/// The decimal form of a signed `v` zero-padded to at least `w` characters,
/// the sign counted in the width (`{:0w}`).
pub open spec fn signed_zero_padded(v: int, w: nat) -> Seq<char> {
    if v < 0 {
        seq!['-'] + zero_padded((-v) as nat, (w - 1) as nat)
    } else {
        zero_padded(v as nat, w)
    }
}

/// Digits read back spell the number they were read from.
pub proof fn lemma_fixed_digits_of_value(s: Seq<char>)
    requires
        all_digits(s),
    ensures
        fixed_digits(digits_value(s), s.len()) == s,
        digits_value(s) < pow10(s.len()),
    decreases s.len(),
{
    if s.len() > 0 {
        let t = s.drop_last();
        assert(all_digits(t)) by {
            assert forall|i: int| 0 <= i < t.len() implies is_digit(#[trigger] t[i]) by {
                assert(t[i] == s[i]);
            }
        }
        lemma_fixed_digits_of_value(t);
        assert(is_digit(s[s.len() - 1]));
        let d = digit_value(s.last());
        assert(0 <= d < 10);
        let v = digits_value(s);
        assert(v == digits_value(t) * 10 + d);
        assert(v / 10 == digits_value(t));
        assert(v % 10 == d);
        assert(digit_char(d) == s.last());
        assert(fixed_digits(v, s.len()) =~= t.push(s.last()));
        assert(t.push(s.last()) =~= s);
    }
}

/// The padded digits of a number below `10^w` read back to that number.
pub proof fn lemma_value_of_fixed_digits(n: nat, w: nat)
    requires
        n < pow10(w),
    ensures
        all_digits(fixed_digits(n, w)),
        fixed_digits(n, w).len() == w,
        digits_value(fixed_digits(n, w)) == n,
    decreases w,
{
    if w > 0 {
        let w1 = (w - 1) as nat;
        assert(n / 10 < pow10(w1));
        lemma_value_of_fixed_digits(n / 10, w1);
        let f = fixed_digits(n, w);
        let d = (n % 10) as int;
        assert(f == fixed_digits(n / 10, w1).push(digit_char(d)));
        assert(f.drop_last() =~= fixed_digits(n / 10, w1));
        assert(digit_value(digit_char(d)) == d);
        assert forall|i: int| 0 <= i < f.len() implies is_digit(#[trigger] f[i]) by {
            if i < w1 {
                assert(f[i] == fixed_digits(n / 10, w1)[i]);
            }
        }
    }
}

/// Two numbers below `10^w` with the same padded digits are equal.
pub proof fn lemma_fixed_digits_injective(a: nat, b: nat, w: nat)
    requires
        a < pow10(w),
        b < pow10(w),
        fixed_digits(a, w) == fixed_digits(b, w),
    ensures
        a == b,
{
    lemma_value_of_fixed_digits(a, w);
    lemma_value_of_fixed_digits(b, w);
}

/// The small powers of ten used for the fixed-width fields.
pub proof fn lemma_pow10_small()
    ensures
        pow10(0) == 1,
        pow10(1) == 10,
        pow10(2) == 100,
        pow10(3) == 1000,
        pow10(4) == 10000,
{
    reveal_with_fuel(pow10, 5);
}

// ---------------------------------------------------------------------------
// Writing digits
// ---------------------------------------------------------------------------

/// Appends the digit `d` (0–9).
pub fn push_digit(out: &mut String, d: u64)
    requires
        d < 10,
    ensures
        final(out)@ == old(out)@.push(digit_char(d as int)),
{
    let s = if d == 0 {
        "0"
    } else if d == 1 {
        "1"
    } else if d == 2 {
        "2"
    } else if d == 3 {
        "3"
    } else if d == 4 {
        "4"
    } else if d == 5 {
        "5"
    } else if d == 6 {
        "6"
    } else if d == 7 {
        "7"
    } else if d == 8 {
        "8"
    } else {
        "9"
    };
    proof {
        reveal_strlit("0");
        reveal_strlit("1");
        reveal_strlit("2");
        reveal_strlit("3");
        reveal_strlit("4");
        reveal_strlit("5");
        reveal_strlit("6");
        reveal_strlit("7");
        reveal_strlit("8");
        reveal_strlit("9");
    }
    out.append(s);
}

/// Appends the decimal form of `n`.
pub fn push_decimal(out: &mut String, n: u64)
    ensures
        final(out)@ == old(out)@ + decimal(n as nat),
    decreases n,
{
    if n < 10 {
        push_digit(out, n);
        assert(old(out)@.push(digit_char(n as int)) =~= old(out)@ + decimal(n as nat));
    } else {
        push_decimal(out, n / 10);
        push_digit(out, n % 10);
        assert((old(out)@ + decimal((n / 10) as nat)).push(digit_char((n % 10) as int)) =~= old(
            out,
        )@ + decimal(n as nat));
    }
}

/// Appends the last `w` digits of `n`, with leading zeros.
pub fn push_fixed_digits(out: &mut String, n: u64, w: u64)
    ensures
        final(out)@ == old(out)@ + fixed_digits(n as nat, w as nat),
    decreases w,
{
    if w > 0 {
        push_fixed_digits(out, n / 10, w - 1);
        push_digit(out, n % 10);
        assert((old(out)@ + fixed_digits((n / 10) as nat, (w - 1) as nat)).push(
            digit_char((n % 10) as int),
        ) =~= old(out)@ + fixed_digits(n as nat, w as nat));
    } else {
        assert(old(out)@ + fixed_digits(n as nat, 0) =~= old(out)@);
    }
}

/// Appends `n` zero-padded to at least `w` characters, `w` at most 4.
pub fn push_zero_padded(out: &mut String, n: u64, w: u64)
    requires
        w <= 4,
    ensures
        final(out)@ == old(out)@ + zero_padded(n as nat, w as nat),
{
    proof {
        lemma_pow10_small();
    }
    let limit: u64 = if w == 0 {
        1
    } else if w == 1 {
        10
    } else if w == 2 {
        100
    } else if w == 3 {
        1000
    } else {
        10000
    };
    if n < limit {
        push_fixed_digits(out, n, w);
    } else {
        push_decimal(out, n);
    }
}

/// Appends a signed `v` zero-padded to at least `w` characters, `w` 1–4.
pub fn push_signed_zero_padded(out: &mut String, v: i64, w: u64)
    requires
        1 <= w <= 4,
        v > i64::MIN,
    ensures
        final(out)@ == old(out)@ + signed_zero_padded(v as int, w as nat),
{
    if v < 0 {
        proof {
            reveal_strlit("-");
        }
        out.append("-");
        push_zero_padded(out, (-v) as u64, w - 1);
        assert(old(out)@ + seq!['-'] + zero_padded((-v) as nat, (w - 1) as nat) =~= old(out)@
            + signed_zero_padded(v as int, w as nat));
    } else {
        push_zero_padded(out, v as u64, w);
    }
}

} // verus!
