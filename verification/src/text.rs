//! Small verified text utilities: splitting, number parsing and decimal
//! formatting over character sequences.

use vstd::prelude::*;
use vstd::string::StrSliceExecFns;
use vstd::string::StringExecFns;

verus! {

/// The numeric value of a decimal digit character, or 10 for any other
/// character (so that "is a digit" is `digit_value(c) < 10`).
pub open spec fn digit_value(c: char) -> nat {
    if 48 <= c as u32 && c as u32 <= 57 {
        (c as u32 - 48) as nat
    } else {
        10
    }
}

/// The value of a sequence of decimal digits, most significant first.
pub open spec fn spec_digits_value(s: Seq<char>) -> nat
    decreases s.len(),
{
    if s.len() == 0 {
        0
    } else {
        spec_digits_value(s.drop_last()) * 10 + digit_value(s.last())
    }
}

/// Whether every character of the sequence is a decimal digit.
pub open spec fn all_digits(s: Seq<char>) -> bool {
    forall|i: int| 0 <= i < s.len() ==> digit_value(#[trigger] s[i]) < 10
}

/// What `u8::from_str` accepts: an optional leading `+`, then at least one
/// digit, with a value of at most 255.
pub open spec fn spec_parse_u8(s: Seq<char>) -> Option<u8> {
    let t = if s.len() > 0 && s[0] == '+' {
        s.skip(1)
    } else {
        s
    };
    if t.len() > 0 && all_digits(t) && spec_digits_value(t) <= 255 {
        Some(spec_digits_value(t) as u8)
    } else {
        None
    }
}

/// The value of a digit sequence is at least the value of any of its
/// prefixes (every further position multiplies by ten and adds something).
proof fn lemma_digits_value_grows(s: Seq<char>, k: int)
    requires
        0 <= k <= s.len(),
    ensures
        spec_digits_value(s) >= spec_digits_value(s.take(k)),
    decreases s.len() - k,
{
    if k == s.len() {
        assert(s.take(k) =~= s);
    } else {
        lemma_digits_value_grows(s, k + 1);
        assert(s.take(k + 1).drop_last() =~= s.take(k));
        assert(spec_digits_value(s.take(k + 1)) == spec_digits_value(s.take(k)) * 10
            + digit_value(s.take(k + 1).last()));
    }
}

/// Parse a sequence of characters as a `u8`, accepting exactly what
/// `str::parse::<u8>` accepts.
pub fn parse_u8_chars(chars: &Vec<char>) -> (r: Option<u8>)
    ensures
        r == spec_parse_u8(chars@),
{
    let start: usize = if chars.len() > 0 && chars[0] == '+' {
        1
    } else {
        0
    };
    let ghost t = if chars@.len() > 0 && chars@[0] == '+' {
        chars@.skip(1)
    } else {
        chars@
    };
    proof {
        assert(t =~= chars@.subrange(start as int, chars@.len() as int));
    }
    if chars.len() == start {
        return None;
    }
    let mut value: u32 = 0;
    let mut i: usize = start;
    while i < chars.len()
        invariant
            start <= i <= chars@.len(),
            start < chars@.len(),
            t == chars@.subrange(start as int, chars@.len() as int),
            t == if chars@.len() > 0 && chars@[0] == '+' {
                chars@.skip(1)
            } else {
                chars@
            },
            all_digits(chars@.subrange(start as int, i as int)),
            value == spec_digits_value(chars@.subrange(start as int, i as int)),
            value <= 255,
        decreases chars@.len() - i,
    {
        let c = chars[i];
        let code = c as u32;
        proof {
            assert(chars@.subrange(start as int, i + 1).drop_last() =~= chars@.subrange(
                start as int,
                i as int,
            ));
            assert(chars@.subrange(start as int, i + 1).last() == chars@[i as int]);
            assert(chars@.subrange(start as int, i + 1) =~= t.take(i + 1 - start));
        }
        if code < 48 || code > 57 {
            proof {
                assert(digit_value(t[i - start]) == 10);
                assert(!all_digits(t));
            }
            return None;
        }
        let d = code - 48;
        let next = value * 10 + d;
        proof {
            let prev = chars@.subrange(start as int, i as int);
            let cur = chars@.subrange(start as int, i + 1);
            assert(digit_value(chars@[i as int]) == d);
            assert(cur.drop_last() =~= prev);
            assert(cur.last() == chars@[i as int]);
            assert(spec_digits_value(cur) == next);
            assert(all_digits(cur)) by {
                assert(forall|j: int| 0 <= j < prev.len() ==> cur[j] == #[trigger] prev[j]);
            };
        }
        if next > 255 {
            proof {
                assert(t.take(i + 1 - start) =~= chars@.subrange(start as int, i + 1));
                lemma_digits_value_grows(t, i + 1 - start);
            }
            return None;
        }
        value = next;
        i = i + 1;
    }
    proof {
        assert(chars@.subrange(start as int, chars@.len() as int) =~= t);
    }
    Some(value as u8)
}

/// Splitting a character sequence at every occurrence of `sep`. Splitting
/// the empty sequence gives one empty part, as `str::split` does.
pub open spec fn spec_split(s: Seq<char>, sep: char) -> Seq<Seq<char>>
    decreases s.len(),
{
    if s.len() == 0 {
        seq![Seq::<char>::empty()]
    } else if s.last() == sep {
        spec_split(s.drop_last(), sep).push(Seq::<char>::empty())
    } else {
        let rest = spec_split(s.drop_last(), sep);
        rest.update(rest.len() - 1, rest.last().push(s.last()))
    }
}

/// There is always at least one part.
pub proof fn lemma_split_nonempty(s: Seq<char>, sep: char)
    ensures
        spec_split(s, sep).len() >= 1,
    decreases s.len(),
{
    if s.len() > 0 {
        lemma_split_nonempty(s.drop_last(), sep);
    }
}

/// Split a character vector at every occurrence of `sep`.
pub fn split_chars(chars: &Vec<char>, sep: char) -> (r: Vec<Vec<char>>)
    ensures
        r@.len() == spec_split(chars@, sep).len(),
        forall|i: int| 0 <= i < r@.len() ==> (#[trigger] r@[i])@ == spec_split(chars@, sep)[i],
{
    let mut parts: Vec<Vec<char>> = Vec::new();
    parts.push(Vec::new());
    proof {
        assert(chars@.take(0) =~= Seq::<char>::empty());
    }
    let mut i: usize = 0;
    while i < chars.len()
        invariant
            i <= chars@.len(),
            parts@.len() == spec_split(chars@.take(i as int), sep).len(),
            parts@.len() >= 1,
            forall|j: int|
                0 <= j < parts@.len() ==> (#[trigger] parts@[j])@ == spec_split(
                    chars@.take(i as int),
                    sep,
                )[j],
        decreases chars@.len() - i,
    {
        proof {
            assert(chars@.take(i + 1).drop_last() =~= chars@.take(i as int));
            assert(chars@.take(i + 1).last() == chars@[i as int]);
        }
        let c = chars[i];
        if c == sep {
            parts.push(Vec::new());
        } else {
            let last = parts.len() - 1;
            let part = &mut parts[last];
            part.push(c);
        }
        i = i + 1;
    }
    proof {
        assert(chars@.take(chars@.len() as int) =~= chars@);
    }
    parts
}

/// The characters of a string, in order.
pub fn str_to_chars(s: &str) -> (r: Vec<char>)
    ensures
        r@ == s@,
{
    let n = s.unicode_len();
    let mut chars: Vec<char> = Vec::new();
    let mut i: usize = 0;
    while i < n
        invariant
            i <= n,
            n == s@.len(),
            chars@ == s@.take(i as int),
        decreases n - i,
    {
        chars.push(s.get_char(i));
        proof {
            assert(chars@ =~= s@.take(i + 1));
        }
        i = i + 1;
    }
    proof {
        assert(s@.take(n as int) =~= s@);
    }
    chars
}

/// Whether `chars` ends with the characters of `suffix`.
pub fn chars_ends_with(chars: &Vec<char>, suffix: &str) -> (r: bool)
    ensures
        r == (chars@.len() >= suffix@.len() && chars@.skip(chars@.len() - suffix@.len())
            == suffix@),
{
    let n = suffix.unicode_len();
    if chars.len() < n {
        return false;
    }
    let offset = chars.len() - n;
    let mut i: usize = 0;
    while i < n
        invariant
            i <= n,
            n == suffix@.len(),
            n <= chars@.len(),
            chars@.len() <= usize::MAX,
            offset == chars@.len() - n,
            forall|j: int| 0 <= j < i ==> chars@[offset + j] == suffix@[j],
        decreases n - i,
    {
        proof {
            assert((offset as int) + (i as int) < chars@.len());
        }
        if chars[offset + i] != suffix.get_char(i) {
            proof {
                assert(chars@.skip(offset as int)[i as int] != suffix@[i as int]);
            }
            return false;
        }
        i = i + 1;
    }
    proof {
        assert(chars@.skip(offset as int) =~= suffix@);
    }
    true
}

/// The character for one decimal digit.
pub open spec fn digit_char(d: nat) -> char {
    if d == 0 {
        '0'
    } else if d == 1 {
        '1'
    } else if d == 2 {
        '2'
    } else if d == 3 {
        '3'
    } else if d == 4 {
        '4'
    } else if d == 5 {
        '5'
    } else if d == 6 {
        '6'
    } else if d == 7 {
        '7'
    } else if d == 8 {
        '8'
    } else {
        '9'
    }
}

/// The decimal digit characters of `n`, most significant first.
pub open spec fn spec_dec(n: nat) -> Seq<char>
    decreases n,
{
    if n < 10 {
        seq![digit_char(n)]
    } else {
        spec_dec(n / 10).push(digit_char(n % 10))
    }
}

/// The characters for a sequence of digit values.
pub open spec fn digits_to_chars(ds: Seq<u8>) -> Seq<char> {
    ds.map_values(|d: u8| digit_char(d as nat))
}

/// A one-character string slice for the given decimal digit.
fn digit_str(d: u8) -> (s: &'static str)
    requires
        d < 10,
    ensures
        s@ =~= seq![digit_char(d as nat)],
{
    let lit = "0123456789";
    proof {
        reveal_strlit("0123456789");
    }
    let s = lit.substring_char(d as usize, d as usize + 1);
    proof {
        assert(s@ =~= seq![digit_char(d as nat)]);
    }
    s
}

/// The decimal form of `n` as a string.
pub fn dec_u64(n: u64) -> (r: String)
    ensures
        r@ == spec_dec(n as nat),
{
    let mut digits: Vec<u8> = Vec::new();
    digits.push((n % 10) as u8);
    let mut rest: u64 = n / 10;
    proof {
        assert(digits@.reverse() =~= seq![(n % 10) as u8]);
        if n >= 10 {
            assert(spec_dec(n as nat) == spec_dec(n as nat / 10).push(
                digit_char(n as nat % 10),
            ));
            assert(spec_dec(n as nat) =~= spec_dec(rest as nat) + digits_to_chars(
                digits@.reverse(),
            ));
        } else {
            assert(spec_dec(n as nat) =~= digits_to_chars(digits@.reverse()));
        }
    }
    while rest > 0
        invariant
            forall|j: int| 0 <= j < digits@.len() ==> digits@[j] < 10,
            digits@.len() >= 1,
            spec_dec(n as nat) == if rest == 0 {
                digits_to_chars(digits@.reverse())
            } else {
                spec_dec(rest as nat) + digits_to_chars(digits@.reverse())
            },
        decreases rest,
    {
        let d = (rest % 10) as u8;
        digits.push(d);
        let ghost digits_before = digits@.drop_last();
        proof {
            assert(digits@.reverse() =~= seq![d] + digits_before.reverse());
            if rest >= 10 {
                assert(spec_dec(rest as nat) == spec_dec(rest as nat / 10).push(
                    digit_char(rest as nat % 10),
                ));
                assert(spec_dec(rest as nat) + digits_to_chars(digits_before.reverse())
                    =~= spec_dec(rest as nat / 10) + digits_to_chars(digits@.reverse()));
            } else {
                assert(spec_dec(rest as nat) =~= seq![digit_char(rest as nat)]);
                assert(spec_dec(rest as nat) + digits_to_chars(digits_before.reverse())
                    =~= digits_to_chars(digits@.reverse()));
            }
        }
        rest = rest / 10;
    }
    let mut result = String::new();
    let mut i: usize = digits.len();
    proof {
        assert(digits@.skip(i as int).reverse() =~= Seq::<u8>::empty());
        assert(result@ =~= digits_to_chars(digits@.skip(i as int).reverse()));
    }
    while i > 0
        invariant
            i <= digits@.len(),
            forall|j: int| 0 <= j < digits@.len() ==> digits@[j] < 10,
            result@ == digits_to_chars(digits@.skip(i as int).reverse()),
            spec_dec(n as nat) == digits_to_chars(digits@.reverse()),
        decreases i,
    {
        i = i - 1;
        let piece = digit_str(digits[i]);
        result.append(piece);
        proof {
            assert(digits_to_chars(digits@.skip(i as int).reverse()) =~= result@);
        }
    }
    proof {
        assert(digits@.skip(0) =~= digits@);
    }
    result
}

/// Whether positions `from..to` of `chars` start with the characters of
/// `prefix`.
pub fn chars_starts_with_at(chars: &Vec<char>, from: usize, to: usize, prefix: &str) -> (r: bool)
    requires
        from <= to <= chars@.len(),
    ensures
        r == (to - from >= prefix@.len() && chars@.subrange(from as int, to as int).take(
            prefix@.len() as int,
        ) == prefix@),
{
    let n = prefix.unicode_len();
    if to - from < n {
        return false;
    }
    let ghost range = chars@.subrange(from as int, to as int);
    let mut i: usize = 0;
    while i < n
        invariant
            i <= n,
            n == prefix@.len(),
            from <= to <= chars@.len(),
            n <= to - from,
            range == chars@.subrange(from as int, to as int),
            forall|j: int| 0 <= j < i ==> range[j] == prefix@[j],
        decreases n - i,
    {
        proof {
            assert((from as int) + (i as int) < chars@.len());
            assert(chars@[from + i] == range[i as int]);
        }
        if chars[from + i] != prefix.get_char(i) {
            proof {
                assert(range.take(n as int)[i as int] != prefix@[i as int]);
            }
            return false;
        }
        i = i + 1;
    }
    proof {
        assert(range.take(n as int) =~= prefix@);
    }
    true
}

/// `n` space characters.
pub open spec fn spec_spaces(n: nat) -> Seq<char>
    decreases n,
{
    if n == 0 {
        Seq::<char>::empty()
    } else {
        spec_spaces((n - 1) as nat).push(' ')
    }
}

/// A sequence left-aligned in a field of `width` characters: itself, plus
/// spaces up to the width.
pub open spec fn spec_pad(s: Seq<char>, width: nat) -> Seq<char> {
    if s.len() >= width {
        s
    } else {
        s + spec_spaces((width - s.len()) as nat)
    }
}

/// Pad a string with spaces on the right to at least `width` characters.
pub fn pad_to(s: String, width: usize) -> (r: String)
    ensures
        r@ == spec_pad(s@, width as nat),
{
    let ghost s0 = s@;
    let mut r = s;
    let mut len = r.as_str().unicode_len();
    proof {
        reveal_strlit(" ");
        assert(s0 + spec_spaces(0) =~= s0);
    }
    while len < width
        invariant
            len == r@.len(),
            len >= s0.len(),
            s0.len() >= width || len <= width,
            s0.len() >= width ==> len == s0.len(),
            r@ == s0 + spec_spaces((len - s0.len()) as nat),
        decreases width - len,
    {
        r.append(" ");
        proof {
            reveal_strlit(" ");
            assert(r@ =~= s0 + spec_spaces((len + 1 - s0.len()) as nat));
        }
        len = len + 1;
    }
    proof {
        if s0.len() >= width {
            assert(r@ =~= spec_pad(s0, width as nat));
        } else {
            assert(len == width);
            assert(r@ =~= spec_pad(s0, width as nat));
        }
    }
    r
}

/// `n` copies of a piece of text.
pub open spec fn spec_repeat(s: Seq<char>, n: nat) -> Seq<char>
    decreases n,
{
    if n == 0 {
        Seq::<char>::empty()
    } else {
        spec_repeat(s, (n - 1) as nat) + s
    }
}

/// A string of `n` copies of `piece`.
pub fn repeat_str(piece: &str, n: usize) -> (r: String)
    ensures
        r@ == spec_repeat(piece@, n as nat),
{
    let mut r = String::new();
    let mut i: usize = 0;
    while i < n
        invariant
            i <= n,
            r@ == spec_repeat(piece@, i as nat),
        decreases n - i,
    {
        r.append(piece);
        i = i + 1;
    }
    r
}

/// The character for one uppercase hexadecimal digit.
pub open spec fn hex_char(d: nat) -> char {
    if d < 10 {
        digit_char(d)
    } else if d == 10 {
        'A'
    } else if d == 11 {
        'B'
    } else if d == 12 {
        'C'
    } else if d == 13 {
        'D'
    } else if d == 14 {
        'E'
    } else {
        'F'
    }
}

/// A byte as two uppercase hexadecimal digits.
pub open spec fn spec_hex_byte(b: u8) -> Seq<char> {
    seq![hex_char(b as nat / 16), hex_char(b as nat % 16)]
}

/// A one-character string slice for the given hexadecimal digit.
fn hex_digit_str(d: u8) -> (s: &'static str)
    requires
        d < 16,
    ensures
        s@ =~= seq![hex_char(d as nat)],
{
    let lit = "0123456789ABCDEF";
    proof {
        reveal_strlit("0123456789ABCDEF");
    }
    let s = lit.substring_char(d as usize, d as usize + 1);
    proof {
        assert(s@ =~= seq![hex_char(d as nat)]);
    }
    s
}

/// Format a byte as two uppercase hexadecimal digits.
pub fn hex_byte(b: u8) -> (r: String)
    ensures
        r@ == spec_hex_byte(b),
{
    let hi = hex_digit_str(b / 16);
    let lo = hex_digit_str(b % 16);
    let s = String::from_str(hi);
    let r = s.concat(lo);
    proof {
        assert(r@ =~= spec_hex_byte(b));
    }
    r
}

/// Whether two string slices hold the same characters.
pub fn str_eq(a: &str, b: &str) -> (r: bool)
    ensures
        r == (a@ == b@),
{
    let n = a.unicode_len();
    if n != b.unicode_len() {
        return false;
    }
    let mut i: usize = 0;
    while i < n
        invariant
            i <= n,
            n == a@.len(),
            n == b@.len(),
            forall|j: int| 0 <= j < i ==> a@[j] == b@[j],
        decreases n - i,
    {
        if a.get_char(i) != b.get_char(i) {
            return false;
        }
        i = i + 1;
    }
    proof {
        assert(a@ =~= b@);
    }
    true
}

} // verus!
