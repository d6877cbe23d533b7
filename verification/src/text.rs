//! Text as sequences of characters: numerals, comparison, trimming and splitting.

use vstd::prelude::*;
use vstd::string::*;

verus! {

/// `String::push` of std appends one character to the string.
pub assume_specification[ String::push ](s: &mut String, ch: char)
    ensures
        final(s)@ == old(s)@.push(ch),
;

/// The characters of a string slice.
pub fn chars_of(s: &str) -> (v: Vec<char>)
    ensures
        v@ == s@,
{
    let mut v: Vec<char> = Vec::new();
    for c in it: s.chars()
        invariant
            it.seq() == s@,
            v@ == it.seq().take(it.index() as int),
    {
        v.push(c);
    }
    v
}

/// Whether two texts are the same.
pub fn same(a: &str, b: &str) -> (r: bool)
    ensures
        r == (a@ == b@),
{
    proof {
        vstd::utf8::encode_utf8_decode_utf8(a@);
        vstd::utf8::encode_utf8_decode_utf8(b@);
    }
    let x = a.as_bytes();
    let y = b.as_bytes();
    if x.len() != y.len() {
        return false;
    }
    let mut i: usize = 0;
    while i < x.len()
        invariant
            x@ == a.spec_bytes(),
            y@ == b.spec_bytes(),
            x.len() == y.len(),
            i <= x.len(),
            forall|k: int| 0 <= k < i ==> x@[k] == y@[k],
        decreases x.len() - i,
    {
        if x[i] != y[i] {
            return false;
        }
        i += 1;
    }
    assert(x@ =~= y@);
    true
}

/// The two pieces joined.
pub fn join(a: &str, b: &str) -> (r: String)
    ensures
        r@ == a@ + b@,
{
    let mut r = a.to_owned();
    r.append(b);
    r
}

/// The character that stands for one digit, with lower-case letters above nine.
pub open spec fn digit_char(d: int) -> char {
    if d < 10 {
        (48 + d) as char
    } else {
        (87 + d) as char
    }
}

/// The numeral of a number in a base from two to thirty-six, without leading zeros.
pub open spec fn numeral(n: nat, radix: nat) -> Seq<char>
    decreases n,
{
    if radix < 2 {
        Seq::empty()
    } else if n < radix {
        seq![digit_char(n as int)]
    } else {
        proof {
            assert(n / radix < n) by (nonlinear_arith)
                requires
                    n >= radix,
                    radix >= 2,
            ;
        }
        numeral(n / radix, radix).push(digit_char((n % radix) as int))
    }
}

/// The decimal numeral of a number.
pub open spec fn decimal(n: int) -> Seq<char> {
    if n < 0 {
        seq!['-'] + numeral((-n) as nat, 10)
    } else {
        numeral(n as nat, 10)
    }
}

/// The lower-case hexadecimal numeral of a number.
pub open spec fn hexadecimal(n: nat) -> Seq<char> {
    numeral(n, 16)
}

fn push_digit(out: &mut String, d: u64)
    requires
        d < 36,
    ensures
        final(out)@ == old(out)@.push(digit_char(d as int)),
{
    let code: u8 = if d < 10 {
        48 + d as u8
    } else {
        87 + d as u8
    };
    out.push(code as char);
}

fn push_numeral(out: &mut String, n: u64, radix: u64)
    requires
        2 <= radix <= 36,
    ensures
        final(out)@ == old(out)@ + numeral(n as nat, radix as nat),
    decreases n,
{
    if n < radix {
        push_digit(out, n);
        assert(out@ =~= old(out)@ + numeral(n as nat, radix as nat));
    } else {
        assert(n / radix < n) by (nonlinear_arith)
            requires
                n >= radix,
                radix >= 2,
        ;
        push_numeral(out, n / radix, radix);
        push_digit(out, n % radix);
        assert(out@ =~= old(out)@ + numeral(n as nat, radix as nat));
    }
}

/// The decimal numeral of an unsigned number.
pub fn decimal_of(n: u64) -> (s: String)
    ensures
        s@ == decimal(n as int),
{
    let mut s = String::new();
    push_numeral(&mut s, n, 10);
    assert(s@ =~= numeral(n as nat, 10));
    s
}

/// The decimal numeral of a signed number.
pub fn signed_decimal_of(n: i64) -> (s: String)
    ensures
        s@ == decimal(n as int),
{
    if n >= 0 {
        decimal_of(n as u64)
    } else {
        let magnitude: u64 = (-(n as i128)) as u64;
        let mut s = String::new();
        s.push('-');
        push_numeral(&mut s, magnitude, 10);
        assert(s@ =~= decimal(n as int));
        s
    }
}

/// The lower-case hexadecimal numeral of an unsigned number.
pub fn hexadecimal_of(n: u64) -> (s: String)
    ensures
        s@ == hexadecimal(n as nat),
{
    let mut s = String::new();
    push_numeral(&mut s, n, 16);
    assert(s@ =~= numeral(n as nat, 16));
    s
}

/// A hexadecimal numeral after the mark `0x`.
pub open spec fn prefixed_hex(n: nat) -> Seq<char> {
    "0x"@ + hexadecimal(n)
}

/// A hexadecimal numeral after the mark `0x`.
pub fn prefixed_hex_of(n: u64) -> (s: String)
    ensures
        s@ == prefixed_hex(n as nat),
{
    join("0x", hexadecimal_of(n).as_str())
}

/// The value of one digit, in any base up to thirty-six; none for other characters.
pub open spec fn digit_value(c: char) -> Option<nat> {
    if '0' <= c <= '9' {
        Some((c as nat - 48) as nat)
    } else if 'a' <= c <= 'z' {
        Some((c as nat - 87) as nat)
    } else if 'A' <= c <= 'Z' {
        Some((c as nat - 55) as nat)
    } else {
        None
    }
}

/// The value of a row of digits, most significant first; none where a character is no digit
/// of the base.
pub open spec fn digits_value(s: Seq<char>, radix: nat) -> Option<nat>
    decreases s.len(),
{
    if s.len() == 0 {
        Some(0)
    } else {
        match (digits_value(s.drop_last(), radix), digit_value(s.last())) {
            (Some(high), Some(d)) => if d < radix {
                Some(high * radix + d)
            } else {
                None
            },
            _ => None,
        }
    }
}

/// The number that a numeral stands for: an optional plus sign, then at least one digit.
pub open spec fn unsigned_value(s: Seq<char>, radix: nat) -> Option<nat> {
    let digits = if s.len() > 0 && s[0] == '+' {
        s.skip(1)
    } else {
        s
    };
    if digits.len() == 0 {
        None
    } else {
        digits_value(digits, radix)
    }
}

/// The number that a numeral stands for, where it is below a bound.
pub open spec fn bounded_value(s: Seq<char>, radix: nat, bound: nat) -> Option<u64> {
    match unsigned_value(s, radix) {
        Some(n) => if n < bound {
            Some(n as u64)
        } else {
            None
        },
        None => None,
    }
}

/// The number that fits in 64 bits and that a numeral stands for.
pub open spec fn u64_value(s: Seq<char>, radix: nat) -> Option<u64> {
    bounded_value(s, radix, 0x1_0000_0000_0000_0000)
}

fn digit_of(c: char) -> (r: Option<u64>)
    ensures
        r is Some == digit_value(c) is Some,
        r matches Some(d) ==> d == digit_value(c)->0 && d < 36,
{
    let code: u32 = c as u32;
    if '0' <= c && c <= '9' {
        Some((code - 48) as u64)
    } else if 'a' <= c && c <= 'z' {
        Some((code - 87) as u64)
    } else if 'A' <= c && c <= 'Z' {
        Some((code - 55) as u64)
    } else {
        None
    }
}

proof fn prefix_value(s: Seq<char>, radix: nat, n: int)
    requires
        0 <= n <= s.len(),
        radix >= 1,
    ensures
        digits_value(s, radix) is Some ==> {
            &&& digits_value(s.take(n), radix) is Some
            &&& digits_value(s.take(n), radix)->0 <= digits_value(s, radix)->0
        },
    decreases s.len(),
{
    if n == s.len() {
        assert(s.take(n) =~= s);
    } else {
        prefix_value(s.drop_last(), radix, n);
        assert(s.drop_last().take(n) =~= s.take(n));
        if digits_value(s, radix) is Some {
            let high = digits_value(s.drop_last(), radix)->0;
            assert(high * radix >= high) by (nonlinear_arith)
                requires
                    radix >= 1,
                    high >= 0,
            ;
        }
    }
}

/// Reads a numeral in the way of `u64::from_str_radix`.
pub fn parse_u64(s: &str, radix: u64) -> (r: Option<u64>)
    requires
        2 <= radix <= 36,
    ensures
        r == u64_value(s@, radix as nat),
{
    let chars = chars_of(s);
    let start: usize = if chars.len() > 0 && chars[0] == '+' {
        1
    } else {
        0
    };
    let ghost digits = s@.skip(start as int);
    assert(s@.skip(0) =~= s@);
    if chars.len() == start {
        return None;
    }
    let mut value: u64 = 0;
    let mut i: usize = start;
    while i < chars.len()
        invariant
            2 <= radix <= 36,
            start <= i <= chars.len(),
            chars@ == s@,
            digits == s@.skip(start as int),
            digits_value(digits.take(i - start), radix as nat) == Some(value as nat),
            u64_value(s@, radix as nat) == (match digits_value(digits, radix as nat) {
                Some(n) => if n < 0x1_0000_0000_0000_0000 {
                    Some(n as u64)
                } else {
                    None
                },
                None => None,
            }),
        decreases chars.len() - i,
    {
        let ghost seen = digits.take(i + 1 - start);
        proof {
            assert(seen.drop_last() =~= digits.take(i - start));
            assert(seen.last() == chars@[i as int]);
            prefix_value(digits, radix as nat, i + 1 - start);
        }
        let d: u64 = match digit_of(chars[i]) {
            Some(d) => d,
            None => {
                return None;
            },
        };
        if d >= radix {
            return None;
        }
        let scaled: u64 = match value.checked_mul(radix) {
            Some(n) => n,
            None => {
                return None;
            },
        };
        value = match scaled.checked_add(d) {
            Some(n) => n,
            None => {
                return None;
            },
        };
        i += 1;
    }
    assert(digits.take(chars.len() - start) =~= digits);
    Some(value)
}

/// Whether a character is white space (the Unicode property White_Space).
pub open spec fn is_space(c: char) -> bool {
    ||| '\u{9}' <= c <= '\u{d}'
    ||| c == ' '
    ||| c == '\u{85}'
    ||| c == '\u{a0}'
    ||| c == '\u{1680}'
    ||| '\u{2000}' <= c <= '\u{200a}'
    ||| c == '\u{2028}'
    ||| c == '\u{2029}'
    ||| c == '\u{202f}'
    ||| c == '\u{205f}'
    ||| c == '\u{3000}'
}

/// Whether a character is white space.
pub fn space(c: char) -> (r: bool)
    ensures
        r == is_space(c),
{
    ('\u{9}' <= c && c <= '\u{d}') || c == ' ' || c == '\u{85}' || c == '\u{a0}' || c == '\u{1680}'
        || ('\u{2000}' <= c && c <= '\u{200a}') || c == '\u{2028}' || c == '\u{2029}' || c
        == '\u{202f}' || c == '\u{205f}' || c == '\u{3000}'
}

/// A text without the white space at its start.
pub open spec fn left_trimmed(s: Seq<char>) -> Seq<char>
    decreases s.len(),
{
    if s.len() > 0 && is_space(s[0]) {
        left_trimmed(s.skip(1))
    } else {
        s
    }
}

/// A text without the white space at its end.
pub open spec fn right_trimmed(s: Seq<char>) -> Seq<char>
    decreases s.len(),
{
    if s.len() > 0 && is_space(s.last()) {
        right_trimmed(s.drop_last())
    } else {
        s
    }
}

/// A text without the white space around it.
pub open spec fn trimmed(s: Seq<char>) -> Seq<char> {
    right_trimmed(left_trimmed(s))
}

/// The part of a text without the white space at its start.
pub fn trim_start(s: &str) -> (r: String)
    ensures
        r@ == left_trimmed(s@),
{
    let chars = chars_of(s);
    let mut i: usize = 0;
    assert(s@.skip(0) =~= s@);
    while i < chars.len() && space(chars[i])
        invariant
            i <= chars.len(),
            chars@ == s@,
            left_trimmed(s@) == left_trimmed(s@.skip(i as int)),
        decreases chars.len() - i,
    {
        assert(s@.skip(i as int).skip(1) =~= s@.skip(i + 1));
        i += 1;
    }
    let r = slice_text(chars.as_slice(), i, chars.len());
    assert(r@ =~= s@.skip(i as int));
    r
}

/// The part of a text without the white space at its end.
pub fn trim_end(s: &str) -> (r: String)
    ensures
        r@ == right_trimmed(s@),
{
    let chars = chars_of(s);
    let mut i: usize = chars.len();
    assert(s@.take(i as int) =~= s@);
    while i > 0 && space(chars[i - 1])
        invariant
            i <= chars.len(),
            chars@ == s@,
            right_trimmed(s@) == right_trimmed(s@.take(i as int)),
        decreases i,
    {
        assert(s@.take(i as int).drop_last() =~= s@.take(i - 1));
        i -= 1;
    }
    let r = slice_text(chars.as_slice(), 0, i);
    assert(r@ =~= s@.take(i as int));
    r
}

/// A text without the white space around it.
pub fn trim(s: &str) -> (r: String)
    ensures
        r@ == trimmed(s@),
{
    trim_end(trim_start(s).as_str())
}

/// The text of a range of characters.
pub fn slice_text(chars: &[char], from: usize, to: usize) -> (s: String)
    requires
        from <= to <= chars@.len(),
    ensures
        s@ == chars@.subrange(from as int, to as int),
{
    let mut s = String::new();
    let mut i: usize = from;
    while i < to
        invariant
            from <= i <= to <= chars@.len(),
            s@ == chars@.subrange(from as int, i as int),
        decreases to - i,
    {
        s.push(chars[i]);
        i += 1;
        assert(chars@.subrange(from as int, i as int) =~= chars@.subrange(
            from as int,
            i - 1,
        ).push(chars@[i - 1]));
    }
    s
}

/// The text between two places of a text, counted in bytes of UTF-8. There is none where a place
/// lies behind the end or inside a character.
pub open spec fn byte_range(s: Seq<char>, from: int, to: int) -> Option<Seq<char>> {
    let bytes = vstd::utf8::encode_utf8(s);
    if 0 <= from <= to <= bytes.len() && vstd::utf8::is_char_boundary(bytes, from)
        && vstd::utf8::is_char_boundary(bytes, to) {
        Some(vstd::utf8::decode_utf8(bytes.subrange(from, to)))
    } else {
        None
    }
}

/// Gives the text between two places of a text, counted in bytes of UTF-8.
pub fn slice_bytes(s: &str, from: usize, to: usize) -> (r: Option<&str>)
    requires
        from <= to,
    ensures
        match (r, byte_range(s@, from as int, to as int)) {
            (Some(part), Some(t)) => part@ == t,
            (None, None) => true,
            _ => false,
        },
{
    let ghost bytes = s.spec_bytes();
    if to > s.as_bytes().len() || !s.is_char_boundary(from) || !s.is_char_boundary(to) {
        return None;
    }
    let (head, _rest) = s.split_at(to);
    proof {
        vstd::utf8::encode_utf8_valid_utf8(s@);
        vstd::utf8::encode_utf8_valid_utf8(head@);
        if from < to {
            vstd::utf8::is_char_boundary_iff_not_is_continuation_byte(bytes, from as int);
            vstd::utf8::is_char_boundary_iff_not_is_continuation_byte(
                head.spec_bytes(),
                from as int,
            );
        } else {
            vstd::utf8::is_char_boundary_start_end_of_seq(head.spec_bytes());
        }
    }
    let (_before, part) = head.split_at(from);
    proof {
        assert(part.spec_bytes() =~= bytes.subrange(from as int, to as int));
        vstd::utf8::encode_utf8_decode_utf8(part@);
    }
    Some(part)
}

/// Whether a text starts with another.
pub open spec fn has_prefix(s: Seq<char>, prefix: Seq<char>) -> bool {
    prefix.len() <= s.len() && s.take(prefix.len() as int) == prefix
}

/// What follows a prefix, of a text that starts with it.
pub fn strip_prefix(s: &str, prefix: &str) -> (r: Option<String>)
    ensures
        r is Some == has_prefix(s@, prefix@),
        r matches Some(rest) ==> rest@ == s@.skip(prefix@.len() as int),
{
    let chars = chars_of(s);
    let wanted = chars_of(prefix);
    if wanted.len() > chars.len() {
        return None;
    }
    let mut i: usize = 0;
    while i < wanted.len()
        invariant
            i <= wanted.len() <= chars.len(),
            chars@ == s@,
            wanted@ == prefix@,
            forall|k: int| 0 <= k < i ==> chars@[k] == wanted@[k],
        decreases wanted.len() - i,
    {
        if chars[i] != wanted[i] {
            assert(s@.take(prefix@.len() as int)[i as int] != prefix@[i as int]);
            return None;
        }
        i += 1;
    }
    assert(s@.take(prefix@.len() as int) =~= prefix@);
    let rest = slice_text(chars.as_slice(), wanted.len(), chars.len());
    assert(rest@ =~= s@.skip(prefix@.len() as int));
    Some(rest)
}

/// Whether a text starts with another.
pub fn starts_with(s: &str, prefix: &str) -> (r: bool)
    ensures
        r == has_prefix(s@, prefix@),
{
    strip_prefix(s, prefix).is_some()
}

/// The pieces of a text between the occurrences of a separator.
pub open spec fn pieces(s: Seq<char>, separator: char) -> Seq<Seq<char>>
    decreases s.len(),
{
    if s.len() == 0 {
        seq![Seq::empty()]
    } else {
        let before = pieces(s.drop_last(), separator);
        if s.last() == separator {
            before.push(Seq::empty())
        } else {
            before.drop_last().push(before.last().push(s.last()))
        }
    }
}

proof fn pieces_nonempty(s: Seq<char>, separator: char)
    ensures
        pieces(s, separator).len() > 0,
    decreases s.len(),
{
    if s.len() > 0 {
        pieces_nonempty(s.drop_last(), separator);
    }
}

/// The views of the texts of a list.
pub open spec fn text_views(items: Seq<String>) -> Seq<Seq<char>> {
    Seq::new(items.len(), |i: int| items[i]@)
}

/// The pieces of a text between the occurrences of a separator.
pub fn split(s: &str, separator: char) -> (r: Vec<String>)
    ensures
        text_views(r@) == pieces(s@, separator),
{
    let chars = chars_of(s);
    let mut done: Vec<String> = Vec::new();
    let mut current = String::new();
    let mut i: usize = 0;
    proof {
        assert(s@.take(0) =~= Seq::<char>::empty());
        assert(text_views(done@).push(current@) =~= pieces(s@.take(0), separator));
    }
    while i < chars.len()
        invariant
            i <= chars.len(),
            chars@ == s@,
            text_views(done@).push(current@) == pieces(s@.take(i as int), separator),
        decreases chars.len() - i,
    {
        let ghost before = pieces(s@.take(i as int), separator);
        let ghost old_done = done@;
        let ghost old_current = current@;
        proof {
            assert(s@.take(i + 1).drop_last() =~= s@.take(i as int));
            assert(s@.take(i + 1).last() == chars@[i as int]);
        }
        if chars[i] == separator {
            done.push(current);
            current = String::new();
            assert(text_views(done@) =~= text_views(old_done).push(old_current));
            assert(text_views(done@).push(current@) =~= before.push(Seq::empty()));
        } else {
            current.push(chars[i]);
            assert(text_views(done@) =~= before.drop_last());
        }
        i += 1;
    }
    assert(s@.take(chars.len() as int) =~= s@);
    let ghost old_done = done@;
    let ghost old_current = current@;
    done.push(current);
    assert(text_views(done@) =~= text_views(old_done).push(old_current));
    done
}

/// The lower-case form of an ASCII capital; other characters stand for themselves.
pub open spec fn lower_char(c: char) -> char {
    if 'A' <= c <= 'Z' {
        (c as int + 32) as char
    } else {
        c
    }
}

/// A text with its ASCII capitals in lower case.
pub open spec fn lowered(s: Seq<char>) -> Seq<char> {
    s.map_values(|c: char| lower_char(c))
}

/// A text with its ASCII capitals in lower case.
pub fn lower(s: &str) -> (r: String)
    ensures
        r@ == lowered(s@),
{
    let chars = chars_of(s);
    let mut r = String::new();
    let mut i: usize = 0;
    while i < chars.len()
        invariant
            i <= chars.len(),
            chars@ == s@,
            r@ == lowered(s@).take(i as int),
        decreases chars.len() - i,
    {
        let c = chars[i];
        let code: u32 = c as u32;
        if 'A' <= c && c <= 'Z' {
            let low: u8 = (code + 32) as u8;
            r.push(low as char);
        } else {
            r.push(c);
        }
        i += 1;
        assert(r@ =~= lowered(s@).take(i as int));
    }
    assert(lowered(s@).take(chars.len() as int) =~= lowered(s@));
    r
}

/// A text with one character put for another.
pub open spec fn replaced(s: Seq<char>, from: char, to: char) -> Seq<char> {
    s.map_values(
        |c: char|
            if c == from {
                to
            } else {
                c
            },
    )
}

/// A text with one character put for another.
pub fn replace(s: &str, from: char, to: char) -> (r: String)
    ensures
        r@ == replaced(s@, from, to),
{
    let chars = chars_of(s);
    let mut r = String::new();
    let mut i: usize = 0;
    while i < chars.len()
        invariant
            i <= chars.len(),
            chars@ == s@,
            r@ == replaced(s@, from, to).take(i as int),
        decreases chars.len() - i,
    {
        if chars[i] == from {
            r.push(to);
        } else {
            r.push(chars[i]);
        }
        i += 1;
        assert(r@ =~= replaced(s@, from, to).take(i as int));
    }
    assert(replaced(s@, from, to).take(chars.len() as int) =~= replaced(s@, from, to));
    r
}

/// The texts one after another, with a separator between them.
pub open spec fn joined(items: Seq<Seq<char>>, separator: Seq<char>) -> Seq<char>
    decreases items.len(),
{
    if items.len() == 0 {
        Seq::empty()
    } else if items.len() == 1 {
        items[0]
    } else {
        (joined(items.drop_last(), separator) + separator) + items.last()
    }
}

/// The texts one after another, with a separator between them.
pub fn join_all(items: &[String], separator: &str) -> (r: String)
    ensures
        r@ == joined(text_views(items@), separator@),
{
    let ghost shown = text_views(items@);
    if items.len() == 0 {
        return String::new();
    }
    let mut r = items[0].clone();
    let mut i: usize = 1;
    assert(shown.take(1) =~= seq![shown[0]]);
    while i < items.len()
        invariant
            1 <= i <= items.len(),
            shown == text_views(items@),
            r@ == joined(shown.take(i as int), separator@),
        decreases items.len() - i,
    {
        proof {
            assert(shown.take(i + 1).drop_last() =~= shown.take(i as int));
            assert(shown.take(i + 1).last() == items@[i as int]@);
        }
        r = join(join(r.as_str(), separator).as_str(), items[i].as_str());
        i += 1;
    }
    assert(shown.take(i as int) =~= shown);
    r
}

/// The number that a signed numeral stands for: an optional sign, then at least one digit.
pub open spec fn signed_value(s: Seq<char>) -> Option<int> {
    if s.len() > 0 && s[0] == '-' {
        if s.len() == 1 {
            None
        } else {
            match digits_value(s.skip(1), 10) {
                Some(n) => Some(-(n as int)),
                None => None,
            }
        }
    } else {
        match unsigned_value(s, 10) {
            Some(n) => Some(n as int),
            None => None,
        }
    }
}

/// The number that fits in 64 bits with a sign and that a numeral stands for.
pub open spec fn i64_value(s: Seq<char>) -> Option<i64> {
    match signed_value(s) {
        Some(n) => if i64::MIN <= n <= i64::MAX {
            Some(n as i64)
        } else {
            None
        },
        None => None,
    }
}

/// Reads a decimal numeral in the way of `i64::from_str`.
pub fn parse_i64(s: &str) -> (r: Option<i64>)
    ensures
        r == i64_value(s@),
{
    let chars = chars_of(s);
    if chars.len() > 0 && chars[0] == '-' {
        if chars.len() == 1 {
            return None;
        }
        assert(s@.subrange(1, s@.len() as int) =~= s@.skip(1));
        if chars[1] == '+' {
            proof {
                no_digits_after_a_sign(s@.skip(1));
            }
            return None;
        }
        let rest = slice_text(chars.as_slice(), 1, chars.len());
        return match parse_u64(rest.as_str(), 10) {
            Some(n) => if n > 0x8000_0000_0000_0000 {
                None
            } else if n == 0x8000_0000_0000_0000 {
                Some(i64::MIN)
            } else {
                Some(-(n as i64))
            },
            None => None,
        };
    }
    match parse_u64(s, 10) {
        Some(n) => if n > 0x7fff_ffff_ffff_ffff {
            None
        } else {
            Some(n as i64)
        },
        None => None,
    }
}

proof fn no_digits_after_a_sign(s: Seq<char>)
    requires
        s.len() > 0,
        s[0] == '+',
    ensures
        digits_value(s, 10) is None,
    decreases s.len(),
{
    if s.len() > 1 {
        no_digits_after_a_sign(s.drop_last());
    }
}

/// The first place of a character in a text.
pub open spec fn first_place(s: Seq<char>, c: char) -> Option<int>
    decreases s.len(),
{
    if s.len() == 0 {
        None
    } else if s[0] == c {
        Some(0)
    } else {
        match first_place(s.drop_first(), c) {
            Some(i) => Some(i + 1),
            None => None,
        }
    }
}

/// What stands before the first occurrence of a character.
pub open spec fn before(s: Seq<char>, c: char) -> Seq<char> {
    match first_place(s, c) {
        Some(i) => s.take(i),
        None => s,
    }
}

/// What stands after the first occurrence of a character.
pub open spec fn after(s: Seq<char>, c: char) -> Seq<char> {
    match first_place(s, c) {
        Some(i) => s.skip(i + 1),
        None => Seq::empty(),
    }
}

proof fn place_is_first(s: Seq<char>, c: char, i: int)
    requires
        0 <= i <= s.len(),
        forall|k: int| 0 <= k < i ==> s[k] != c,
    ensures
        first_place(s, c) == (match first_place(s.skip(i), c) {
            Some(k) => Some(k + i),
            None => None,
        }),
    decreases i,
{
    if i == 0 {
        assert(s.skip(0) =~= s);
    } else {
        place_is_first(s.drop_first(), c, i - 1);
        assert(s.drop_first().skip(i - 1) =~= s.skip(i));
    }
}

/// The first place of a character holds it, and no place before it does.
pub proof fn first_place_holds(s: Seq<char>, c: char)
    ensures
        match first_place(s, c) {
            Some(i) => 0 <= i < s.len() && s[i] == c && forall|k: int| 0 <= k < i ==> s[k] != c,
            None => forall|k: int| 0 <= k < s.len() ==> s[k] != c,
        },
    decreases s.len(),
{
    if s.len() > 0 && s[0] != c {
        let rest = s.drop_first();
        first_place_holds(rest, c);
        assert forall|k: int| 0 < k < s.len() implies s[k] == rest[k - 1] by {}
    }
}

/// A text cut at the first occurrence of a character.
pub open spec fn halves(s: Seq<char>, c: char) -> Option<(Seq<char>, Seq<char>)> {
    match first_place(s, c) {
        Some(i) => Some((s.take(i), s.skip(i + 1))),
        None => None,
    }
}

/// Cuts a text at the first occurrence of a character, where there is one.
pub fn split_once(s: &str, c: char) -> (r: Option<(String, String)>)
    ensures
        r is Some == halves(s@, c) is Some,
        r matches Some(cut) ==> (cut.0@, cut.1@) == halves(s@, c)->0,
{
    let chars = chars_of(s);
    let mut i: usize = 0;
    while i < chars.len()
        invariant
            i <= chars.len(),
            chars@ == s@,
            forall|k: int| 0 <= k < i ==> s@[k] != c,
        decreases chars.len() - i,
    {
        if chars[i] == c {
            proof {
                place_is_first(s@, c, i as int);
                assert(s@.skip(i as int)[0] == c);
                assert(s@.subrange(0, i as int) =~= s@.take(i as int));
                assert(s@.subrange(i + 1, s@.len() as int) =~= s@.skip(i + 1));
            }
            return Some(
                (
                    slice_text(chars.as_slice(), 0, i),
                    slice_text(chars.as_slice(), i + 1, chars.len()),
                ),
            );
        }
        i += 1;
    }
    proof {
        place_is_first(s@, c, i as int);
        assert(s@.skip(i as int) =~= Seq::empty());
    }
    None
}

/// Cuts a text at the first occurrence of a character.
pub fn cut(s: &str, c: char) -> (r: (String, String))
    ensures
        r.0@ == before(s@, c),
        r.1@ == after(s@, c),
{
    match split_once(s, c) {
        Some(halves) => halves,
        None => (s.to_owned(), String::new()),
    }
}

/// The words of a text: the longest pieces without white space.
pub open spec fn words(s: Seq<char>) -> Seq<Seq<char>>
    decreases s.len(),
{
    if s.len() == 0 {
        Seq::empty()
    } else {
        let earlier = words(s.drop_last());
        if is_space(s.last()) {
            earlier
        } else if s.len() == 1 || is_space(s[s.len() - 2]) {
            earlier.push(seq![s.last()])
        } else {
            earlier.drop_last().push(earlier.last().push(s.last()))
        }
    }
}

/// The words of a text.
pub fn split_words(s: &str) -> (r: Vec<String>)
    ensures
        text_views(r@) == words(s@),
{
    let chars = chars_of(s);
    let mut done: Vec<String> = Vec::new();
    let mut current = String::new();
    let mut inside = false;
    let mut i: usize = 0;
    assert(text_views(done@) =~= words(s@.take(0)));
    while i < chars.len()
        invariant
            i <= chars.len(),
            chars@ == s@,
            inside == (i > 0 && !is_space(s@[i - 1])),
            words(s@.take(i as int)) == (if inside {
                text_views(done@).push(current@)
            } else {
                text_views(done@)
            }),
        decreases chars.len() - i,
    {
        let c = chars[i];
        let ghost was = text_views(done@);
        let ghost open = current@;
        proof {
            assert(s@.take(i + 1).drop_last() =~= s@.take(i as int));
            assert(s@.take(i + 1).last() == c);
            if i > 0 {
                assert(s@.take(i + 1)[i - 1] == s@[i - 1]);
            }
        }
        if space(c) {
            if inside {
                done.push(current);
                current = String::new();
                assert(text_views(done@) =~= was.push(open));
            }
            inside = false;
        } else if inside {
            current.push(c);
            assert(was.push(open).drop_last() =~= was);
        } else {
            current = String::new();
            current.push(c);
            assert(current@ =~= seq![c]);
            inside = true;
        }
        i += 1;
    }
    assert(s@.take(i as int) =~= s@);
    if inside {
        let ghost was = text_views(done@);
        let ghost open = current@;
        done.push(current);
        assert(text_views(done@) =~= was.push(open));
    }
    done
}

} // verus!
