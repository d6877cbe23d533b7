//! What the readings and writings of texts promise of each other.

use vstd::prelude::*;
use crate::text;

verus! {

/// Whether a character is one of those that numerals are written with.
pub open spec fn is_numeral_char(c: char) -> bool {
    '0' <= c <= '9' || 'a' <= c <= 'z'
}

/// A numeral that is written is read back as its number. It is written with digits and lower-case
/// letters, and begins with a zero only where it is the zero.
pub proof fn numerals_are_read_back(n: nat, radix: nat)
    requires
        2 <= radix <= 36,
    ensures
        text::numeral(n, radix).len() > 0,
        text::digits_value(text::numeral(n, radix), radix) == Some(n),
        forall|i: int|
            0 <= i < text::numeral(n, radix).len() ==> is_numeral_char(
                #[trigger] text::numeral(n, radix)[i],
            ),
        text::numeral(n, radix)[0] == '0' ==> n == 0,
    decreases n,
{
    let all = text::numeral(n, radix);
    reveal_with_fuel(text::digits_value, 2);
    if n < radix {
        assert(all.drop_last() =~= Seq::empty());
        assert(all.last() == text::digit_char(n as int));
        assert(text::digits_value(all.drop_last(), radix) == Some(0nat));
        assert(text::digit_value(all.last()) == Some(n));
        assert(0 * radix + n == n) by (nonlinear_arith);
    } else {
        let high = n / radix;
        let low = n % radix;
        assert(high < n) by (nonlinear_arith)
            requires
                n >= radix,
                radix >= 2,
                high == n / radix,
        ;
        assert(high > 0) by (nonlinear_arith)
            requires
                n >= radix,
                radix >= 2,
                high == n / radix,
        ;
        assert(high * radix + low == n) by (nonlinear_arith)
            requires
                radix >= 2,
                high == n / radix,
                low == n % radix,
        ;
        assert(0 <= low < radix) by (nonlinear_arith)
            requires
                radix >= 2,
                low == n % radix,
        ;
        numerals_are_read_back(high, radix);
        let front = text::numeral(high, radix);
        assert(all.drop_last() =~= front);
        assert(all.last() == text::digit_char(low as int));
        assert(text::digit_value(all.last()) == Some(low));
        assert(text::digits_value(all.drop_last(), radix) == Some(high));
        assert forall|i: int| 0 <= i < all.len() implies is_numeral_char(#[trigger] all[i]) by {
            if i < front.len() {
                assert(all[i] == front[i]);
            }
        }
        assert(all[0] == front[0]);
    }
}

/// Numbers that differ have decimal numerals that differ, and so have hexadecimal ones.
pub proof fn numerals_tell_numbers_apart(a: nat, b: nat)
    requires
        a != b,
    ensures
        text::decimal(a as int) != text::decimal(b as int),
        text::hexadecimal(a) != text::hexadecimal(b),
{
    numerals_are_read_back(a, 10);
    numerals_are_read_back(b, 10);
    numerals_are_read_back(a, 16);
    numerals_are_read_back(b, 16);
}

/// A number that fits in 64 bits is read back from its decimal and from its hexadecimal numeral.
pub proof fn written_numbers_are_read_back(n: u64)
    ensures
        text::u64_value(text::decimal(n as int), 10) == Some(n),
        text::u64_value(text::hexadecimal(n as nat), 16) == Some(n),
{
    numerals_are_read_back(n as nat, 10);
    numerals_are_read_back(n as nat, 16);
    assert(is_numeral_char(text::numeral(n as nat, 10)[0]));
    assert(is_numeral_char(text::numeral(n as nat, 16)[0]));
}

/// Pieces put behind each other, with the separator between them.
pub open spec fn rejoined(pieces: Seq<Seq<char>>, separator: char) -> Seq<char>
    decreases pieces.len(),
{
    if pieces.len() == 0 {
        Seq::empty()
    } else if pieces.len() == 1 {
        pieces[0]
    } else {
        rejoined(pieces.drop_last(), separator).push(separator) + pieces.last()
    }
}

proof fn last_piece_grows(pieces: Seq<Seq<char>>, separator: char, c: char)
    requires
        pieces.len() > 0,
    ensures
        rejoined(pieces.drop_last().push(pieces.last().push(c)), separator) == rejoined(
            pieces,
            separator,
        ).push(c),
{
    let grown = pieces.drop_last().push(pieces.last().push(c));
    assert(grown.drop_last() =~= pieces.drop_last());
    if pieces.len() > 1 {
        let front = rejoined(pieces.drop_last(), separator).push(separator);
        assert(front + pieces.last().push(c) =~= (front + pieces.last()).push(c));
    } else {
        assert(grown[0] =~= pieces[0].push(c));
    }
}

/// The pieces of a text make up the text again, with the separator between them, and the separator
/// stands in none of them.
pub proof fn pieces_make_up_the_text(s: Seq<char>, separator: char)
    ensures
        text::pieces(s, separator).len() > 0,
        rejoined(text::pieces(s, separator), separator) == s,
        forall|i: int, k: int|
            0 <= i < text::pieces(s, separator).len() && 0 <= k < text::pieces(
                s,
                separator,
            )[i].len() ==> #[trigger] text::pieces(s, separator)[i][k] != separator,
    decreases s.len(),
{
    let all = text::pieces(s, separator);
    if s.len() == 0 {
        assert(all[0].len() == 0);
        assert(rejoined(all, separator) =~= s);
    } else {
        let front = s.drop_last();
        let before = text::pieces(front, separator);
        pieces_make_up_the_text(front, separator);
        if s.last() == separator {
            assert(all.drop_last() =~= before);
            assert(rejoined(all, separator) =~= front.push(separator));
            assert forall|i: int, k: int| 0 <= i < all.len() && 0 <= k < all[i].len() implies #[trigger] all[i][k]
                != separator by {
                assert(all[i] == before[i]);
            }
        } else {
            last_piece_grows(before, separator, s.last());
            assert forall|i: int, k: int| 0 <= i < all.len() && 0 <= k < all[i].len() implies #[trigger] all[i][k]
                != separator by {
                if i < before.len() - 1 {
                    assert(all[i] == before[i]);
                } else {
                    assert(all[i] == before.last().push(s.last()));
                    if k < before.last().len() {
                        assert(all[i][k] == before[i][k]);
                    }
                }
            }
        }
        assert(s =~= front.push(s.last()));
    }
}

/// A text that is trimmed at its end keeps its characters up to the last that is no white space.
pub proof fn trimming_takes_the_white_space(s: Seq<char>)
    ensures
        text::right_trimmed(s).len() <= s.len(),
        text::right_trimmed(s) == s.take(text::right_trimmed(s).len() as int),
        text::right_trimmed(s).len() > 0 ==> !text::is_space(text::right_trimmed(s).last()),
        forall|i: int|
            text::right_trimmed(s).len() <= i < s.len() ==> text::is_space(#[trigger] s[i]),
    decreases s.len(),
{
    if s.len() > 0 && text::is_space(s.last()) {
        let front = s.drop_last();
        trimming_takes_the_white_space(front);
        let kept = text::right_trimmed(s).len() as int;
        assert(front.take(kept) =~= s.take(kept));
        assert forall|i: int| kept <= i < s.len() implies text::is_space(#[trigger] s[i]) by {
            if i < front.len() {
                assert(front[i] == s[i]);
            }
        }
    } else {
        assert(s.take(s.len() as int) =~= s);
    }
}

/// A text that is cut at a character is what stands before its first occurrence, the character, and
/// what stands behind it; a text without the character is not cut.
pub proof fn halves_make_up_the_text(s: Seq<char>, c: char)
    ensures
        match text::halves(s, c) {
            Some((a, b)) => s == a.push(c) + b && forall|i: int| 0 <= i < a.len() ==> a[i] != c,
            None => forall|i: int| 0 <= i < s.len() ==> s[i] != c,
        },
{
    text::first_place_holds(s, c);
    if let Some(i) = text::first_place(s, c) {
        assert(s =~= s.take(i).push(c) + s.skip(i + 1));
    }
}

/// A text in lower case is as long as it was, has no ASCII capital, and differs only where one stood.
pub proof fn lowering_changes_capitals_alone(s: Seq<char>, i: int)
    requires
        0 <= i < s.len(),
    ensures
        text::lowered(s).len() == s.len(),
        !('A' <= text::lowered(s)[i] <= 'Z'),
        !('A' <= s[i] <= 'Z') ==> text::lowered(s)[i] == s[i],
        'A' <= s[i] <= 'Z' ==> text::lowered(s)[i] as int == s[i] as int + 32,
{
}

} // verus!
