//! What holds of texts, numbers and sizes.
use crate::size::{double_step, format_bytes, nearest_double, round_half_even, tenths_of_unit};
use crate::text::{
    begins_with, chars_of, decimal, decimal_text, is_line_end, is_text_held, is_text_le,
    is_white_space, same_text, text_le, text_of, trimmed, without_ends, without_leading,
    without_line_ends, without_trailing,
};
use vstd::prelude::*;
use vstd::string::*;

verus! {

// ---------------------------------------------------------------------------------------------
// Decimal numbers
// ---------------------------------------------------------------------------------------------

/// The number that a text of digits is read as.
pub open spec fn number_read(text: Seq<char>) -> int
    decreases text.len(),
{
    if text.len() == 0 {
        0
    } else {
        10 * number_read(text.drop_last()) + (text.last() as int - '0' as int)
    }
}

/// Whether a text is a decimal number without leading zeros.
pub open spec fn is_decimal(text: Seq<char>) -> bool {
    &&& text.len() > 0
    &&& forall|i: int| 0 <= i < text.len() ==> '0' <= #[trigger] text[i] <= '9'
    &&& text.len() > 1 ==> text[0] != '0'
}

pub proof fn lemma_decimal_reads_back(n: nat)
    ensures
        is_decimal(decimal_text(n)),
        number_read(decimal_text(n)) == n,
        n > 0 ==> decimal_text(n)[0] != '0',
    decreases n,
{
    let text = decimal_text(n);
    let digit: nat = n % 10;
    if n < 10 {
        assert(text.drop_last() =~= Seq::<char>::empty());
        reveal_with_fuel(number_read, 2);
    } else {
        lemma_decimal_reads_back(n / 10);
        assert(text.drop_last() =~= decimal_text(n / 10));
    }
}

/// A number is told by digits that are read back as the number, without leading zeros.
pub proof fn numbers_read_back(n: u64, text: String)
    requires
        call_ensures(decimal, (n,), text),
    ensures
        is_decimal(text@),
        number_read(text@) == n,
{
    lemma_decimal_reads_back(n as nat);
}

// ---------------------------------------------------------------------------------------------
// Order and search
// ---------------------------------------------------------------------------------------------

/// Whether two texts are alike up to a place where the first has the lesser character, or the
/// first has none.
pub open spec fn is_lesser_at(a: Seq<char>, b: Seq<char>, place: int) -> bool {
    &&& 0 <= place <= a.len()
    &&& place <= b.len()
    &&& a.take(place) == b.take(place)
    &&& place == a.len() || (place < b.len() && (a[place] as int) < (b[place] as int))
}

pub proof fn lemma_text_order(a: Seq<char>, b: Seq<char>)
    ensures
        text_le(a, b) <==> exists|place: int| #[trigger] is_lesser_at(a, b, place),
    decreases a.len(),
{
    if a.len() == 0 {
        assert(a.take(0) =~= b.take(0));
        assert(is_lesser_at(a, b, 0));
    } else if b.len() > 0 && a[0] == b[0] {
        let c = a.drop_first();
        let d = b.drop_first();
        lemma_text_order(c, d);
        if text_le(c, d) {
            let place = choose|place: int| #[trigger] is_lesser_at(c, d, place);
            assert(a.take(place + 1) =~= seq![a[0]] + c.take(place));
            assert(b.take(place + 1) =~= seq![b[0]] + d.take(place));
            assert(is_lesser_at(a, b, place + 1));
        }
        if exists|place: int| #[trigger] is_lesser_at(a, b, place) {
            let place = choose|place: int| #[trigger] is_lesser_at(a, b, place);
            assert(place > 0);
            assert(c.take(place - 1) =~= a.take(place).drop_first());
            assert(d.take(place - 1) =~= b.take(place).drop_first());
            assert(is_lesser_at(c, d, place - 1));
        }
    } else {
        if text_le(a, b) {
            assert(a.take(0) =~= b.take(0));
            assert(is_lesser_at(a, b, 0));
        }
        if exists|place: int| #[trigger] is_lesser_at(a, b, place) {
            let place = choose|place: int| #[trigger] is_lesser_at(a, b, place);
            if place > 0 {
                assert(a.take(place)[0] == b.take(place)[0]);
            }
        }
    }
}

/// Texts are ordered by the first place where they differ, and a text stands in front of what
/// continues it.
pub proof fn texts_are_ordered_by_their_first_difference(a: &Vec<char>, b: &Vec<char>, res: bool)
    requires
        call_ensures(is_text_le, (a, b), res),
    ensures
        res <==> exists|place: int| #[trigger] is_lesser_at(a@, b@, place),
{
    lemma_text_order(a@, b@);
}

/// Whether a text is another one with something in front of it and something behind it.
pub open spec fn is_around(
    text: Seq<char>,
    front: Seq<char>,
    part: Seq<char>,
    back: Seq<char>,
) -> bool {
    text == front + part + back
}

/// A text holds just those texts that it is, with something in front and something behind.
pub proof fn held_texts_have_a_front_and_a_back(text: &Vec<char>, part: &Vec<char>, res: bool)
    requires
        call_ensures(is_text_held, (text, part), res),
    ensures
        res <==> exists|front: Seq<char>, back: Seq<char>| #[trigger]
            is_around(text@, front, part@, back),
{
    if res {
        let at = choose|at: int|
            0 <= at <= text@.len() - part@.len() && #[trigger] text@.subrange(
                at,
                at + part@.len(),
            ) == part@;
        let front = text@.take(at);
        let back = text@.skip(at + part@.len());
        assert(text@ =~= front + part@ + back);
        assert(is_around(text@, front, part@, back));
    }
    if exists|front: Seq<char>, back: Seq<char>| #[trigger]
        is_around(text@, front, part@, back) {
        let (front, back) = choose|front: Seq<char>, back: Seq<char>| #[trigger]
            is_around(text@, front, part@, back);
        let at = front.len() as int;
        assert(text@.subrange(at, at + part@.len()) =~= part@);
    }
}

// ---------------------------------------------------------------------------------------------
// Line ends
// ---------------------------------------------------------------------------------------------

/// Whether a text is nothing but line feeds and carriage returns.
pub open spec fn is_line_ends(text: Seq<char>) -> bool {
    forall|i: int| 0 <= i < text.len() ==> #[trigger] text[i] == '\n' || text[i] == '\r'
}

/// Whether a text neither begins nor ends with a line feed or a carriage return.
pub open spec fn is_bare(text: Seq<char>) -> bool {
    text.len() > 0 ==> text.first() != '\n' && text.first() != '\r' && text.last() != '\n'
        && text.last() != '\r'
}

proof fn lemma_leading_line_ends(s: Seq<char>)
    ensures
        ({
            let rest = without_leading(s, |c: char| is_line_end(c));
            &&& rest.len() <= s.len()
            &&& s.skip(s.len() - rest.len()) == rest
            &&& is_line_ends(s.take(s.len() - rest.len()))
            &&& rest.len() > 0 ==> rest.first() != '\n' && rest.first() != '\r'
        }),
    decreases s.len(),
{
    let drop = |c: char| is_line_end(c);
    let rest = without_leading(s, drop);
    if s.len() > 0 && drop(s.first()) {
        let tail = s.drop_first();
        lemma_leading_line_ends(tail);
        assert(s.skip(s.len() - rest.len()) =~= tail.skip(tail.len() - rest.len()));
        assert(s.take(s.len() - rest.len()) =~= seq![s[0]] + tail.take(tail.len() - rest.len()));
    } else {
        assert(s.skip(0) =~= s);
    }
}

proof fn lemma_trailing_line_ends(s: Seq<char>)
    ensures
        ({
            let rest = without_trailing(s, |c: char| is_line_end(c));
            &&& rest.len() <= s.len()
            &&& s.take(rest.len() as int) == rest
            &&& is_line_ends(s.skip(rest.len() as int))
            &&& rest.len() > 0 ==> rest.last() != '\n' && rest.last() != '\r'
        }),
    decreases s.len(),
{
    let drop = |c: char| is_line_end(c);
    let rest = without_trailing(s, drop);
    if s.len() > 0 && drop(s.last()) {
        let front = s.drop_last();
        lemma_trailing_line_ends(front);
        assert(s.take(rest.len() as int) =~= front.take(rest.len() as int));
        assert(s.skip(rest.len() as int) =~= front.skip(rest.len() as int).push(s.last()));
    } else {
        assert(s.take(s.len() as int) =~= s);
    }
}

/// What is left of a text without the line ends around it.
pub open spec fn is_bare_part(
    text: Seq<char>,
    front: Seq<char>,
    part: Seq<char>,
    back: Seq<char>,
) -> bool {
    &&& text == front + part + back
    &&& is_line_ends(front)
    &&& is_bare(part)
    &&& is_line_ends(back)
}

pub proof fn lemma_bare_part(text: Seq<char>, part: Seq<char>)
    requires
        part == without_ends(text, |c: char| is_line_end(c)),
    ensures
        exists|front: Seq<char>, back: Seq<char>| #[trigger] is_bare_part(text, front, part, back),
{
    let drop = |c: char| is_line_end(c);
    let inner = without_leading(text, drop);
    lemma_leading_line_ends(text);
    lemma_trailing_line_ends(inner);
    let front = text.take(text.len() - inner.len());
    let back = inner.skip(part.len() as int);
    assert(inner =~= part + back);
    assert(text =~= front + part + back);
    if part.len() > 0 {
        assert(part.first() == inner.first());
    }
    assert(is_bare_part(text, front, part, back));
}

/// Just the line feeds and carriage returns around a text are taken off, and none inside.
pub proof fn only_line_ends_are_taken_off(text: &str, res: String)
    requires
        call_ensures(without_line_ends, (text,), res),
    ensures
        exists|front: Seq<char>, back: Seq<char>| #[trigger]
            is_bare_part(text@, front, res@, back),
{
    lemma_bare_part(text@, res@);
}

// ---------------------------------------------------------------------------------------------
// Sizes
// ---------------------------------------------------------------------------------------------

/// The bytes of a unit and what it is called, by how far a size of one KiB or more reaches.
pub open spec fn is_unit_for(bytes: u64, unit: int, called: Seq<char>) -> bool {
    ||| 1024 <= bytes < 1024 * 1024 && unit == 1024 && called == "KiB"@
    ||| 1024 * 1024 <= bytes < 1024 * 1024 * 1024 && unit == 1024 * 1024 && called == "MiB"@
    ||| 1024 * 1024 * 1024 <= bytes < 1024 * 1024 * 1024 * 1024 && unit == 1024 * 1024 * 1024
        && called == "GiB"@
    ||| 1024 * 1024 * 1024 * 1024 <= bytes && unit == 1024 * 1024 * 1024 * 1024 && called
        == "TiB"@
}

/// Whether a text tells a number of tenths of a unit.
pub open spec fn tells_tenths(
    text: Seq<char>,
    whole: Seq<char>,
    tenth: Seq<char>,
    called: Seq<char>,
) -> bool {
    &&& text == whole + "."@ + tenth + " "@ + called
    &&& is_decimal(whole)
    &&& is_decimal(tenth)
    &&& tenth.len() == 1
}

/// Sizes below one KiB are told in bytes.
pub proof fn small_sizes_are_told_in_bytes(bytes: u64, text: String)
    requires
        bytes < 1024,
        call_ensures(format_bytes, (bytes,), text),
    ensures
        exists|number: Seq<char>|
            is_decimal(number) && #[trigger] number_read(number) == bytes && text@ == number
                + " B"@,
{
    let number = decimal_text(bytes as nat);
    lemma_decimal_reads_back(bytes as nat);
    reveal_strlit(" B");
    reveal_strlit(" ");
    reveal_strlit("B");
    assert(number + " "@ + "B"@ =~= number + " B"@);
}

proof fn lemma_rounded(a: nat, b: nat)
    requires
        b > 0,
    ensures
        -(b as int) <= 2 * (round_half_even(a, b) * b - a) <= b,
        2 * (round_half_even(a, b) * b - a) == b || 2 * (round_half_even(a, b) * b - a) == -(
        b as int) ==> round_half_even(a, b) % 2 == 0,
{
    let quotient = a / b;
    let rest = a % b;
    assert(a == quotient * b + rest && 0 <= rest < b) by (nonlinear_arith)
        requires
            b > 0,
            quotient == a / b,
            rest == a % b,
    ;
    assert((quotient + 1) * b == quotient * b + b) by (nonlinear_arith);
}

proof fn lemma_exact_double(bytes: u64)
    requires
        bytes < 0x20_0000_0000_0000,
    ensures
        nearest_double(bytes as nat) == bytes,
{
    assert(double_step(bytes as nat, 1) == 1);
    let whole = round_half_even(bytes as nat, 1);
    assert(whole == bytes);
    assert(whole * 1 == whole) by (nonlinear_arith);
}

/// Sizes from one KiB on, as far as a double holds them exactly, are told in the largest unit that
/// they reach, to the nearest tenth of it, and to the even one of two that are as near.
pub proof fn larger_sizes_are_told_to_a_tenth(bytes: u64, text: String)
    requires
        1024 <= bytes < 0x20_0000_0000_0000,
        call_ensures(format_bytes, (bytes,), text),
    ensures
        exists|whole: Seq<char>, tenth: Seq<char>, called: Seq<char>, unit: int|
            {
                let off = (10 * number_read(whole) + number_read(tenth)) * unit - 10 * bytes;
                &&& #[trigger] tells_tenths(text@, whole, tenth, called)
                &&& #[trigger] is_unit_for(bytes, unit, called)
                &&& -unit <= 2 * off <= unit
                &&& 2 * off == unit || 2 * off == -unit ==> number_read(tenth) % 2 == 0
            },
{
    let tenths = tenths_of_unit(bytes);
    let whole = decimal_text(tenths / 10);
    let tenth = decimal_text(tenths % 10);
    lemma_decimal_reads_back(tenths / 10);
    lemma_decimal_reads_back(tenths % 10);
    lemma_exact_double(bytes);
    let (unit, called): (int, Seq<char>) = if bytes < 1024 * 1024 {
        (1024, "KiB"@)
    } else if bytes < 1024 * 1024 * 1024 {
        (0x10_0000, "MiB"@)
    } else if bytes < 1024 * 1024 * 1024 * 1024 {
        (0x4000_0000, "GiB"@)
    } else {
        (0x100_0000_0000, "TiB"@)
    };
    lemma_rounded((10 * bytes) as nat, unit as nat);
    assert(tenths == round_half_even((10 * bytes) as nat, unit as nat));
    assert(10 * number_read(whole) + number_read(tenth) == tenths);
    assert(is_unit_for(bytes, unit, called));
    assert(tells_tenths(text@, whole, tenth, called));
}

/// The step between doubles at the size of `bytes`, from 2^53 on.
pub open spec fn is_step_for(bytes: u64, step: int) -> bool {
    &&& step == 2 || step == 4 || step == 8 || step == 16 || step == 32 || step == 64 || step
        == 128 || step == 256 || step == 512 || step == 1024 || step == 2048
    &&& 0x10_0000_0000_0000 * step <= bytes < 0x20_0000_0000_0000 * step
}

proof fn lemma_step(bytes: u64)
    requires
        bytes >= 0x20_0000_0000_0000,
    ensures
        is_step_for(bytes, double_step(bytes as nat, 1) as int),
{
    reveal_with_fuel(double_step, 13);
}

/// Whether a double is nearest to a size, and the even one of two that are as near.
pub open spec fn is_nearest_double(bytes: u64, step: int, times: int) -> bool {
    let off = times * step - bytes;
    &&& is_step_for(bytes, step)
    &&& -step <= 2 * off <= step
    &&& 2 * off == step || 2 * off == -step ==> times % 2 == 0
}

/// Sizes that a double does not hold exactly are told as the nearest double is, in TiB and to the
/// nearest tenth.
pub proof fn huge_sizes_are_told_through_a_double(bytes: u64, text: String)
    requires
        bytes >= 0x20_0000_0000_0000,
        call_ensures(format_bytes, (bytes,), text),
    ensures
        exists|whole: Seq<char>, tenth: Seq<char>, step: int, times: int|
            {
                let unit = 1024 * 1024 * 1024 * 1024;
                let off = (10 * number_read(whole) + number_read(tenth)) * unit - 10 * (times
                    * step);
                &&& #[trigger] tells_tenths(text@, whole, tenth, "TiB"@)
                &&& #[trigger] is_nearest_double(bytes, step, times)
                &&& -unit <= 2 * off <= unit
                &&& 2 * off == unit || 2 * off == -unit ==> number_read(tenth) % 2 == 0
            },
{
    let step = double_step(bytes as nat, 1);
    let times = round_half_even(bytes as nat, step);
    let tenths = tenths_of_unit(bytes);
    let whole = decimal_text(tenths / 10);
    let tenth = decimal_text(tenths % 10);
    lemma_step(bytes);
    lemma_rounded(bytes as nat, step);
    lemma_decimal_reads_back(tenths / 10);
    lemma_decimal_reads_back(tenths % 10);
    lemma_rounded(10 * nearest_double(bytes as nat), 0x100_0000_0000);
    assert(is_nearest_double(bytes, step as int, times as int));
    assert(10 * number_read(whole) + number_read(tenth) == tenths);
    assert(tells_tenths(text@, whole, tenth, "TiB"@));
}

// ---------------------------------------------------------------------------------------------
// Characters
// ---------------------------------------------------------------------------------------------

/// Two texts are the same just where they have as many characters, and the same ones.
pub proof fn the_same_texts_have_the_same_characters(a: &str, b: &str, same: bool)
    requires
        call_ensures(same_text, (a, b), same),
    ensures
        same <==> a@.len() == b@.len() && forall|i: int|
            0 <= i < a@.len() ==> #[trigger] a@[i] == b@[i],
{
    if a@.len() == b@.len() && forall|i: int| 0 <= i < a@.len() ==> #[trigger] a@[i] == b@[i] {
        assert(a@ =~= b@);
    }
}

/// A text begins with another just where its first characters are those of the other.
pub proof fn texts_begin_with_their_first_characters(text: &str, prefix: &str, res: bool)
    requires
        call_ensures(begins_with, (text, prefix), res),
    ensures
        res <==> prefix@.len() <= text@.len() && forall|i: int|
            0 <= i < prefix@.len() ==> #[trigger] prefix@[i] == text@[i],
{
    if res {
        assert forall|i: int| 0 <= i < prefix@.len() implies #[trigger] prefix@[i] == text@[i] by {
            assert(text@.subrange(0, prefix@.len() as int)[i] == prefix@[i]);
        }
    } else if prefix@.len() <= text@.len() && forall|i: int|
        0 <= i < prefix@.len() ==> #[trigger] prefix@[i] == text@[i] {
        assert(text@.subrange(0, prefix@.len() as int) =~= prefix@);
    }
}

/// Texts and their characters stand for each other.
pub proof fn characters_make_their_text(text: &str, chars: Vec<char>, again: String, to: usize)
    requires
        call_ensures(chars_of, (text,), chars),
        to == chars@.len(),
        call_ensures(text_of, (&chars, 0usize, to), again),
    ensures
        chars@ == text@,
        again@ == text@,
{
    assert(chars@.subrange(0, to as int) =~= chars@);
}

/// Whether a text is nothing but white space.
pub open spec fn is_blank(text: Seq<char>) -> bool {
    forall|i: int| 0 <= i < text.len() ==> is_white_space(#[trigger] text[i])
}

/// Whether a text is a part with white space around it, and the part neither begins nor ends with
/// any.
pub open spec fn is_trimmed_part(
    text: Seq<char>,
    front: Seq<char>,
    part: Seq<char>,
    back: Seq<char>,
) -> bool {
    &&& text == front + part + back
    &&& is_blank(front)
    &&& is_blank(back)
    &&& part.len() > 0 ==> !is_white_space(part.first()) && !is_white_space(part.last())
}

proof fn lemma_trimmed_front(s: Seq<char>)
    ensures
        ({
            let rest = without_leading(s, |c: char| is_white_space(c));
            &&& rest.len() <= s.len()
            &&& s.skip(s.len() - rest.len()) == rest
            &&& is_blank(s.take(s.len() - rest.len()))
            &&& rest.len() > 0 ==> !is_white_space(rest.first())
        }),
    decreases s.len(),
{
    let drop = |c: char| is_white_space(c);
    let rest = without_leading(s, drop);
    if s.len() > 0 && drop(s.first()) {
        let tail = s.drop_first();
        lemma_trimmed_front(tail);
        assert(s.skip(s.len() - rest.len()) =~= tail.skip(tail.len() - rest.len()));
        assert(s.take(s.len() - rest.len()) =~= seq![s[0]] + tail.take(tail.len() - rest.len()));
    } else {
        assert(s.skip(0) =~= s);
    }
}

proof fn lemma_trimmed_back(s: Seq<char>)
    ensures
        ({
            let rest = without_trailing(s, |c: char| is_white_space(c));
            &&& rest.len() <= s.len()
            &&& s.take(rest.len() as int) == rest
            &&& is_blank(s.skip(rest.len() as int))
            &&& rest.len() > 0 ==> !is_white_space(rest.last())
        }),
    decreases s.len(),
{
    let drop = |c: char| is_white_space(c);
    let rest = without_trailing(s, drop);
    if s.len() > 0 && drop(s.last()) {
        let front = s.drop_last();
        lemma_trimmed_back(front);
        assert(s.take(rest.len() as int) =~= front.take(rest.len() as int));
        assert(s.skip(rest.len() as int) =~= front.skip(rest.len() as int).push(s.last()));
    } else {
        assert(s.take(s.len() as int) =~= s);
    }
}

/// Trimming takes the white space around a text off, and none inside.
pub proof fn trimming_takes_white_space_off(text: Seq<char>)
    ensures
        exists|front: Seq<char>, back: Seq<char>| #[trigger]
            is_trimmed_part(text, front, trimmed(text), back),
{
    let drop = |c: char| is_white_space(c);
    let inner = without_leading(text, drop);
    let part = trimmed(text);
    lemma_trimmed_front(text);
    lemma_trimmed_back(inner);
    let front = text.take(text.len() - inner.len());
    let back = inner.skip(part.len() as int);
    assert(inner =~= part + back);
    assert(text =~= front + part + back);
    if part.len() > 0 {
        assert(part.first() == inner.first());
    }
    assert(is_trimmed_part(text, front, part, back));
}

} // verus!
