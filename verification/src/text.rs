//! Strings as sequences of characters: trimming, case folding, prefixes and decimal numbers.
use vstd::prelude::*;
use vstd::string::*;
use vstd::utf8::encode_utf8;

verus! {

// ---------------------------------------------------------------------------------------------
// White space
// ---------------------------------------------------------------------------------------------

/// The characters with the Unicode property `White_Space`.
pub open spec fn is_white_space(c: char) -> bool {
    ||| '\u{9}' <= c <= '\u{d}'
    ||| c == '\u{20}'
    ||| c == '\u{85}'
    ||| c == '\u{a0}'
    ||| c == '\u{1680}'
    ||| '\u{2000}' <= c <= '\u{200a}'
    ||| c == '\u{2028}'
    ||| c == '\u{2029}'
    ||| c == '\u{202f}'
    ||| c == '\u{205f}'
    ||| c == '\u{3000}'
}

/// `s` without the characters in front that satisfy `drop`.
pub open spec fn without_leading(s: Seq<char>, drop: spec_fn(char) -> bool) -> Seq<char>
    decreases s.len(),
{
    if s.len() > 0 && drop(s.first()) {
        without_leading(s.drop_first(), drop)
    } else {
        s
    }
}

/// `s` without the characters at the end that satisfy `drop`.
pub open spec fn without_trailing(s: Seq<char>, drop: spec_fn(char) -> bool) -> Seq<char>
    decreases s.len(),
{
    if s.len() > 0 && drop(s.last()) {
        without_trailing(s.drop_last(), drop)
    } else {
        s
    }
}

/// `s` without the characters at either end that satisfy `drop`.
pub open spec fn without_ends(s: Seq<char>, drop: spec_fn(char) -> bool) -> Seq<char> {
    without_trailing(without_leading(s, drop), drop)
}

/// `s` without white space at either end.
pub open spec fn trimmed(s: Seq<char>) -> Seq<char> {
    without_ends(s, |c: char| is_white_space(c))
}

/// What is left of a text without its ends begins and ends with characters that are kept.
proof fn lemma_without_ends(s: Seq<char>, drop: spec_fn(char) -> bool)
    ensures
        without_leading(s, drop).len() > 0 ==> !drop(without_leading(s, drop).first()),
        without_trailing(s, drop).len() > 0 ==> !drop(without_trailing(s, drop).last()),
        s.len() > 0 && !drop(s.first()) ==> without_trailing(s, drop).len() > 0
            && without_trailing(s, drop).first() == s.first(),
    decreases s.len(),
{
    if s.len() > 0 {
        lemma_without_ends(s.drop_first(), drop);
        lemma_without_ends(s.drop_last(), drop);
    }
}

/// Taking the ends off a text a second time changes nothing.
pub proof fn without_ends_is_idempotent(s: Seq<char>, drop: spec_fn(char) -> bool)
    ensures
        without_ends(without_ends(s, drop), drop) == without_ends(s, drop),
{
    let inner = without_leading(s, drop);
    lemma_without_ends(s, drop);
    lemma_without_ends(inner, drop);
}

/// Trimming a text a second time changes nothing.
pub proof fn trimming_is_idempotent(s: Seq<char>)
    ensures
        trimmed(trimmed(s)) == trimmed(s),
{
    without_ends_is_idempotent(s, |c: char| is_white_space(c));
}

/// A line feed or a carriage return.
pub open spec fn is_line_end(c: char) -> bool {
    c == '\n' || c == '\r'
}

// ---------------------------------------------------------------------------------------------
// Functions of std
// ---------------------------------------------------------------------------------------------

/// `str::trim`: the text without leading and trailing white space, where white space is the
/// Unicode property `White_Space`.
pub assume_specification[ str::trim ](s: &str) -> (res: &str)
    ensures
        res@ == trimmed(s@),
;

/// `String::push`: appends one character.
pub assume_specification[ String::push ](s: &mut String, c: char)
    ensures
        final(s)@ == old(s)@.push(c),
;

/// `String::pop`: removes the last character and returns it; an empty text stays empty.
pub assume_specification[ String::pop ](s: &mut String) -> (res: Option<char>)
    ensures
        old(s)@.len() == 0 ==> final(s)@ == old(s)@ && res is None,
        old(s)@.len() > 0 ==> final(s)@ == old(s)@.drop_last() && res == Some(old(s)@.last()),
;

/// `String::clear`: leaves the empty text.
pub assume_specification[ String::clear ](s: &mut String)
    ensures
        final(s)@ == Seq::<char>::empty(),
;

/// What `str::to_lowercase` makes of a text: its lowercase equivalent by the Unicode property
/// `Lowercase`, one character giving one or more.
pub uninterp spec fn lowercased(s: Seq<char>) -> Seq<char>;

/// `str::to_lowercase`: the lowercase equivalent of the text.
pub assume_specification[ str::to_lowercase ](s: &str) -> (res: String)
    ensures
        res@ == lowercased(s@),
;

// ---------------------------------------------------------------------------------------------
// Characters
// ---------------------------------------------------------------------------------------------

/// The characters of a text.
pub fn chars_of(text: &str) -> (chars: Vec<char>)
    ensures
        chars@ == text@,
{
    let mut chars: Vec<char> = Vec::new();
    for c in iter: text.chars()
        invariant
            iter.seq() == text@,
            chars@ == text@.take(iter.index() as int),
    {
        chars.push(c);
        assert(text@.take(iter.index() + 1) =~= text@.take(iter.index() as int).push(c));
    }
    assert(text@.take(text@.len() as int) =~= text@);
    chars
}

/// The text made of the characters from `from` up to, not including, `to`.
pub fn text_of(chars: &Vec<char>, from: usize, to: usize) -> (text: String)
    requires
        from <= to <= chars@.len(),
    ensures
        text@ == chars@.subrange(from as int, to as int),
{
    let mut text = String::new();
    let mut i: usize = from;
    while i < to
        invariant
            from <= i <= to <= chars@.len(),
            text@ == chars@.subrange(from as int, i as int),
        decreases to - i,
    {
        text.push(chars[i]);
        i = i + 1;
        assert(chars@.subrange(from as int, i as int) =~= chars@.subrange(
            from as int,
            i - 1,
        ).push(chars@[i - 1]));
    }
    text
}

/// Whether two texts hold the same characters.
pub fn same_text(a: &str, b: &str) -> (same: bool)
    ensures
        same == (a@ == b@),
{
    a.to_owned() == b.to_owned()
}

/// The length of a text in bytes of UTF-8.
pub fn byte_length(text: &str) -> (length: usize)
    ensures
        length == encode_utf8(text@).len(),
{
    text.as_bytes().len()
}

/// `text` without the characters at either end that are a line feed or a carriage return.
pub fn without_line_ends(text: &str) -> (res: String)
    ensures
        res@ == without_ends(text@, |c: char| is_line_end(c)),
{
    let chars = chars_of(text);
    let ghost drop = |c: char| is_line_end(c);
    let mut from: usize = 0;
    assert(text@.skip(0) =~= text@);
    while from < chars.len() && (chars[from] == '\n' || chars[from] == '\r')
        invariant
            chars@ == text@,
            drop == (|c: char| is_line_end(c)),
            from <= chars@.len(),
            without_leading(text@, drop) == without_leading(text@.skip(from as int), drop),
        decreases chars@.len() - from,
    {
        assert(text@.skip(from as int).drop_first() =~= text@.skip(from + 1));
        from = from + 1;
    }
    assert(without_leading(text@, drop) == text@.skip(from as int));
    let mut to: usize = chars.len();
    assert(text@.subrange(from as int, to as int) =~= text@.skip(from as int));
    while from < to && (chars[to - 1] == '\n' || chars[to - 1] == '\r')
        invariant
            chars@ == text@,
            drop == (|c: char| is_line_end(c)),
            from <= to <= chars@.len(),
            without_ends(text@, drop) == without_trailing(
                text@.subrange(from as int, to as int),
                drop,
            ),
        decreases to,
    {
        assert(text@.subrange(from as int, to as int).drop_last() =~= text@.subrange(
            from as int,
            to - 1,
        ));
        to = to - 1;
    }
    text_of(&chars, from, to)
}

/// Whether `text` begins with `prefix`.
pub fn begins_with(text: &str, prefix: &str) -> (res: bool)
    ensures
        res == prefix@.is_prefix_of(text@),
{
    let all = chars_of(text);
    let first = chars_of(prefix);
    if first.len() > all.len() {
        return false;
    }
    let mut i: usize = 0;
    while i < first.len()
        invariant
            all@ == text@,
            first@ == prefix@,
            i <= first@.len() <= all@.len(),
            forall|j: int| 0 <= j < i ==> first@[j] == all@[j],
        decreases first@.len() - i,
    {
        if first[i] != all[i] {
            assert(prefix@[i as int] != text@.subrange(0, prefix@.len() as int)[i as int]);
            return false;
        }
        i = i + 1;
    }
    true
}

// ---------------------------------------------------------------------------------------------
// ASCII case
// ---------------------------------------------------------------------------------------------

/// The code point of `c`, that of the lowercase letter where `c` is an ASCII capital.
pub open spec fn lower_code(c: char) -> u32 {
    if 'A' <= c <= 'Z' {
        (c as u32 + 32) as u32
    } else {
        c as u32
    }
}

/// Whether `s` begins with the characters of `prefix`, ASCII capitals of `s` taken as their
/// lowercase letters.
pub open spec fn begins_with_lowered(s: Seq<char>, prefix: Seq<char>) -> bool {
    &&& prefix.len() <= s.len()
    &&& forall|i: int| 0 <= i < prefix.len() ==> lower_code(s[i]) == #[trigger] prefix[i] as u32
}

/// Whether `text`, its ASCII capitals lowered, begins with `prefix`.
pub fn lowered_begins_with(text: &str, prefix: &str) -> (res: bool)
    ensures
        res == begins_with_lowered(text@, prefix@),
{
    let all = chars_of(text);
    let first = chars_of(prefix);
    if first.len() > all.len() {
        return false;
    }
    let mut i: usize = 0;
    while i < first.len()
        invariant
            all@ == text@,
            first@ == prefix@,
            i <= first@.len() <= all@.len(),
            forall|j: int| 0 <= j < i ==> lower_code(text@[j]) == #[trigger] prefix@[j] as u32,
        decreases first@.len() - i,
    {
        let c = all[i];
        let code: u32 = if 'A' <= c && c <= 'Z' {
            c as u32 + 32
        } else {
            c as u32
        };
        if code != first[i] as u32 {
            assert(lower_code(text@[i as int]) != prefix@[i as int] as u32);
            return false;
        }
        i = i + 1;
    }
    true
}

// ---------------------------------------------------------------------------------------------
// Decimal numbers
// ---------------------------------------------------------------------------------------------

/// The character of a decimal digit.
pub open spec fn digit_char(digit: nat) -> char {
    ('0' as u32 + digit) as char
}

/// A number in decimal, without leading zeros.
pub open spec fn decimal_text(n: nat) -> Seq<char>
    decreases n,
{
    if n < 10 {
        seq![digit_char(n)]
    } else {
        decimal_text(n / 10).push(digit_char(n % 10))
    }
}

/// A number in decimal.
pub fn decimal(n: u64) -> (text: String)
    ensures
        text@ == decimal_text(n as nat),
    decreases n,
{
    let digit: u8 = 48 + (n % 10) as u8;
    let mut text = if n < 10 {
        String::new()
    } else {
        decimal(n / 10)
    };
    text.push(digit as char);
    text
}

// ---------------------------------------------------------------------------------------------
// Order and search
// ---------------------------------------------------------------------------------------------

/// Whether a text stands in front of another, or is the same, by the code points of their
/// characters from the first on.
pub open spec fn text_le(a: Seq<char>, b: Seq<char>) -> bool
    decreases a.len(),
{
    if a.len() == 0 {
        true
    } else if b.len() == 0 {
        false
    } else if a[0] == b[0] {
        text_le(a.drop_first(), b.drop_first())
    } else {
        a[0] < b[0]
    }
}

/// Of two texts, one stands in front of the other or is the same.
pub proof fn lemma_text_le_total(a: Seq<char>, b: Seq<char>)
    ensures
        text_le(a, b) || text_le(b, a),
    decreases a.len(),
{
    if a.len() > 0 && b.len() > 0 && a[0] == b[0] {
        lemma_text_le_total(a.drop_first(), b.drop_first());
    }
}

/// The order of texts carries over a text between them.
pub proof fn lemma_text_le_transitive(a: Seq<char>, b: Seq<char>, c: Seq<char>)
    requires
        text_le(a, b),
        text_le(b, c),
    ensures
        text_le(a, c),
    decreases a.len(),
{
    if a.len() > 0 && b.len() > 0 && c.len() > 0 && a[0] == b[0] && b[0] == c[0] {
        lemma_text_le_transitive(a.drop_first(), b.drop_first(), c.drop_first());
    }
}

/// Whether a text stands in front of another or is the same.
pub fn is_text_le(a: &Vec<char>, b: &Vec<char>) -> (res: bool)
    ensures
        res == text_le(a@, b@),
{
    let mut i: usize = 0;
    assert(a@.skip(0) =~= a@);
    assert(b@.skip(0) =~= b@);
    while i < a.len() && i < b.len() && a[i] == b[i]
        invariant
            i <= a@.len(),
            i <= b@.len(),
            text_le(a@, b@) == text_le(a@.skip(i as int), b@.skip(i as int)),
        decreases a@.len() - i,
    {
        assert(a@.skip(i as int).drop_first() =~= a@.skip(i + 1));
        assert(b@.skip(i as int).drop_first() =~= b@.skip(i + 1));
        i = i + 1;
    }
    if i >= a.len() {
        true
    } else if i >= b.len() {
        false
    } else {
        a[i] < b[i]
    }
}

/// Whether a text holds another one.
pub open spec fn holds_text(text: Seq<char>, part: Seq<char>) -> bool {
    exists|at: int|
        0 <= at <= text.len() - part.len() && #[trigger] text.subrange(at, at + part.len())
            == part
}

/// Whether a text holds another one.
pub fn is_text_held(text: &Vec<char>, part: &Vec<char>) -> (res: bool)
    ensures
        res == holds_text(text@, part@),
{
    if part.len() == 0 {
        proof {
            every_text_holds_the_empty_one(text@, part@);
        }
        return true;
    }
    if part.len() > text.len() {
        return false;
    }
    let last: usize = text.len() - part.len();
    let mut at: usize = 0;
    while at <= last
        invariant
            at <= last + 1,
            last == text@.len() - part@.len(),
            0 < part@.len() <= text@.len() <= usize::MAX,
            forall|k: int| 0 <= k < at ==> #[trigger] text@.subrange(k, k + part@.len()) != part@,
        decreases last + 1 - at,
    {
        let mut i: usize = 0;
        while i < part.len() && text[at + i] == part[i]
            invariant
                i <= part@.len(),
                at <= last,
                last == text@.len() - part@.len(),
                text@.len() <= usize::MAX,
                forall|j: int| 0 <= j < i ==> text@[at + j] == part@[j],
            decreases part@.len() - i,
        {
            i = i + 1;
        }
        if i == part.len() {
            assert(text@.subrange(at as int, at + part@.len()) =~= part@);
            return true;
        }
        assert(text@.subrange(at as int, at + part@.len())[i as int] != part@[i as int]);
        at = at + 1;
    }
    false
}

/// Every text holds the empty one.
pub proof fn every_text_holds_the_empty_one(text: Seq<char>, part: Seq<char>)
    requires
        part.len() == 0,
    ensures
        holds_text(text, part),
{
    let at: int = 0;
    assert(text.subrange(at, at + part.len()) =~= part);
}

} // verus!
