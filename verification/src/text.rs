//! Small operations on text.

use vstd::prelude::*;
use vstd::string::*;

verus! {

/// `std::string::String::push` appends one character to the end of the string.
pub assume_specification[ String::push ](s: &mut String, c: char)
    ensures
        final(s)@ == old(s)@.push(c),
;

/// What `str::to_lowercase` gives for `text`: its Unicode lower-case form.
pub uninterp spec fn unicode_lowercase(text: Seq<char>) -> Seq<char>;

/// What `str::to_uppercase` gives for `text`: its Unicode upper-case form.
pub uninterp spec fn unicode_uppercase(text: Seq<char>) -> Seq<char>;

/// Calls `str::to_lowercase`. Its result depends on the text alone; on ASCII text it is
/// the text with `A` to `Z` turned into `a` to `z`.
#[verifier::external_body]
pub(crate) fn lowercase(text: &str) -> (lower: String)
    ensures
        lower@ == unicode_lowercase(text@),
        vstd::utf8::is_ascii_chars(text@) ==> lower@ == ascii_lowered(text@),
{
    text.to_lowercase()
}

/// Calls `str::to_uppercase`. Its result depends on the text alone; on ASCII text it is
/// the text with `a` to `z` turned into `A` to `Z`.
#[verifier::external_body]
pub(crate) fn uppercase(text: &str) -> (upper: String)
    ensures
        upper@ == unicode_uppercase(text@),
        vstd::utf8::is_ascii_chars(text@) ==> upper@ == ascii_raised(text@),
{
    text.to_uppercase()
}

/// Whether `c` has the Unicode property `White_Space`.
pub open spec fn is_white(c: char) -> bool {
    let code = c as u32;
    ||| 0x9 <= code <= 0xd
    ||| code == 0x20
    ||| code == 0x85
    ||| code == 0xa0
    ||| code == 0x1680
    ||| 0x2000 <= code <= 0x200a
    ||| code == 0x2028
    ||| code == 0x2029
    ||| code == 0x202f
    ||| code == 0x205f
    ||| code == 0x3000
}

/// `text` without its leading white space.
pub open spec fn without_leading_white(text: Seq<char>) -> Seq<char>
    decreases text.len(),
{
    if text.len() > 0 && is_white(text.first()) {
        without_leading_white(text.drop_first())
    } else {
        text
    }
}

/// `text` without its trailing white space.
pub open spec fn without_trailing_white(text: Seq<char>) -> Seq<char>
    decreases text.len(),
{
    if text.len() > 0 && is_white(text.last()) {
        without_trailing_white(text.drop_last())
    } else {
        text
    }
}

/// `text` without the white space at its two ends.
pub open spec fn trimmed_of(text: Seq<char>) -> Seq<char> {
    without_trailing_white(without_leading_white(text))
}

fn white(c: char) -> (answer: bool)
    ensures
        answer == is_white(c),
{
    let code: u32 = c as u32;
    (0x9 <= code && code <= 0xd) || code == 0x20 || code == 0x85 || code == 0xa0 || code == 0x1680
        || (0x2000 <= code && code <= 0x200a) || code == 0x2028 || code == 0x2029 || code == 0x202f
        || code == 0x205f || code == 0x3000
}

/// `text` without the white space at its two ends.
pub fn trimmed(text: &str) -> (inner: &str)
    ensures
        inner@ == trimmed_of(text@),
{
    let len: usize = text.unicode_len();
    let mut from: usize = 0;
    assert(text@.skip(0) =~= text@);
    while from < len && white(text.get_char(from))
        invariant
            len == text@.len(),
            from <= len,
            without_leading_white(text@) == without_leading_white(text@.skip(from as int)),
        decreases len - from,
    {
        assert(text@.skip(from as int).drop_first() =~= text@.skip(from + 1));
        from = from + 1;
    }
    let ghost led = text@.skip(from as int);
    assert(without_leading_white(text@) == led);
    let mut to: usize = len;
    assert(led =~= text@.subrange(from as int, to as int));
    while from < to && white(text.get_char(to - 1))
        invariant
            len == text@.len(),
            from <= to <= len,
            without_trailing_white(led) == without_trailing_white(
                text@.subrange(from as int, to as int),
            ),
        decreases to - from,
    {
        assert(text@.subrange(from as int, to as int).drop_last() =~= text@.subrange(
            from as int,
            to - 1,
        ));
        to = to - 1;
    }
    text.substring_char(from, to)
}

/// Whether two texts hold the same characters.
pub fn same_text(left: &str, right: &str) -> (same: bool)
    ensures
        same == (left@ == right@),
{
    left.to_owned().eq(&right.to_owned())
}

/// `c`, with `A` to `Z` turned into `a` to `z`.
pub open spec fn ascii_lower(c: char) -> char {
    if 'A' <= c && c <= 'Z' {
        ((c as u32) + 32) as char
    } else {
        c
    }
}

/// `text`, with `A` to `Z` turned into `a` to `z`.
pub open spec fn ascii_lowered(text: Seq<char>) -> Seq<char> {
    text.map_values(|c: char| ascii_lower(c))
}

/// `c`, with `a` to `z` turned into `A` to `Z`.
pub open spec fn ascii_upper(c: char) -> char {
    if 'a' <= c && c <= 'z' {
        ((c as u32) - 32) as char
    } else {
        c
    }
}

/// `text`, with `a` to `z` turned into `A` to `Z`.
pub open spec fn ascii_raised(text: Seq<char>) -> Seq<char> {
    text.map_values(|c: char| ascii_upper(c))
}

fn lower_char(c: char) -> (lower: char)
    ensures
        lower == ascii_lower(c),
{
    if 'A' <= c && c <= 'Z' {
        ((c as u8) + 32) as char
    } else {
        c
    }
}

fn lower_ascii(text: &str) -> (lower: String)
    ensures
        lower@ == ascii_lowered(text@),
{
    let mut lower: String = String::new();
    for c in it: text.chars()
        invariant
            it.seq() == text@,
            lower@ == ascii_lowered(text@.take(it.index() as int)),
    {
        proof {
            let i = it.index() as int;
            assert(text@.take(i + 1) =~= text@.take(i).push(c));
            assert(ascii_lowered(text@.take(i).push(c)) =~= ascii_lowered(text@.take(i)).push(
                ascii_lower(c),
            ));
        }
        lower.push(lower_char(c));
    }
    assert(text@.take(text@.len() as int) =~= text@);
    lower
}

/// Whether two texts differ at most in the case of their ASCII letters.
pub fn same_ignoring_ascii_case(left: &str, right: &str) -> (same: bool)
    ensures
        same == (ascii_lowered(left@) == ascii_lowered(right@)),
{
    lower_ascii(left).eq(&lower_ascii(right))
}

/// The character of a decimal digit.
pub open spec fn digit_char(digit: nat) -> char {
    (48 + digit) as char
}

/// `n` written in decimal, without leading zeros.
pub open spec fn decimal_digits(n: nat) -> Seq<char>
    decreases n,
{
    if n < 10 {
        seq![digit_char(n)]
    } else {
        decimal_digits(n / 10).push(digit_char(n % 10))
    }
}

/// `n` written in decimal, without leading zeros.
pub fn decimal_text(n: u128) -> (text: String)
    ensures
        text@ == decimal_digits(n as nat),
    decreases n,
{
    if n < 10 {
        let mut text: String = String::new();
        text.push((48 + n as u8) as char);
        assert(text@ =~= decimal_digits(n as nat));
        text
    } else {
        let mut text: String = decimal_text(n / 10);
        text.push((48 + (n % 10) as u8) as char);
        text
    }
}

/// The last `places` decimal digits of `n`, with leading zeros.
pub open spec fn padded_digits(n: nat, places: nat) -> Seq<char>
    decreases places,
{
    if places == 0 {
        Seq::empty()
    } else {
        padded_digits(n / 10, (places - 1) as nat).push(digit_char(n % 10))
    }
}

/// The last `places` decimal digits of `n`, with leading zeros.
pub fn padded_text(n: u128, places: u32) -> (text: String)
    ensures
        text@ == padded_digits(n as nat, places as nat),
    decreases places,
{
    if places == 0 {
        String::new()
    } else {
        let mut text: String = padded_text(n / 10, places - 1);
        text.push((48 + (n % 10) as u8) as char);
        text
    }
}

/// The number that decimal digits stand for.
pub open spec fn number_of(digits: Seq<char>) -> int
    decreases digits.len(),
{
    if digits.len() == 0 {
        0
    } else {
        10 * number_of(digits.drop_last()) + (digits.last() as int - '0' as int)
    }
}

/// A number written in decimal reads as that number, and has no zero in front unless it is
/// zero itself.
pub proof fn decimal_digits_read_back(n: nat)
    ensures
        number_of(decimal_digits(n)) == n,
        decimal_digits(n).len() > 0,
        n > 0 ==> decimal_digits(n)[0] != '0',
        n == 0 ==> decimal_digits(n) == seq!['0'],
        forall|i: int|
            0 <= i < decimal_digits(n).len() ==> '0' <= #[trigger] decimal_digits(n)[i] <= '9',
    decreases n,
{
    reveal_with_fuel(number_of, 2);
    assert(digit_char(n % 10) as int == 48 + n % 10);
    if n < 10 {
        assert(decimal_digits(n).drop_last() =~= Seq::<char>::empty());
    } else {
        decimal_digits_read_back(n / 10);
        assert(decimal_digits(n).drop_last() =~= decimal_digits(n / 10));
    }
}

/// Padded digits have the length asked for and read as the number, where it fits.
pub proof fn padded_digits_read_back(n: nat, places: nat)
    requires
        n < crate::amount::pow10(places),
    ensures
        padded_digits(n, places).len() == places,
        number_of(padded_digits(n, places)) == n,
        forall|i: int|
            0 <= i < places ==> '0' <= #[trigger] padded_digits(n, places)[i] <= '9',
    decreases places,
{
    if places > 0 {
        assert(n / 10 < crate::amount::pow10((places - 1) as nat));
        padded_digits_read_back(n / 10, (places - 1) as nat);
        assert(padded_digits(n, places).drop_last() =~= padded_digits(
            n / 10,
            (places - 1) as nat,
        ));
        assert(digit_char(n % 10) as int == 48 + n % 10);
    }
}

/// Trimming takes white space off the two ends and nothing else: what is left stands in the
/// text between two stretches of white space, and neither begins nor ends with any.
pub proof fn trimming_takes_white_ends(text: Seq<char>)
    ensures
        exists|from: int, to: int|
            0 <= from <= to <= text.len() && #[trigger] text.subrange(from, to) == trimmed_of(text)
                && (forall|i: int| 0 <= i < from || to <= i < text.len() ==> is_white(
                #[trigger] text[i],
            )),
        trimmed_of(text).len() > 0 ==> !is_white(trimmed_of(text).first()) && !is_white(
            trimmed_of(text).last(),
        ),
{
    let led = without_leading_white(text);
    let from = lemma_leading_white(text);
    let to = lemma_trailing_white(led);
    let done = trimmed_of(text);
    assert(text.subrange(from, from + to) =~= done);
    assert forall|i: int| 0 <= i < from || from + to <= i < text.len() implies is_white(
        #[trigger] text[i],
    ) by {
        if i >= from {
            assert(led[i - from] == text[i]);
        }
    }
    if done.len() > 0 {
        assert(done.first() == led.first());
    }
}

proof fn lemma_leading_white(text: Seq<char>) -> (from: int)
    ensures
        0 <= from <= text.len(),
        without_leading_white(text) == text.skip(from),
        forall|i: int| 0 <= i < from ==> is_white(#[trigger] text[i]),
        without_leading_white(text).len() > 0 ==> !is_white(without_leading_white(text).first()),
    decreases text.len(),
{
    if text.len() > 0 && is_white(text.first()) {
        let rest = lemma_leading_white(text.drop_first());
        assert(text.drop_first().skip(rest) =~= text.skip(rest + 1));
        assert forall|i: int| 0 <= i < rest + 1 implies is_white(#[trigger] text[i]) by {
            if i > 0 {
                assert(text.drop_first()[i - 1] == text[i]);
            }
        }
        rest + 1
    } else {
        assert(text.skip(0) =~= text);
        0
    }
}

proof fn lemma_trailing_white(text: Seq<char>) -> (to: int)
    ensures
        0 <= to <= text.len(),
        without_trailing_white(text) == text.take(to),
        forall|i: int| to <= i < text.len() ==> is_white(#[trigger] text[i]),
        without_trailing_white(text).len() > 0 ==> !is_white(without_trailing_white(text).last()),
    decreases text.len(),
{
    if text.len() > 0 && is_white(text.last()) {
        let to = lemma_trailing_white(text.drop_last());
        assert(text.drop_last().take(to) =~= text.take(to));
        assert forall|i: int| to <= i < text.len() implies is_white(#[trigger] text[i]) by {
            if i < text.len() - 1 {
                assert(text.drop_last()[i] == text[i]);
            }
        }
        to
    } else {
        assert(text.take(text.len() as int) =~= text);
        text.len() as int
    }
}

/// Lowering and raising ASCII letters changes nothing but their case: each character stays
/// where it is, letters `A` to `Z` move 32 places up or down, and others stay.
pub proof fn ascii_case_changes_letters_alone(text: Seq<char>, i: int)
    requires
        0 <= i < text.len(),
    ensures
        ascii_lowered(text).len() == text.len(),
        ascii_raised(text).len() == text.len(),
        'A' <= text[i] <= 'Z' ==> ascii_lowered(text)[i] as int == text[i] as int + 32,
        !('A' <= text[i] <= 'Z') ==> ascii_lowered(text)[i] == text[i],
        'a' <= text[i] <= 'z' ==> ascii_raised(text)[i] as int == text[i] as int - 32,
        !('a' <= text[i] <= 'z') ==> ascii_raised(text)[i] == text[i],
{
}

/// `part` stands somewhere in `whole`, in one piece.
pub open spec fn appears_in(part: Seq<char>, whole: Seq<char>) -> bool {
    exists|from: int, to: int|
        0 <= from <= to <= whole.len() && #[trigger] whole.subrange(from, to) == part
}

/// A text appears in itself.
pub broadcast proof fn lemma_appears_whole(part: Seq<char>)
    ensures
        #[trigger] appears_in(part, part),
{
    assert(part.subrange(0, part.len() as int) =~= part);
}

/// Two pieces appear together where they stand one behind the other.
pub broadcast proof fn lemma_appears_last(before: Seq<char>, label: Seq<char>, value: Seq<char>)
    ensures
        #[trigger] appears_in(label + value, before + label + value),
{
    let whole = before + label + value;
    assert(whole.subrange(before.len() as int, whole.len() as int) =~= label + value);
}

/// What appears in a text appears in a longer one.
pub broadcast proof fn lemma_appears_more(part: Seq<char>, whole: Seq<char>, after: Seq<char>)
    requires
        appears_in(part, whole),
    ensures
        #[trigger] appears_in(part, whole + after),
{
    let (from, to) = choose|from: int, to: int|
        0 <= from <= to <= whole.len() && #[trigger] whole.subrange(from, to) == part;
    assert((whole + after).subrange(from, to) =~= part);
}

/// White space is the tab, the line and page breaks, the space, and what Unicode counts among
/// them beyond ASCII.
pub proof fn white_space_is_what_unicode_lists(c: char)
    ensures
        is_white(c) <==> seq![
            '\t',
            '\n',
            '\u{b}',
            '\u{c}',
            '\r',
            ' ',
            '\u{85}',
            '\u{a0}',
            '\u{1680}',
            '\u{2000}',
            '\u{2001}',
            '\u{2002}',
            '\u{2003}',
            '\u{2004}',
            '\u{2005}',
            '\u{2006}',
            '\u{2007}',
            '\u{2008}',
            '\u{2009}',
            '\u{200a}',
            '\u{2028}',
            '\u{2029}',
            '\u{202f}',
            '\u{205f}',
            '\u{3000}',
        ].contains(c),
{
    let listed = seq![
        '\t',
        '\n',
        '\u{b}',
        '\u{c}',
        '\r',
        ' ',
        '\u{85}',
        '\u{a0}',
        '\u{1680}',
        '\u{2000}',
        '\u{2001}',
        '\u{2002}',
        '\u{2003}',
        '\u{2004}',
        '\u{2005}',
        '\u{2006}',
        '\u{2007}',
        '\u{2008}',
        '\u{2009}',
        '\u{200a}',
        '\u{2028}',
        '\u{2029}',
        '\u{202f}',
        '\u{205f}',
        '\u{3000}',
    ];
    if is_white(c) {
        let code = c as int;
        let i = if code <= 0xd {
            code - 9
        } else if code == 0x20 {
            5
        } else if code == 0x85 {
            6
        } else if code == 0xa0 {
            7
        } else if code == 0x1680 {
            8
        } else if code <= 0x200a {
            code - 0x2000 + 9
        } else if code == 0x2028 {
            20
        } else if code == 0x2029 {
            21
        } else if code == 0x202f {
            22
        } else if code == 0x205f {
            23
        } else {
            24
        };
        assert(listed[i] == c);
    }
}

} // verus!
