//! Text helpers over `str` and `String`, stated over sequences of characters.

use vstd::prelude::*;

verus! {

/// `String::push` appends one character to the end of the text.
pub assume_specification[ String::push ](text: &mut String, c: char)
    ensures
        final(text)@ == old(text)@.push(c),
;

/// What `{:?}` prints for a text: the text in double quotes, with the escapes
/// that `str`'s `Debug` applies.
pub uninterp spec fn quoted(text: Seq<char>) -> Seq<char>;

/// `str`'s `Debug`, through `format!("{:?}")`. The result depends on the text
/// alone; how single characters are escaped is not stated.
#[verifier::external_body]
pub(crate) fn quote(text: &str) -> (printed: String)
    ensures
        printed@ == quoted(text@),
{
    format!("{:?}", text)
}

/// `String::from_utf8`: succeeds exactly on valid UTF-8, and then holds the
/// characters that the bytes encode.
#[verifier::external_body]
pub(crate) fn from_utf8(bytes: Vec<u8>) -> (text: Option<String>)
    ensures
        text is Some <==> vstd::utf8::valid_utf8(bytes@),
        text matches Some(s) ==> s@ == vstd::utf8::decode_utf8(bytes@),
{
    String::from_utf8(bytes).ok()
}

/// The lower-case form of an ASCII letter; every other character is itself.
pub open spec fn ascii_lower(c: char) -> char {
    if 'A' <= c && c <= 'Z' {
        ((c as u8 + 32) as u8) as char
    } else {
        c
    }
}

/// Every ASCII letter of the text in lower case.
pub open spec fn ascii_lower_text(text: Seq<char>) -> Seq<char> {
    text.map_values(|c: char| ascii_lower(c))
}

/// The text without the dots at its end.
pub open spec fn without_trailing_dots(text: Seq<char>) -> Seq<char>
    decreases text.len(),
{
    if text.len() > 0 && text.last() == '.' {
        without_trailing_dots(text.drop_last())
    } else {
        text
    }
}

/// The characters of a text, as a vector.
pub(crate) fn chars_of(text: &str) -> (chars: Vec<char>)
    ensures
        chars@ == text@,
{
    let mut chars: Vec<char> = Vec::new();
    for c in it: text.chars()
        invariant
            chars@ =~= it.seq().take(it.index()),
            it.seq() == text@,
    {
        chars.push(c);
    }
    chars
}

fn lower_char(c: char) -> (lower: char)
    ensures
        lower == ascii_lower(c),
{
    if 'A' <= c && c <= 'Z' {
        (c as u8 + 32) as char
    } else {
        c
    }
}

/// Whether two texts are the same.
pub(crate) fn same_text(a: &str, b: &str) -> (same: bool)
    ensures
        same == (a@ == b@),
{
    let x = chars_of(a);
    let y = chars_of(b);
    if x.len() != y.len() {
        return false;
    }
    for i in 0..x.len()
        invariant
            x@ == a@,
            y@ == b@,
            x.len() == y.len(),
            forall|j: int| 0 <= j < i ==> x@[j] == y@[j],
    {
        if x[i] != y[i] {
            return false;
        }
    }
    assert(x@ =~= y@);
    true
}

/// Whether two texts are the same up to the case of ASCII letters.
pub(crate) fn same_text_ignoring_ascii_case(a: &str, b: &str) -> (same: bool)
    ensures
        same == (ascii_lower_text(a@) == ascii_lower_text(b@)),
{
    let x = chars_of(a);
    let y = chars_of(b);
    if x.len() != y.len() {
        assert(ascii_lower_text(a@).len() == a@.len());
        assert(ascii_lower_text(b@).len() == b@.len());
        return false;
    }
    for i in 0..x.len()
        invariant
            x@ == a@,
            y@ == b@,
            x.len() == y.len(),
            forall|j: int| 0 <= j < i ==> ascii_lower(x@[j]) == ascii_lower(y@[j]),
    {
        if lower_char(x[i]) != lower_char(y[i]) {
            assert(ascii_lower_text(a@)[i as int] != ascii_lower_text(b@)[i as int]);
            return false;
        }
    }
    assert(ascii_lower_text(a@) =~= ascii_lower_text(b@));
    true
}

/// The text in ASCII lower case, without the dots at its end.
pub(crate) fn lower_without_trailing_dots(text: &str) -> (canonical: String)
    ensures
        canonical@ == ascii_lower_text(without_trailing_dots(text@)),
{
    let chars = chars_of(text);
    let mut end: usize = chars.len();
    assert(chars@.take(end as int) =~= chars@);
    while end > 0 && chars[end - 1] == '.'
        invariant
            end <= chars.len(),
            without_trailing_dots(chars@.take(end as int)) == without_trailing_dots(chars@),
        decreases end,
    {
        assert(chars@.take(end as int).drop_last() =~= chars@.take(end - 1));
        end = end - 1;
    }
    let ghost kept = without_trailing_dots(chars@);
    let mut canonical = String::new();
    for i in 0..end
        invariant
            end <= chars.len(),
            kept == chars@.take(end as int),
            canonical@ =~= ascii_lower_text(kept.take(i as int)),
    {
        canonical.push(lower_char(chars[i]));
    }
    assert(kept.take(end as int) =~= kept);
    canonical
}

/// The decimal digits of a number, without leading zeros.
pub open spec fn decimal(n: nat) -> Seq<char>
    decreases n,
{
    if n < 10 {
        seq![digit_character(n)]
    } else {
        decimal(n / 10).push(digit_character(n % 10))
    }
}

/// The character of a decimal digit.
pub open spec fn digit_character(d: nat) -> char {
    ((d + 48) as u8) as char
}

/// A number in decimal.
pub(crate) fn decimal_text(n: u64) -> (text: String)
    ensures
        text@ == decimal(n as nat),
    decreases n,
{
    let mut text = if n < 10 { String::new() } else { decimal_text(n / 10) };
    text.push((((n % 10) as u8) + 48) as char);
    assert(n < 10 ==> text@ =~= decimal(n as nat));
    text
}

// Laws

/// Lower case moves the letters from `A` to `Z` to those from `a` to `z`, one for one, and
/// leaves every other character, and the length, alone.
pub proof fn lemma_lower_case(text: Seq<char>)
    ensures
        ascii_lower_text(text).len() == text.len(),
        forall|i: int|
            0 <= i < text.len() ==> {
                let c = text[i];
                let lower = #[trigger] ascii_lower_text(text)[i];
                if 65 <= c as u32 && c as u32 <= 90 {
                    lower as u32 == c as u32 + 32
                } else {
                    lower == c
                }
            },
{
    assert forall|i: int| 0 <= i < text.len() implies {
        let c = text[i];
        let lower = #[trigger] ascii_lower_text(text)[i];
        if 65 <= c as u32 && c as u32 <= 90 {
            lower as u32 == c as u32 + 32
        } else {
            lower == c
        }
    } by {
        assert(ascii_lower_text(text)[i] == ascii_lower(text[i]));
    }
}

/// Only dots are removed, only at the end, and all that are there.
pub proof fn lemma_trailing_dots(text: Seq<char>)
    ensures
        ({
            let kept = without_trailing_dots(text);
            &&& kept.len() <= text.len()
            &&& forall|i: int| 0 <= i < kept.len() ==> kept[i] == text[i]
            &&& forall|i: int| kept.len() <= i < text.len() ==> text[i] == '.'
            &&& kept.len() > 0 ==> kept[kept.len() - 1] != '.'
        }),
    decreases text.len(),
{
    if text.len() > 0 && text.last() == '.' {
        lemma_trailing_dots(text.drop_last());
        let kept = without_trailing_dots(text);
        assert forall|i: int| kept.len() <= i < text.len() implies text[i] == '.' by {
            if i < text.len() - 1 {
                assert(text.drop_last()[i] == text[i]);
            }
        }
        assert forall|i: int| 0 <= i < kept.len() implies kept[i] == text[i] by {
            assert(text.drop_last()[i] == text[i]);
        }
    }
}

/// The number that decimal digits spell, the most significant first.
pub open spec fn spelled_number(digits: Seq<char>) -> int
    decreases digits.len(),
{
    if digits.len() == 0 {
        0
    } else {
        10 * spelled_number(digits.drop_last()) + (digits.last() as int - 48)
    }
}

/// A number in decimal is made of the digits from `0` to `9`, spells the number, and starts
/// with a zero only where it is zero.
pub proof fn lemma_decimal_spells_its_number(n: nat)
    ensures
        decimal(n).len() > 0,
        forall|i: int| 0 <= i < decimal(n).len() ==> 48 <= (#[trigger] decimal(n)[i]) as u32 <= 57,
        spelled_number(decimal(n)) == n,
        decimal(n)[0] == '0' ==> n == 0 && decimal(n).len() == 1,
    decreases n,
{
    reveal_with_fuel(spelled_number, 2);
    if n >= 10 {
        lemma_decimal_spells_its_number(n / 10);
        assert(decimal(n).drop_last() =~= decimal(n / 10));
        assert(decimal(n)[0] == decimal(n / 10)[0]);
    } else {
        assert(decimal(n).drop_last() =~= Seq::<char>::empty());
    }
}

} // verus!
