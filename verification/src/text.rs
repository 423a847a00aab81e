//! Text helpers: case folding, trimming and copies of string lists.

use vstd::prelude::*;
use vstd::string::*;

verus! {

/// The lowercase form of a text, as the standard library computes it.
pub uninterp spec fn lowercase_of(s: Seq<char>) -> Seq<char>;

/// A text without its leading and trailing whitespace, as the standard
/// library computes it.
pub uninterp spec fn trimmed_of(s: Seq<char>) -> Seq<char>;

/// Whether a character is an ASCII decimal digit.
pub open spec fn is_digit(c: char) -> bool {
    '0' <= c && c <= '9'
}

/// The number that a text of decimal digits spells.
pub open spec fn digits_value(s: Seq<char>) -> nat
    decreases s.len(),
{
    if s.len() == 0 {
        0
    } else {
        digits_value(s.drop_last()) * 10 + ((s.last() as u32) - ('0' as u32)) as nat
    }
}

/// The number that a text spells: an optional plus sign, then one or
/// more ASCII decimal digits and nothing else, with a value that fits.
pub open spec fn parsed_u64(s: Seq<char>) -> Option<u64> {
    let digits = if s.len() > 0 && s[0] == '+' {
        s.drop_first()
    } else {
        s
    };
    if digits.len() > 0 && (forall|i: int| 0 <= i < digits.len() ==> is_digit(#[trigger] digits[i]))
        && digits_value(digits) <= u64::MAX {
        Some(digits_value(digits) as u64)
    } else {
        None
    }
}

/// Whether a character is a visible ASCII character, from `!` to `~`.
pub open spec fn is_visible(c: char) -> bool {
    '!' <= c && c <= '~'
}

/// Whether a character is a space, a tab, a line feed or a carriage return.
pub open spec fn is_blank(c: char) -> bool {
    c == ' ' || c == '\t' || c == '\n' || c == '\r'
}

/// Whether a text begins and ends with a visible ASCII character, so that
/// trimming leaves it as it is.
pub open spec fn has_visible_ends(s: Seq<char>) -> bool {
    s.len() > 0 && is_visible(s[0]) && is_visible(s.last())
}

/// Whether a text holds nothing but spaces, tabs and line breaks, so that
/// trimming leaves nothing of it.
pub open spec fn all_blank(s: Seq<char>) -> bool {
    forall|i: int| 0 <= i < s.len() ==> is_blank(#[trigger] s[i])
}

/// `str::to_lowercase`: the result is named `lowercase_of` of the input.
#[verifier::external_body]
pub(crate) fn to_lower(s: &str) -> (r: String)
    ensures
        r@ == lowercase_of(s@),
{
    s.to_lowercase()
}

/// `str::trim`: the result is named `trimmed_of` of the input. A text
/// that begins and ends with a visible ASCII character has no whitespace
/// at either end and comes back as it is; a text of spaces, tabs and line
/// breaks only is all whitespace and comes back empty.
#[verifier::external_body]
pub(crate) fn trim_text(s: &str) -> (r: &str)
    ensures
        r@ == trimmed_of(s@),
        has_visible_ends(s@) ==> r@ == s@,
        all_blank(s@) ==> r@.len() == 0,
{
    s.trim()
}

/// `str::parse::<u64>`, with the error dropped: a number comes back for
/// an optional plus sign followed by decimal digits whose value fits,
/// and for nothing else.
#[verifier::external_body]
pub(crate) fn parse_number(s: &str) -> (r: Option<u64>)
    ensures
        r == parsed_u64(s@),
{
    s.parse::<u64>().ok()
}

/// An ASCII lowercase letter becomes its uppercase letter; every other
/// character stays.
pub open spec fn ascii_upper(c: char) -> char {
    if 'a' <= c && c <= 'z' {
        ((c as u8) - 32) as char
    } else {
        c
    }
}

/// An ASCII uppercase letter becomes its lowercase letter; every other
/// character stays.
pub open spec fn ascii_lower(c: char) -> char {
    if 'A' <= c && c <= 'Z' {
        ((c as u8) + 32) as char
    } else {
        c
    }
}

/// `str::to_ascii_uppercase`: each character is mapped by `ascii_upper`.
#[verifier::external_body]
pub(crate) fn to_ascii_upper(s: &str) -> (r: String)
    ensures
        r@ == s@.map_values(|c: char| ascii_upper(c)),
{
    s.to_ascii_uppercase()
}

/// `str::eq_ignore_ascii_case`: the two texts are equal once each
/// character is mapped by `ascii_lower`.
#[verifier::external_body]
pub(crate) fn eq_ignoring_ascii_case(a: &str, b: &str) -> (r: bool)
    ensures
        r == (a@.map_values(|c: char| ascii_lower(c)) == b@.map_values(|c: char| ascii_lower(c))),
{
    a.eq_ignore_ascii_case(b)
}

/// `String::push`: the text grows by the character at its end.
#[verifier::external_body]
pub(crate) fn push_char(text: &mut String, c: char)
    ensures
        final(text)@ == old(text)@.push(c),
{
    text.push(c);
}

/// A copy of a list of texts.
pub fn copy_texts(list: &Vec<String>) -> (r: Vec<String>)
    ensures
        r.deep_view() == list.deep_view(),
{
    let mut out: Vec<String> = Vec::new();
    let mut i: usize = 0;
    while i < list.len()
        invariant
            i <= list.len(),
            out.len() == i,
            forall|k: int| 0 <= k < i ==> out[k]@ == list[k]@,
        decreases list.len() - i,
    {
        out.push(list[i].clone());
        i += 1;
    }
    assert(out.deep_view() =~= list.deep_view());
    out
}

/// The lowercase forms of a list of texts, in order.
pub open spec fn lowercase_all(list: Seq<Seq<char>>) -> Seq<Seq<char>> {
    list.map_values(|s: Seq<char>| lowercase_of(s))
}

/// Lowercases each text of a list.
pub fn lower_texts(list: &Vec<String>) -> (r: Vec<String>)
    ensures
        r.deep_view() == lowercase_all(list.deep_view()),
{
    let mut out: Vec<String> = Vec::new();
    let mut i: usize = 0;
    while i < list.len()
        invariant
            i <= list.len(),
            out.len() == i,
            forall|k: int| 0 <= k < i ==> out[k]@ == lowercase_of(list[k]@),
        decreases list.len() - i,
    {
        out.push(to_lower(list[i].as_str()));
        i += 1;
    }
    assert(out.deep_view() =~= lowercase_all(list.deep_view()));
    out
}

/// Whether a list holds a text.
pub fn has_text(list: &Vec<String>, wanted: &String) -> (r: bool)
    ensures
        r == list.deep_view().contains(wanted@),
{
    let mut i: usize = 0;
    while i < list.len()
        invariant
            i <= list.len(),
            forall|k: int| 0 <= k < i ==> list[k]@ != wanted@,
        decreases list.len() - i,
    {
        if list[i] == *wanted {
            assert(list.deep_view()[i as int] == wanted@);
            return true;
        }
        i += 1;
    }
    assert(forall|k: int| 0 <= k < list.deep_view().len() ==> list.deep_view()[k] == list[k]@);
    false
}

/// Lexicographic order of two texts by code point: the order of `String`.
pub open spec fn text_le(a: Seq<char>, b: Seq<char>) -> bool
    decreases a.len(),
{
    if a.len() == 0 {
        true
    } else if b.len() == 0 {
        false
    } else if a[0] != b[0] {
        (a[0] as u32) < (b[0] as u32)
    } else {
        text_le(a.drop_first(), b.drop_first())
    }
}

/// Whether each text of a list is at most every later one.
pub open spec fn ascending(list: Seq<Seq<char>>) -> bool {
    forall|i: int, j: int| 0 <= i < j < list.len() ==> text_le(#[trigger] list[i], #[trigger] list[j])
}

/// `slice::sort` on texts: the same texts, each as often as before, in
/// ascending lexicographic order by code point.
#[verifier::external_body]
pub(crate) fn sort_texts(list: &mut Vec<String>)
    ensures
        final(list).deep_view().to_multiset() == old(list).deep_view().to_multiset(),
        ascending(final(list).deep_view()),
{
    list.sort();
}

/// The texts of a sorted list without repeats, in the same order.
pub fn distinct_texts(sorted: &Vec<String>) -> (r: Vec<String>)
    ensures
        r.deep_view().no_duplicates(),
        r.deep_view().to_set() == sorted.deep_view().to_set(),
        ascending(sorted.deep_view()) ==> ascending(r.deep_view()),
{
    let mut out: Vec<String> = Vec::new();
    let mut i: usize = 0;
    while i < sorted.len()
        invariant
            i <= sorted.len(),
            out.deep_view().no_duplicates(),
            forall|k: int| 0 <= k < out.len() ==> exists|m: int| 0 <= m < i && sorted[m]@ == #[trigger] out[k]@,
            forall|m: int| 0 <= m < i ==> out.deep_view().contains(#[trigger] sorted[m]@),
            ascending(sorted.deep_view()) ==> ascending(out.deep_view()),
            ascending(sorted.deep_view()) ==> forall|a: int, k: int|
                0 <= a < out.len() && i <= k < sorted.len() ==> text_le(#[trigger] out[a]@, #[trigger] sorted[k]@),
        decreases sorted.len() - i,
    {
        let ghost before = out.deep_view();
        if !has_text(&out, &sorted[i]) {
            out.push(sorted[i].clone());
            proof {
                let after = out.deep_view();
                assert(after =~= before.push(sorted[i as int]@));
                assert forall|m: int| 0 <= m < i + 1 implies after.contains(#[trigger] sorted[m]@) by {
                    if m < i {
                        let w = choose|w: int| 0 <= w < before.len() && before[w] == sorted[m]@;
                        assert(after[w] == sorted[m]@);
                    } else {
                        assert(after[before.len() as int] == sorted[m]@);
                    }
                }
                if ascending(sorted.deep_view()) {
                    assert forall|a: int, k: int|
                        0 <= a < out.len() && i + 1 <= k < sorted.len() implies text_le(
                        #[trigger] out[a]@,
                        #[trigger] sorted[k]@,
                    ) by {
                        if a == before.len() {
                            assert(text_le(sorted.deep_view()[i as int], sorted.deep_view()[k]));
                        }
                    }
                    assert forall|a: int, b: int| 0 <= a < b < after.len() implies text_le(
                        #[trigger] after[a],
                        #[trigger] after[b],
                    ) by {
                        if b == before.len() {
                            assert(text_le(out[a]@, sorted[i as int]@));
                        } else {
                            assert(text_le(before[a], before[b]));
                        }
                    }
                }
            }
        } else {
            proof {
                assert forall|m: int| 0 <= m < i + 1 implies before.contains(#[trigger] sorted[m]@) by {}
            }
        }
        i += 1;
    }
    proof {
        let a = out.deep_view();
        let b = sorted.deep_view();
        assert forall|x: Seq<char>| a.to_set().contains(x) <==> b.to_set().contains(x) by {
            if a.contains(x) {
                let k = choose|k: int| 0 <= k < a.len() && a[k] == x;
                let m = choose|m: int| 0 <= m < sorted.len() && sorted[m]@ == out[k]@;
                assert(b[m] == x);
            }
            if b.contains(x) {
                let m = choose|m: int| 0 <= m < b.len() && b[m] == x;
                assert(a.contains(sorted[m]@));
            }
        }
        assert(a.to_set() =~= b.to_set());
    }
    out
}

} // verus!
