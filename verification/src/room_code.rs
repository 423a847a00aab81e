//! Room codes: four uppercase ASCII letters or digits.

use vstd::prelude::*;
use vstd::string::*;
use crate::chance::sample_alphanumeric;
use crate::errors::AppError;
use crate::errors::ErrorKind;
use crate::text::{ascii_upper, push_char, to_ascii_upper};

verus! {

/// Whether a character is an ASCII letter or digit.
pub open spec fn is_alnum(c: char) -> bool {
    ('0' <= c && c <= '9') || ('A' <= c && c <= 'Z') || ('a' <= c && c <= 'z')
}

/// Whether a character is an ASCII uppercase letter or a digit.
pub open spec fn is_code_char(c: char) -> bool {
    ('0' <= c && c <= '9') || ('A' <= c && c <= 'Z')
}

/// Whether a text can be read as a room code: four ASCII letters or digits.
pub open spec fn reads_as_code(text: Seq<char>) -> bool {
    text.len() == 4 && forall|i: int| 0 <= i < 4 ==> is_alnum(#[trigger] text[i])
}

/// Whether a text is a room code: four uppercase ASCII letters or digits.
pub open spec fn is_code(text: Seq<char>) -> bool {
    text.len() == 4 && forall|i: int| 0 <= i < 4 ==> is_code_char(#[trigger] text[i])
}

/// A text with its ASCII letters in uppercase.
pub open spec fn upper(text: Seq<char>) -> Seq<char> {
    text.map_values(|c: char| ascii_upper(c))
}

/// The public key of a room.
#[derive(Debug, PartialEq, Eq, Hash)]
pub struct RoomCode(pub String);

impl View for RoomCode {
    type V = Seq<char>;

    open spec fn view(&self) -> Seq<char> {
        self.0@
    }
}

impl DeepView for RoomCode {
    type V = Seq<char>;

    open spec fn deep_view(&self) -> Seq<char> {
        self.0@
    }
}

impl Clone for RoomCode {
    fn clone(&self) -> (r: Self)
        ensures
            r@ == self@,
    {
        RoomCode(self.0.clone())
    }
}

fn char_is_alnum(c: char) -> (r: bool)
    ensures
        r == is_alnum(c),
{
    ('0' <= c && c <= '9') || ('A' <= c && c <= 'Z') || ('a' <= c && c <= 'z')
}

impl RoomCode {
    /// The length of every room code.
    pub const LENGTH: usize = 4;

    /// Whether this value is a well-formed room code.
    pub open spec fn wf(&self) -> bool {
        is_code(self@)
    }

    /// Reads a room code, folding letters to uppercase. Fails as
    /// validation unless the text is four ASCII letters or digits.
    pub fn new(value: String) -> (r: Result<RoomCode, AppError>)
        ensures
            r is Ok <==> reads_as_code(value@),
            r matches Err(e) ==> e.kind() == ErrorKind::Validation && e.message()
                == "room codes are 4 alphanumeric characters"@,
            r matches Ok(code) ==> code.wf() && code@ == upper(value@),
    {
        let text = value.as_str();
        if text.unicode_len() != 4 {
            return Err(AppError::bad_request("room codes are 4 alphanumeric characters"));
        }
        let mut i: usize = 0;
        while i < 4
            invariant
                i <= 4,
                text@ == value@,
                text@.len() == 4,
                forall|k: int| 0 <= k < i ==> is_alnum(#[trigger] text@[k]),
            decreases 4 - i,
        {
            if !char_is_alnum(text.get_char(i)) {
                return Err(AppError::bad_request("room codes are 4 alphanumeric characters"));
            }
            i += 1;
        }
        let upper = to_ascii_upper(text);
        proof {
            assert forall|k: int| 0 <= k < 4 implies is_code_char(#[trigger] upper@[k]) by {
                let c = text@[k];
                assert(is_alnum(c));
                assert(upper@[k] == ascii_upper(c));
                if 'a' <= c && c <= 'z' {
                    assert(97 <= c as u8 <= 122);
                    assert('A' <= ((c as u8) - 32) as char <= 'Z');
                }
            }
        }
        Ok(RoomCode(upper))
    }

    /// Whether two codes are the same.
    pub fn same_as(&self, other: &RoomCode) -> (r: bool)
        ensures
            r == (self@ == other@),
    {
        self.0 == other.0
    }

    /// The text of this code.
    pub fn as_text(&self) -> (r: String)
        ensures
            r@ == self@,
    {
        self.0.clone()
    }

    /// A well-formed code drawn at random.
    pub fn candidate() -> (r: RoomCode)
        ensures
            r.wf(),
    {
        let mut text = String::new();
        let mut i: usize = 0;
        while i < 4
            invariant
                i <= 4,
                text@.len() == i,
                forall|k: int| 0 <= k < i ==> is_code_char(#[trigger] text@[k]),
            decreases 4 - i,
        {
            let b: u8 = sample_alphanumeric();
            let folded: u8 = if 97 <= b && b <= 122 {
                b - 32
            } else {
                b
            };
            let c: char = folded as char;
            assert(is_code_char(c));
            push_char(&mut text, c);
            i += 1;
        }
        RoomCode(text)
    }

    /// Whether a list of codes holds this one.
    pub fn is_among(&self, existing: &Vec<RoomCode>) -> (r: bool)
        ensures
            r == existing.deep_view().contains(self@),
    {
        let mut i: usize = 0;
        while i < existing.len()
            invariant
                i <= existing.len(),
                forall|k: int| 0 <= k < i ==> existing[k]@ != self@,
            decreases existing.len() - i,
        {
            if self.same_as(&existing[i]) {
                assert(existing.deep_view()[i as int] == self@);
                return true;
            }
            i += 1;
        }
        assert(forall|k: int|
            0 <= k < existing.deep_view().len() ==> existing.deep_view()[k] == existing[k]@);
        false
    }

    /// Draws random codes, at most `draws` times, and gives the first that is
    /// not among the existing ones: well-formed and unused. Nothing comes back
    /// only if every draw was taken, so only where a well-formed code exists.
    pub fn generate(existing: &Vec<RoomCode>, draws: u64) -> (r: Option<RoomCode>)
        ensures
            r matches Some(code) ==> code.wf() && !existing.deep_view().contains(code@),
            draws == 0 ==> r is None,
            r is None ==> draws == 0 || holds_a_code(existing.deep_view()),
    {
        let mut left: u64 = draws;
        while left > 0
            invariant
                left <= draws,
                left < draws ==> holds_a_code(existing.deep_view()),
            decreases left,
        {
            let drawn = Self::candidate();
            let ghost text = drawn@;
            match drawn.if_free(existing) {
                Some(code) => {
                    return Some(code);
                },
                None => {
                    proof {
                        let codes = existing.deep_view();
                        let i = choose|i: int| 0 <= i < codes.len() && codes[i] == text;
                        assert(is_code(codes[i]));
                    }
                },
            }
            left -= 1;
        }
        None
    }

    /// This code if it is not among the existing ones, else nothing.
    pub fn if_free(self, existing: &Vec<RoomCode>) -> (r: Option<RoomCode>)
        ensures
            r is Some <==> !existing.deep_view().contains(self@),
            r matches Some(code) ==> code == self,
    {
        if self.is_among(existing) {
            None
        } else {
            Some(self)
        }
    }
}

/// Whether a list of texts holds a well-formed room code.
pub open spec fn holds_a_code(existing: Seq<Seq<char>>) -> bool {
    exists|i: int| 0 <= i < existing.len() && is_code(#[trigger] existing[i])
}

/// Uppercase text reads as a code where the text did, and stays as it is
/// when put in uppercase again.
pub proof fn lemma_upper_twice(text: Seq<char>)
    requires
        reads_as_code(text),
    ensures
        reads_as_code(upper(text)),
        upper(upper(text)) == upper(text),
{
    assert forall|i: int| 0 <= i < 4 implies is_alnum(
        #[trigger] upper(text)[i],
    ) && ascii_upper(upper(text)[i]) == upper(text)[i] by {
        let c = text[i];
        assert(is_alnum(c));
        if 'a' <= c && c <= 'z' {
            assert(97 <= c as u8 <= 122);
            assert('A' <= ((c as u8) - 32) as char <= 'Z');
        }
    }
    assert(upper(upper(text)) =~= upper(text));
}

/// A room code reads as a code and is its own uppercase form, so a room
/// is found again under the code it was given.
pub proof fn lemma_code_names_itself(code: RoomCode)
    requires
        code.wf(),
    ensures
        reads_as_code(code@),
        upper(code@) == code@,
{
    assert forall|i: int| 0 <= i < 4 implies is_alnum(#[trigger] code@[i]) && ascii_upper(
        code@[i],
    ) == code@[i] by {
        assert(is_code_char(code@[i]));
    }
    assert(upper(code@) =~= code@);
}

} // verus!
