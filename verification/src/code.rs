//! Short codes and their random generator.

use vstd::prelude::*;

verus! {

/// Number of characters in a freshly generated short code.
pub const CODE_LENGTH: usize = 7;

/// The alphabet of generated codes: ASCII letters and digits.
pub open spec fn is_alphanumeric(c: char) -> bool {
    ('0' <= c && c <= '9') || ('A' <= c && c <= 'Z') || ('a' <= c && c <= 'z')
}

/// The same alphabet, on the bytes that the random source hands out.
pub open spec fn is_alphanumeric_byte(b: u8) -> bool {
    (0x30 <= b && b <= 0x39) || (0x41 <= b && b <= 0x5a) || (0x61 <= b && b <= 0x7a)
}

/// `s` has exactly `len` characters, all of them alphanumeric.
pub open spec fn is_code_text(s: Seq<char>, len: nat) -> bool {
    &&& s.len() == len
    &&& forall|i: int| 0 <= i < s.len() ==> is_alphanumeric(#[trigger] s[i])
}

/// The characters that a sequence of sampled bytes spells.
pub open spec fn spelled(samples: Seq<u8>) -> Seq<char> {
    Seq::new(samples.len(), |i: int| samples[i] as char)
}

/// `String::push` appends one character to the end of the string.
pub assume_specification[ String::push ](text: &mut String, ch: char)
    ensures
        final(text)@ == old(text)@.push(ch),
;

/// Draws one byte from `rand::distributions::Alphanumeric` with the
/// thread-local generator `rand::thread_rng()`. The distribution picks
/// uniformly from the 62 ASCII letters and digits, so all that is claimed is
/// that the byte is one of them; which one is left open, and two draws may
/// differ. The generator seeds itself from the operating system when a
/// thread first draws from it, and panics if that fails.
#[verifier::external_body]
fn sample_alphanumeric() -> (b: u8)
    ensures
        is_alphanumeric_byte(b),
{
    rand::Rng::sample(&mut rand::thread_rng(), rand::distributions::Alphanumeric)
}

/// A short identifier for a long URL: the key of the mapping.
#[derive(Debug)]
pub struct ShortCode {
    text: String,
}

impl View for ShortCode {
    type V = Seq<char>;

    closed spec fn view(&self) -> Seq<char> {
        self.text@
    }
}

impl Clone for ShortCode {
    fn clone(&self) -> (code: ShortCode)
        ensures
            code@ == self@,
    {
        ShortCode { text: self.text.clone() }
    }
}

impl PartialEq for ShortCode {
    fn eq(&self, other: &ShortCode) -> (same: bool) {
        self.text == other.text
    }
}

impl Eq for ShortCode {

}

impl vstd::std_specs::cmp::PartialEqSpecImpl for ShortCode {
    open spec fn obeys_eq_spec() -> bool {
        true
    }

    open spec fn eq_spec(&self, other: &ShortCode) -> bool {
        self@ == other@
    }
}

impl ShortCode {
    /// A fresh random code of `CODE_LENGTH` alphanumeric characters.
    ///
    /// The code is not checked against any mapping: two calls may return the
    /// same code.
    pub fn new() -> (code: ShortCode)
        ensures
            is_code_text(code@, CODE_LENGTH as nat),
    {
        ShortCode::with_length(CODE_LENGTH)
    }

    /// A fresh random code of `len` alphanumeric characters.
    pub fn with_length(len: usize) -> (code: ShortCode)
        ensures
            is_code_text(code@, len as nat),
    {
        let mut samples: Vec<u8> = Vec::new();
        while samples.len() < len
            invariant
                samples@.len() <= len,
                forall|j: int| 0 <= j < samples@.len() ==> is_alphanumeric_byte(#[trigger] samples@[j]),
            decreases len - samples@.len(),
        {
            let b = sample_alphanumeric();
            samples.push(b);
        }
        ShortCode::from_samples(&samples)
    }

    /// The code that the sampled bytes spell, one character for each byte.
    pub fn from_samples(samples: &Vec<u8>) -> (code: ShortCode)
        ensures
            code@ == spelled(samples@),
    {
        let mut text = String::new();
        let mut i: usize = 0;
        while i < samples.len()
            invariant
                i <= samples@.len(),
                text@ == spelled(samples@.take(i as int)),
            decreases samples@.len() - i,
        {
            text.push(samples[i] as char);
            i += 1;
            assert(spelled(samples@.take(i as int)) =~= spelled(samples@.take(i - 1)).push(
                samples@[i - 1] as char,
            ));
        }
        ShortCode { text }
    }

    /// The code that `text` spells, taken as it is.
    pub fn from_text(text: String) -> (code: ShortCode)
        ensures
            code@ == text@,
    {
        ShortCode { text }
    }

    /// The characters of the code, owned.
    pub fn into_string(self) -> (text: String)
        ensures
            text@ == self@,
    {
        self.text
    }

    /// The characters of the code.
    pub fn as_str(&self) -> (text: &str)
        ensures
            text@ == self@,
    {
        self.text.as_str()
    }
}

} // verus!
