//! Text as the consoles store it: UTF-16, low byte first.

use crate::wire::{le16, le16_at};
use vstd::prelude::*;

verus! {

/// Whether a code unit opens a surrogate pair.
pub open spec fn leads(unit: u16) -> bool {
    0xd800 <= unit < 0xdc00
}

/// Whether a code unit closes a surrogate pair.
pub open spec fn trails(unit: u16) -> bool {
    0xdc00 <= unit < 0xe000
}

/// Whether the bytes are well-formed UTF-16, low byte first: whole code units, every surrogate in a
/// pair.
pub open spec fn utf16_valid(bytes: Seq<u8>) -> bool
    decreases bytes.len(),
{
    if bytes.len() < 2 {
        bytes.len() == 0
    } else if leads(le16_at(bytes, 0)) {
        bytes.len() >= 4 && trails(le16_at(bytes, 2)) && utf16_valid(bytes.skip(4))
    } else {
        !trails(le16_at(bytes, 0)) && utf16_valid(bytes.skip(2))
    }
}

/// The character that a surrogate pair stands for.
pub open spec fn pair_char(lead: u16, trail: u16) -> char {
    (0x1_0000 + (lead - 0xd800) * 0x400 + (trail - 0xdc00)) as char
}

/// The text that well-formed UTF-16 holds.
pub open spec fn utf16_decoded(bytes: Seq<u8>) -> Seq<char>
    decreases bytes.len(),
{
    if bytes.len() < 2 {
        Seq::empty()
    } else if leads(le16_at(bytes, 0)) && bytes.len() >= 4 {
        seq![pair_char(le16_at(bytes, 0), le16_at(bytes, 2))] + utf16_decoded(bytes.skip(4))
    } else {
        seq![le16_at(bytes, 0) as char] + utf16_decoded(bytes.skip(2))
    }
}

/// One character in UTF-16, low byte first.
pub open spec fn utf16_of_char(c: char) -> Seq<u8> {
    let code = c as int;
    if code < 0x1_0000 {
        le16(code as u16)
    } else {
        le16((0xd800 + (code - 0x1_0000) / 0x400) as u16) + le16(
            (0xdc00 + (code - 0x1_0000) % 0x400) as u16,
        )
    }
}

/// A text in UTF-16, low byte first.
pub open spec fn utf16_encoded(text: Seq<char>) -> Seq<u8>
    decreases text.len(),
{
    if text.len() == 0 {
        Seq::empty()
    } else {
        utf16_of_char(text[0]) + utf16_encoded(text.skip(1))
    }
}

/// `utf16string::WString::from_utf16le`: accepts exactly the well-formed byte strings and keeps
/// their bytes as they are.
#[verifier::external_body]
fn checked_utf16(bytes: Vec<u8>) -> (checked: Option<Vec<u8>>)
    ensures
        checked is Some <==> utf16_valid(bytes@),
        checked matches Some(kept) ==> kept@ == bytes@,
{
    match utf16string::WString::from_utf16le(bytes) {
        Ok(string) => Some(string.into_bytes()),
        Err(_) => None,
    }
}

/// `utf16string::WString::from` on a string slice: the text's characters in UTF-16, one after the
/// other.
#[verifier::external_body]
fn encoded_utf16(text: &str) -> (bytes: Vec<u8>)
    ensures
        bytes@ == utf16_encoded(text@),
{
    utf16string::WString::<byteorder::LittleEndian>::from(text).into_bytes()
}

/// `utf16string::WStr::to_utf8`: the text that the bytes hold. The bytes are well-formed, without
/// which no `WStr` of them can be made.
#[verifier::external_body]
fn decoded_utf16(bytes: &[u8]) -> (text: String)
    requires
        utf16_valid(bytes@),
    ensures
        text@ == utf16_decoded(bytes@),
{
    utf16string::WStr::from_utf16le(bytes).unwrap().to_utf8()
}

/// A name or a message of a console: well-formed UTF-16, low byte first.
#[derive(PartialEq, Eq, Hash, Debug)]
pub struct WStringWrapper {
    bytes: Vec<u8>,
}

impl View for WStringWrapper {
    type V = Seq<u8>;

    closed spec fn view(&self) -> Seq<u8> {
        self.bytes@
    }
}

impl WStringWrapper {
    #[verifier::type_invariant]
    spec fn well_formed(self) -> bool {
        utf16_valid(self.bytes@)
    }

    /// The string that the bytes spell, or nothing where they are not well-formed.
    pub fn from_utf16le(bytes: Vec<u8>) -> (string: Option<Self>)
        ensures
            string is Some <==> utf16_valid(bytes@),
            string matches Some(s) ==> s@ == bytes@,
    {
        match checked_utf16(bytes) {
            Some(bytes) => Some(WStringWrapper { bytes }),
            None => None,
        }
    }

    /// The bytes of the string.
    pub fn as_bytes(&self) -> (bytes: &[u8])
        ensures
            bytes@ == self@,
            utf16_valid(bytes@),
    {
        proof {
            use_type_invariant(self);
        }
        self.bytes.as_slice()
    }

    /// The text that the string holds.
    pub fn to_utf8(&self) -> (text: String)
        ensures
            text@ == utf16_decoded(self@),
    {
        proof {
            use_type_invariant(self);
        }
        decoded_utf16(self.bytes.as_slice())
    }

    /// A string of the given text.
    pub fn from_text(text: &str) -> (string: Self)
        ensures
            string@ == utf16_encoded(text@),
    {
        let bytes = encoded_utf16(text);
        proof {
            law_text_round_trip(text@);
        }
        WStringWrapper { bytes }
    }
}

impl Clone for WStringWrapper {
    fn clone(&self) -> (copy: Self)
        ensures
            copy@ == self@,
    {
        proof {
            use_type_invariant(self);
        }
        let mut bytes: Vec<u8> = Vec::new();
        bytes.extend_from_slice(self.bytes.as_slice());
        assert(bytes@ =~= self.bytes@);
        WStringWrapper { bytes }
    }
}

/// One encoded character in front of well-formed text gives well-formed text that reads back as
/// that character and the rest.
proof fn lemma_char_in_front(c: char, rest: Seq<u8>)
    requires
        utf16_valid(rest),
    ensures
        utf16_valid(utf16_of_char(c) + rest),
        utf16_decoded(utf16_of_char(c) + rest) == seq![c] + utf16_decoded(rest),
{
    let whole = utf16_of_char(c) + rest;
    let code = c as int;
    if code < 0x1_0000 {
        assert(whole.skip(2) =~= rest);
        assert(le16_at(whole, 0) == code);
    } else {
        let lead = (0xd800 + (code - 0x1_0000) / 0x400) as u16;
        let trail = (0xdc00 + (code - 0x1_0000) % 0x400) as u16;
        assert(whole.skip(4) =~= rest);
        assert(le16_at(whole, 0) == lead);
        assert(le16_at(whole, 2) == trail);
        assert(pair_char(lead, trail) == c);
    }
}

/// Encoding a text gives well-formed UTF-16, and decoding it gives the text back.
pub proof fn law_text_round_trip(text: Seq<char>)
    ensures
        utf16_valid(utf16_encoded(text)),
        utf16_decoded(utf16_encoded(text)) == text,
    decreases text.len(),
{
    if text.len() > 0 {
        law_text_round_trip(text.skip(1));
        lemma_char_in_front(text[0], utf16_encoded(text.skip(1)));
        assert(seq![text[0]] + text.skip(1) =~= text);
    }
}

/// Zero bytes in pairs are well-formed after well-formed text, so a padded field stays readable.
pub proof fn law_padding_keeps_text_valid(bytes: Seq<u8>, pairs: nat)
    requires
        utf16_valid(bytes),
    ensures
        utf16_valid(bytes + crate::wire::zeros(2 * pairs)),
    decreases bytes.len() + pairs,
{
    let padding = crate::wire::zeros(2 * pairs);
    let whole = bytes + padding;
    if bytes.len() == 0 {
        if pairs > 0 {
            law_padding_keeps_text_valid(bytes, (pairs - 1) as nat);
            assert(whole.skip(2) =~= bytes + crate::wire::zeros(2 * (pairs - 1) as nat));
            assert(le16_at(whole, 0) == 0);
        }
    } else if leads(le16_at(bytes, 0)) {
        law_padding_keeps_text_valid(bytes.skip(4), pairs);
        assert(whole.skip(4) =~= bytes.skip(4) + padding);
        assert(le16_at(whole, 0) == le16_at(bytes, 0));
        assert(le16_at(whole, 2) == le16_at(bytes, 2));
    } else {
        law_padding_keeps_text_valid(bytes.skip(2), pairs);
        assert(whole.skip(2) =~= bytes.skip(2) + padding);
        assert(le16_at(whole, 0) == le16_at(bytes, 0));
    }
}

} // verus!
