//! Commitment roots and prefixes: opaque byte strings that name the state
//! of a tree and the store that a path lives in.

use vstd::prelude::*;
use vstd::string::StringExecFns;
use vstd::utf8::{
    decode_utf8, encode_utf8, encode_utf8_decode_utf8, encode_utf8_valid_utf8, valid_utf8,
};

verus! {

/// The failure of `core::str::from_utf8`.
#[verifier::external_type_specification]
#[verifier::external_body]
pub struct ExUtf8Error(core::str::Utf8Error);

/// `core::str::from_utf8` gives the text whose UTF-8 encoding the bytes
/// are, and fails only on bytes that are no UTF-8 encoding.
pub assume_specification[ core::str::from_utf8 ](v: &[u8]) -> (res: Result<
    &str,
    core::str::Utf8Error,
>)
    ensures
        res matches Ok(text) ==> encode_utf8(text@) == v@,
        res is Err ==> !valid_utf8(v@),
;

/// The root hash of a tree at one point in time.
#[derive(Clone, Debug, PartialEq, Eq)]
pub struct CommitmentRoot {
    pub bytes: Vec<u8>,
}

impl View for CommitmentRoot {
    type V = Seq<u8>;

    open spec fn view(&self) -> Seq<u8> {
        self.bytes@
    }
}

impl CommitmentRoot {
    /// The root with the given bytes.
    pub fn from_bytes(bytes: &[u8]) -> (root: CommitmentRoot)
        ensures
            root@ == bytes@,
    {
        let mut copy: Vec<u8> = Vec::new();
        copy.extend_from_slice(bytes);
        CommitmentRoot { bytes: copy }
    }

    /// The bytes of the root.
    pub fn as_bytes(&self) -> (bytes: &[u8])
        ensures
            bytes@ == self@,
    {
        self.bytes.as_slice()
    }

    /// The bytes of the root, by value.
    pub fn into_vec(self) -> (bytes: Vec<u8>)
        ensures
            bytes == self.bytes,
    {
        self.bytes
    }
}

/// The name of a store, as bytes.
#[derive(Clone, Debug, PartialEq, Eq)]
pub struct CommitmentPrefix {
    pub bytes: Vec<u8>,
}

impl View for CommitmentPrefix {
    type V = Seq<u8>;

    open spec fn view(&self) -> Seq<u8> {
        self.bytes@
    }
}

/// A decimal digit as text.
pub open spec fn digit_text(digit: u8) -> Seq<char> {
    if digit == 0 {
        "0"@
    } else if digit == 1 {
        "1"@
    } else if digit == 2 {
        "2"@
    } else if digit == 3 {
        "3"@
    } else if digit == 4 {
        "4"@
    } else if digit == 5 {
        "5"@
    } else if digit == 6 {
        "6"@
    } else if digit == 7 {
        "7"@
    } else if digit == 8 {
        "8"@
    } else {
        "9"@
    }
}

/// A byte in decimal, without leading zeros.
pub open spec fn decimal_text(byte: u8) -> Seq<char> {
    if byte >= 100 {
        digit_text(byte / 100) + digit_text((byte / 10) % 10) + digit_text(byte % 10)
    } else if byte >= 10 {
        digit_text(byte / 10) + digit_text(byte % 10)
    } else {
        digit_text(byte)
    }
}

/// Bytes in decimal, separated by a comma and a space.
pub open spec fn listed_text(bytes: Seq<u8>) -> Seq<char>
    decreases bytes.len(),
{
    if bytes.len() == 0 {
        Seq::empty()
    } else if bytes.len() == 1 {
        decimal_text(bytes[0])
    } else {
        listed_text(bytes.drop_last()) + ", "@ + decimal_text(bytes.last())
    }
}

/// How bytes that are no text are shown: as a list of numbers, marked as
/// not being UTF-8.
pub open spec fn undecodable_text(bytes: Seq<u8>) -> Seq<char> {
    "<not valid UTF8: ["@ + listed_text(bytes) + "]>"@
}

/// The text that stands for a prefix: the text that its bytes encode in
/// UTF-8 where they encode one, else the bytes shown as numbers.
pub open spec fn prefix_text(bytes: Seq<u8>) -> Seq<char> {
    if valid_utf8(bytes) {
        decode_utf8(bytes)
    } else {
        undecodable_text(bytes)
    }
}

fn digit_str(digit: u8) -> (text: &'static str)
    requires
        digit < 10,
    ensures
        text@ == digit_text(digit),
{
    if digit == 0 {
        "0"
    } else if digit == 1 {
        "1"
    } else if digit == 2 {
        "2"
    } else if digit == 3 {
        "3"
    } else if digit == 4 {
        "4"
    } else if digit == 5 {
        "5"
    } else if digit == 6 {
        "6"
    } else if digit == 7 {
        "7"
    } else if digit == 8 {
        "8"
    } else {
        "9"
    }
}

fn append_decimal(text: &mut String, byte: u8)
    ensures
        final(text)@ == old(text)@ + decimal_text(byte),
{
    if byte >= 100 {
        text.append(digit_str(byte / 100));
        text.append(digit_str((byte / 10) % 10));
        text.append(digit_str(byte % 10));
        assert(final(text)@ =~= old(text)@ + decimal_text(byte));
    } else if byte >= 10 {
        text.append(digit_str(byte / 10));
        text.append(digit_str(byte % 10));
        assert(final(text)@ =~= old(text)@ + decimal_text(byte));
    } else {
        text.append(digit_str(byte));
    }
}

/// Shows bytes that are no text.
pub fn show_undecodable(bytes: &[u8]) -> (text: String)
    ensures
        text@ == undecodable_text(bytes@),
{
    let mut text: String = String::from_str("<not valid UTF8: [");
    let mut i: usize = 0;
    assert(bytes@.take(0) =~= Seq::<u8>::empty());
    assert(text@ =~= "<not valid UTF8: ["@ + listed_text(bytes@.take(0)));
    while i < bytes.len()
        invariant
            i <= bytes@.len(),
            text@ == "<not valid UTF8: ["@ + listed_text(bytes@.take(i as int)),
        decreases bytes@.len() - i,
    {
        let ghost shown = bytes@.take(i as int);
        let ghost next = bytes@.take(i + 1);
        assert(next.drop_last() =~= shown);
        assert(next.last() == bytes@[i as int]);
        if i > 0 {
            text.append(", ");
        }
        append_decimal(&mut text, bytes[i]);
        assert(text@ =~= "<not valid UTF8: ["@ + listed_text(next));
        i += 1;
    }
    assert(bytes@.take(bytes@.len() as int) =~= bytes@);
    text.append("]>");
    text
}

impl CommitmentPrefix {
    /// The prefix with the given bytes.
    pub fn from_bytes(bytes: Vec<u8>) -> (prefix: CommitmentPrefix)
        ensures
            prefix@ == bytes@,
    {
        CommitmentPrefix { bytes }
    }

    /// The bytes of the prefix.
    pub fn as_bytes(&self) -> (bytes: &[u8])
        ensures
            bytes@ == self@,
    {
        self.bytes.as_slice()
    }

    /// The bytes of the prefix, by value.
    pub fn into_vec(self) -> (bytes: Vec<u8>)
        ensures
            bytes == self.bytes,
    {
        self.bytes
    }

    /// Whether the prefix has no bytes.
    pub fn is_empty(&self) -> (empty: bool)
        ensures
            empty == (self@.len() == 0),
    {
        self.bytes.len() == 0
    }

    /// The text that stands for the prefix.
    pub fn text(&self) -> (text: String)
        ensures
            text@ == prefix_text(self@),
    {
        match core::str::from_utf8(self.bytes.as_slice()) {
            Ok(decoded) => {
                proof {
                    encode_utf8_valid_utf8(decoded@);
                    encode_utf8_decode_utf8(decoded@);
                }
                String::from_str(decoded)
            },
            Err(_) => show_undecodable(self.bytes.as_slice()),
        }
    }
}

} // verus!
