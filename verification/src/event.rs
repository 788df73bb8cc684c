//! Filesystem change events, and the download transitions that they stand for.

use crate::decimal::{
    decimal_digits, law_decimal_round_trip, lemma_digits_denote, parse_identifier, read_number,
};
use crate::error::Error;
use crate::text::chars_of;
use vstd::prelude::*;
use vstd::string::StringSliceAdditionalSpecFns;
use vstd::utf8::{decode_utf8, encode_utf8_decode_utf8, valid_utf8};

verus! {

/// Bits of an event that reports that a watched entry was read.
pub const ACCESS: u32 = 0x0000_0001;

/// Bits of an event that reports that an entry opened for writing was closed.
pub const CLOSE_WRITE: u32 = 0x0000_0008;

/// Bits of an event that reports that an entry was created.
pub const CREATE: u32 = 0x0000_0100;

/// One change that the notification source reports.
pub struct Event<'a> {
    /// The name of the entry the change is about, as the bytes that the
    /// source gave, where it gave a name.
    pub name: Option<&'a [u8]>,
    /// The kinds of change, as the source's bit set.
    pub mask: u32,
}

/// A step in the life of one download.
#[derive(Clone, Copy, Debug, PartialEq, Eq, Structural)]
pub enum Transition {
    /// The download with this identifier is running.
    Start(usize),
    /// The download with this identifier paused or finished.
    Stop(usize),
}

/// The text that every state file's name begins with.
pub open spec fn state_prefix() -> Seq<char> {
    seq!['s', 't', 'a', 't', 'e', '_']
}

/// The length of the field that `text` begins with: the fields of a name are
/// separated by `_`.
pub open spec fn field_len(text: Seq<char>) -> nat
    decreases text.len(),
{
    if text.len() == 0 || text[0] == '_' {
        0
    } else {
        1 + field_len(text.skip(1))
    }
}

/// The field of `text` with index `k`, counted from zero, if `text` has that many.
pub open spec fn field(text: Seq<char>, k: nat) -> Option<Seq<char>>
    decreases k,
{
    let len = field_len(text) as int;
    if k == 0 {
        Some(text.take(len))
    } else if len < text.len() {
        field(text.skip(len + 1), (k - 1) as nat)
    } else {
        None
    }
}

/// The identifier that a file name carries: none where the name is no state
/// file's, and an error where it is one but its second field is missing or
/// is no identifier.
pub open spec fn identifier_of(name: Seq<char>) -> Result<Option<usize>, Error> {
    if !state_prefix().is_prefix_of(name) {
        Ok(None)
    } else {
        match field(name, 1) {
            Some(text) => match parse_identifier(text) {
                Some(id) => Ok(Some(id)),
                None => Err(Error::MalformedIdentifier),
            },
            None => Err(Error::MalformedIdentifier),
        }
    }
}

/// The transition that a change of the kinds in `mask` means for the
/// download `id`: a start where the entry was read or created, a stop where
/// it was closed after writing, none for any other set of kinds.
pub open spec fn transition_for(mask: u32, id: usize) -> Option<Transition> {
    if mask == ACCESS || mask == CREATE {
        Some(Transition::Start(id))
    } else if mask == CLOSE_WRITE {
        Some(Transition::Stop(id))
    } else {
        None
    }
}

/// The text that `bytes` are, where they are text: UTF-8.
pub open spec fn text_of(bytes: Seq<u8>) -> Option<Seq<char>> {
    if valid_utf8(bytes) {
        Some(decode_utf8(bytes))
    } else {
        None
    }
}

/// What an event means: nothing where it has no name or its name is no text.
/// The name is decoded before the kinds are looked at: a state file's name
/// without a proper identifier is an error whatever the change was.
pub open spec fn transition_of(name: Option<Seq<char>>, mask: u32) -> Result<
    Option<Transition>,
    Error,
> {
    match name {
        None => Ok(None),
        Some(text) => match identifier_of(text) {
            Err(e) => Err(e),
            Ok(None) => Ok(None),
            Ok(Some(id)) => Ok(transition_for(mask, id)),
        },
    }
}

/// A text without `_` before position `n`, which ends or has `_` there, begins
/// with a field of length `n`.
pub proof fn lemma_field_len(text: Seq<char>, n: int)
    requires
        0 <= n <= text.len(),
        forall|i: int| 0 <= i < n ==> text[i] != '_',
        n == text.len() || text[n] == '_',
    ensures
        field_len(text) == n,
    decreases n,
{
    if n > 0 {
        lemma_field_len(text.skip(1), n - 1);
    }
}

/// A name made by the convention carries the identifier it was made with:
/// the prefix, the identifier in decimal notation, and then either nothing or
/// `_` and anything.
pub proof fn law_state_file_names_its_download(id: usize, rest: Seq<char>)
    ensures
        identifier_of(state_prefix() + decimal_digits(id as nat)) == Ok::<Option<usize>, Error>(
            Some(id),
        ),
        identifier_of(state_prefix() + decimal_digits(id as nat) + seq!['_'] + rest) == Ok::<
            Option<usize>,
            Error,
        >(Some(id)),
{
    let digits = decimal_digits(id as nat);
    lemma_digits_denote(id as nat);
    law_decimal_round_trip(id);
    reveal_with_fuel(field, 2);
    let short = state_prefix() + digits;
    assert(state_prefix().is_prefix_of(short));
    lemma_field_len(short, 5);
    lemma_field_len(short.skip(6), digits.len() as int);
    assert(short.skip(6).take(digits.len() as int) =~= digits);
    let long = state_prefix() + digits + seq!['_'] + rest;
    assert(state_prefix().is_prefix_of(long));
    lemma_field_len(long, 5);
    lemma_field_len(long.skip(6), digits.len() as int);
    assert(long.skip(6).take(digits.len() as int) =~= digits);
}

/// Finds the identifier in a file name.
pub fn identifier(name: &str) -> (r: Result<Option<usize>, Error>)
    ensures
        r == identifier_of(name@),
{
    let chars = chars_of(name);
    let n = chars.len();
    if n < 6 || chars[0] != 's' || chars[1] != 't' || chars[2] != 'a' || chars[3] != 't'
        || chars[4] != 'e' || chars[5] != '_' {
        return Ok(None);
    }
    assert(state_prefix().is_prefix_of(name@)) by {
        assert(name@.subrange(0, 6) =~= state_prefix());
    }
    let mut end: usize = 6;
    while end < n && chars[end] != '_'
        invariant
            6 <= end <= n == chars.len(),
            forall|i: int| 6 <= i < end ==> chars[i] != '_',
        decreases n - end,
    {
        end = end + 1;
    }
    proof {
        let rest = name@.skip(6);
        lemma_field_len(name@, 5);
        lemma_field_len(rest, end - 6);
        assert(rest.take(end - 6) =~= chars@.subrange(6, end as int));
        reveal_with_fuel(field, 2);
    }
    match read_number(&chars, 6, end) {
        Some(id) => Ok(Some(id)),
        None => Err(Error::MalformedIdentifier),
    }
}

/// `inotify::EventMask::bits` of the flag `EventMask::ACCESS`. The crate
/// defines the flag as the kernel's `IN_ACCESS`, which is 0x1, and `bits`
/// gives a flag's number as it is.
#[verifier::external_body]
fn access_bits() -> (bits: u32)
    ensures
        bits == ACCESS,
{
    inotify::EventMask::ACCESS.bits()
}

/// `inotify::EventMask::bits` of the flag `EventMask::CREATE`. The crate
/// defines the flag as the kernel's `IN_CREATE`, which is 0x100, and `bits`
/// gives a flag's number as it is.
#[verifier::external_body]
fn create_bits() -> (bits: u32)
    ensures
        bits == CREATE,
{
    inotify::EventMask::CREATE.bits()
}

/// `inotify::EventMask::bits` of the flag `EventMask::CLOSE_WRITE`. The
/// crate defines the flag as the kernel's `IN_CLOSE_WRITE`, which is 0x8, and
/// `bits` gives a flag's number as it is.
#[verifier::external_body]
fn close_write_bits() -> (bits: u32)
    ensures
        bits == CLOSE_WRITE,
{
    inotify::EventMask::CLOSE_WRITE.bits()
}

/// Tells what a change of the kinds in `mask` means for the download `id`.
pub fn classify(mask: u32, id: usize) -> (r: Option<Transition>)
    ensures
        r == transition_for(mask, id),
{
    if mask == access_bits() || mask == create_bits() {
        Some(Transition::Start(id))
    } else if mask == close_write_bits() {
        Some(Transition::Stop(id))
    } else {
        None
    }
}

/// `core::str::from_utf8`, its error dropped. It gives the bytes as text
/// where they are well-formed UTF-8, and fails where they are not; the text
/// is made of the very bytes.
#[verifier::external_body]
fn from_utf8<'a>(bytes: &'a [u8]) -> (text: Option<&'a str>)
    ensures
        text is Some <==> valid_utf8(bytes@),
        text matches Some(s) ==> s.spec_bytes() == bytes@,
{
    core::str::from_utf8(bytes).ok()
}

/// Reads a name as text.
pub fn name_text<'a>(bytes: &'a [u8]) -> (text: Option<&'a str>)
    ensures
        match text {
            Some(s) => text_of(bytes@) == Some(s@),
            None => text_of(bytes@) is None,
        },
{
    let text = from_utf8(bytes);
    proof {
        if let Some(s) = text {
            encode_utf8_decode_utf8(s@);
        }
    }
    text
}

impl<'a> Event<'a> {
    /// The name as text, where the event has a name and it is text.
    pub open spec fn name_view(&self) -> Option<Seq<char>> {
        match self.name {
            Some(bytes) => text_of(bytes@),
            None => None,
        }
    }

    /// Decodes the event.
    pub fn transition(&self) -> (r: Result<Option<Transition>, Error>)
        ensures
            r == transition_of(self.name_view(), self.mask),
    {
        let id = match self.name {
            None => {
                return Ok(None);
            },
            Some(bytes) => match name_text(bytes) {
                None => {
                    return Ok(None);
                },
                Some(text) => match identifier(text) {
                    Err(e) => {
                        return Err(e);
                    },
                    Ok(None) => {
                        return Ok(None);
                    },
                    Ok(Some(id)) => id,
                },
            },
        };
        Ok(classify(self.mask, id))
    }
}

} // verus!
