//! Null-terminated strings.
//!
//! Names are decoded strictly: a name that is not UTF-8 fails the parse, for
//! imported and exported names alike.

use crate::error::PeError;
use vstd::prelude::*;
use vstd::slice::{slice_subrange, slice_to_vec};
use vstd::utf8::{decode_utf8, valid_utf8};

verus! {

/// Whether `end` is the first zero byte of `data` at or after `start`.
pub open spec fn is_terminator(data: Seq<u8>, start: int, end: int) -> bool {
    &&& 0 <= start <= end < data.len()
    &&& data[end] == 0
    &&& forall|i: int| start <= i < end ==> data[i] != 0
}

/// The first zero byte of `data` at or after `start`, if there is one.
pub open spec fn terminator(data: Seq<u8>, start: int) -> Option<int> {
    if exists|end: int| is_terminator(data, start, end) {
        Some(choose|end: int| is_terminator(data, start, end))
    } else {
        None
    }
}

/// The string that starts at `start` and runs up to the first zero byte.
pub open spec fn null_terminated_string(data: Seq<u8>, start: int) -> Result<Seq<char>, PeError> {
    match terminator(data, start) {
        Some(end) => {
            let bytes = data.subrange(start, end);
            if valid_utf8(bytes) {
                Ok(decode_utf8(bytes))
            } else {
                Err(PeError::InvalidUtf8 { offset: start as u64, length: (end - start) as usize })
            }
        },
        None => Err(
            PeError::UnterminatedString {
                offset: start as u64,
                bytes_read: if start <= data.len() {
                    (data.len() - start) as usize
                } else {
                    0
                },
            },
        ),
    }
}

/// `String::from_utf8` of the standard library: it accepts exactly the byte
/// sequences that are well-formed UTF-8, and the string it gives holds the
/// characters that they encode.
#[verifier::external_body]
fn string_from_utf8(bytes: Vec<u8>) -> (r: Option<String>)
    ensures
        r is Some <==> valid_utf8(bytes@),
        r matches Some(s) ==> s@ == decode_utf8(bytes@),
{
    String::from_utf8(bytes).ok()
}

/// A string has at most one terminator.
pub proof fn lemma_terminator_is_unique(data: Seq<u8>, start: int, end: int)
    requires
        is_terminator(data, start, end),
    ensures
        terminator(data, start) == Some(end),
{
    let chosen = choose|e: int| is_terminator(data, start, e);
    assert(is_terminator(data, start, chosen));
    if chosen < end {
        assert(data[chosen] != 0);
    } else if end < chosen {
        assert(data[end] != 0);
    }
}

/// Reads the string that starts at `start_offset` and ends before the first
/// zero byte, and decodes it as UTF-8.
pub fn read_null_terminated_string(data: &[u8], start_offset: u64) -> (r: Result<String, PeError>)
    ensures
        match r {
            Ok(s) => null_terminated_string(data@, start_offset as int) == Ok::<
                Seq<char>,
                PeError,
            >(s@),
            Err(e) => null_terminated_string(data@, start_offset as int) == Err::<
                Seq<char>,
                PeError,
            >(e),
        },
{
    if start_offset > data.len() as u64 {
        return Err(PeError::UnterminatedString { offset: start_offset, bytes_read: 0 });
    }
    let start = start_offset as usize;
    let mut current = start;
    while current < data.len()
        invariant
            start == start_offset,
            start <= current <= data@.len(),
            forall|i: int| start <= i < current ==> data@[i] != 0,
        decreases data@.len() - current,
    {
        if data[current] == 0 {
            proof {
                lemma_terminator_is_unique(data@, start as int, current as int);
            }
            let bytes = slice_to_vec(slice_subrange(data, start, current));
            return match string_from_utf8(bytes) {
                Some(s) => Ok(s),
                None => Err(PeError::InvalidUtf8 { offset: start_offset, length: current - start }),
            };
        }
        current += 1;
    }
    Err(PeError::UnterminatedString { offset: start_offset, bytes_read: current - start })
}

} // verus!
