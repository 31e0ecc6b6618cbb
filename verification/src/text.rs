//! Reading text: bytes become a string only as a whole, and only if they are
//! UTF-8.

use vstd::prelude::*;
use vstd::string::*;
use vstd::utf8::*;

use crate::error::Error;

verus! {

/// The bytes as a string slice, if they are UTF-8.
///
/// Calls `core::str::from_utf8`. Trusted: it succeeds exactly on bytes that
/// are valid UTF-8, and the slice that it returns is made of these bytes.
#[verifier::external_body]
fn checked_str(bytes: &[u8]) -> (checked: Option<&str>)
    ensures
        checked is Some <==> valid_utf8(bytes@),
        checked matches Some(s) ==> s.spec_bytes() == bytes@,
{
    core::str::from_utf8(bytes).ok()
}

/// Appends `appended` to `text` if it is UTF-8, whether or not reading it
/// ended well, and answers with `reply`, the outcome of reading it. If it is
/// not, `text` stays as it is, and a read that ended well is answered with
/// [`Error::InvalidData`].
pub fn append_to_string<E>(
    text: &mut String,
    appended: &[u8],
    reply: Result<usize, Error<E>>,
) -> (answer: Result<usize, Error<E>>)
    ensures
        valid_utf8(appended@) ==> {
            &&& final(text)@ == old(text)@ + decode_utf8(appended@)
            &&& answer == reply
        },
        !valid_utf8(appended@) ==> {
            &&& final(text)@ == old(text)@
            &&& answer == match reply {
                Ok(_) => Err::<usize, Error<E>>(Error::InvalidData),
                Err(e) => Err(e),
            }
        },
{
    match checked_str(appended) {
        Some(s) => {
            proof {
                encode_utf8_decode_utf8(s@);
            }
            text.append(s);
            reply
        },
        None => match reply {
            Ok(_) => Err(Error::InvalidData),
            Err(e) => Err(e),
        },
    }
}

/// Ends reading a string to the end of the input: `bytes` is all that was
/// read, `reply` how reading it ended.
///
/// An empty `text` takes what was read even if the input failed after it, as
/// [`append_to_string`] does. Any other `text` changes only if reading ended
/// well; the answer is then the number of bytes that were appended.
pub fn read_to_string<E>(
    text: &mut String,
    bytes: &[u8],
    reply: Result<usize, Error<E>>,
) -> (answer: Result<usize, Error<E>>)
    ensures
        final(text)@ == if valid_utf8(bytes@) && (old(text)@.len() == 0 || reply is Ok) {
            old(text)@ + decode_utf8(bytes@)
        } else {
            old(text)@
        },
        answer == match reply {
            Err(e) => Err::<usize, Error<E>>(e),
            Ok(n) => if !valid_utf8(bytes@) {
                Err(Error::InvalidData)
            } else if old(text)@.len() == 0 {
                Ok(n)
            } else {
                Ok(bytes@.len() as usize)
            },
        },
{
    if text.as_str().is_empty() {
        append_to_string(text, bytes, reply)
    } else {
        match reply {
            Err(e) => Err(e),
            Ok(_) => match checked_str(bytes) {
                Some(s) => {
                    proof {
                        encode_utf8_decode_utf8(s@);
                    }
                    text.append(s);
                    Ok(bytes.len())
                },
                None => Err(Error::InvalidData),
            },
        }
    }
}

} // verus!
