//! What the calls that end reading text do, and what an error says of itself,
//! said of the calls: of what goes into them and what comes out.

use vstd::prelude::*;
use vstd::utf8::*;

use crate::error::{Error, ErrorKind};
use crate::text;

verus! {

/// The bytes of two texts, one after the other, are those of the one followed by
/// those of the other.
proof fn lemma_encode_both(a: Seq<char>, b: Seq<char>)
    ensures
        encode_utf8(a + b) == encode_utf8(a) + encode_utf8(b),
    decreases a.len(),
{
    if a.len() == 0 {
        assert(a + b == b);
    } else {
        assert((a + b).drop_first() == a.drop_first() + b);
        lemma_encode_both(a.drop_first(), b);
    }
}

/// To append to a text adds all the bytes or none: all if and only if they are
/// UTF-8, whether or not reading them ended well. The answer is how reading them
/// ended, but for bytes that are none and whose reading ended well.
pub proof fn append_adds_all_or_nothing<E>(
    text: &mut String,
    appended: &[u8],
    reply: Result<usize, Error<E>>,
    answer: Result<usize, Error<E>>,
)
    requires
        call_ensures(text::append_to_string::<E>, (text, appended, reply), answer),
    ensures
        valid_utf8(appended@) ==> encode_utf8(final(text)@) == encode_utf8(old(text)@)
            + appended@,
        !valid_utf8(appended@) ==> final(text)@ == old(text)@,
        match (reply, answer) {
            (Ok(n), Ok(k)) => n == k && valid_utf8(appended@),
            (Ok(_), Err(e)) => e is InvalidData && !valid_utf8(appended@),
            (Err(e), Err(f)) => e == f,
            (Err(_), Ok(_)) => false,
        },
{
    if valid_utf8(appended@) {
        decode_utf8_encode_utf8(appended@);
        lemma_encode_both(old(text)@, decode_utf8(appended@));
    }
}

/// A string that is read to the end of the input has, if that succeeds, all its
/// earlier bytes and then all that were read, and the answer counts those if
/// reading them did. It fails if and only if reading the bytes failed, with the
/// same error, or if they are no UTF-8. A failure changes nothing in a string
/// that was not empty.
pub proof fn read_to_string_adds_all_or_nothing<E>(
    text: &mut String,
    bytes: &[u8],
    reply: Result<usize, Error<E>>,
    answer: Result<usize, Error<E>>,
)
    requires
        call_ensures(text::read_to_string::<E>, (text, bytes, reply), answer),
    ensures
        match (reply, answer) {
            (Ok(n), Ok(k)) => {
                &&& valid_utf8(bytes@)
                &&& encode_utf8(final(text)@) == encode_utf8(old(text)@) + bytes@
                &&& old(text)@.len() == 0 ==> k == n
                &&& old(text)@.len() > 0 ==> k == bytes@.len()
                &&& n == bytes@.len() ==> k == bytes@.len()
            },
            (Ok(_), Err(e)) => {
                &&& e is InvalidData
                &&& !valid_utf8(bytes@)
                &&& final(text)@ == old(text)@
            },
            (Err(e), Err(f)) => {
                &&& e == f
                &&& old(text)@.len() > 0 || !valid_utf8(bytes@) ==> final(text)@ == old(text)@
                &&& old(text)@.len() == 0 && valid_utf8(bytes@) ==> encode_utf8(final(text)@)
                    == bytes@
            },
            (Err(_), Ok(_)) => false,
        },
{
    assert(bytes.len() == bytes@.len());
    if valid_utf8(bytes@) {
        decode_utf8_encode_utf8(bytes@);
        lemma_encode_both(old(text)@, decode_utf8(bytes@));
        assert(Seq::<char>::empty() + decode_utf8(bytes@) == decode_utf8(bytes@));
        if old(text)@.len() == 0 {
            assert(old(text)@ == Seq::<char>::empty());
        }
    }
}

/// Into an empty string, to read to the end is to append.
pub proof fn read_to_string_appends_to_an_empty_one<E>(
    text: &mut String,
    also: &mut String,
    bytes: &[u8],
    reply: Result<usize, Error<E>>,
    answer: Result<usize, Error<E>>,
    appended: Result<usize, Error<E>>,
)
    requires
        old(text)@.len() == 0,
        old(also)@ == old(text)@,
        call_ensures(text::read_to_string::<E>, (text, bytes, reply), answer),
        call_ensures(text::append_to_string::<E>, (also, bytes, reply), appended),
    ensures
        answer == appended,
        final(text)@ == final(also)@,
{
}

/// An error of the wrapped reader or writer has neither kind nor message here.
/// One that the buffers report has the kind of its own name, and a message but
/// where memory is short.
pub proof fn error_says_what_it_is<E>(
    e: &Error<E>,
    kind: Option<ErrorKind>,
    message: Option<&'static str>,
)
    requires
        call_ensures(Error::<E>::kind, (e,), kind),
        call_ensures(Error::<E>::message, (e,), message),
    ensures
        kind is None <==> *e is Inner,
        kind == Some(ErrorKind::WriteZero) <==> *e is WriteZero,
        kind == Some(ErrorKind::UnexpectedEof) <==> *e is UnexpectedEof,
        kind == Some(ErrorKind::InvalidData) <==> *e is InvalidData,
        kind == Some(ErrorKind::OutOfMemory) <==> *e is OutOfMemory,
        message is None <==> *e is Inner || *e is OutOfMemory,
        *e is WriteZero ==> message->0@ == "failed to write the buffered data"@,
        *e is UnexpectedEof ==> message->0@ == "failed to fill whole buffer"@,
        *e is InvalidData ==> message->0@ == "stream did not contain valid UTF-8"@,
{
}

} // verus!
