//! The segment table in front of a segment, written and read by the `capnp`
//! crate.

use crate::capnproto::layout::{frame, frameable, is_frame};
use crate::capnproto::layout_proofs::lemma_frame;
use vstd::prelude::*;

verus! {

/// Calls `capnp::serialize::write_message_segments` on a message of one
/// segment, with a vector to write to. What is written is the segment table
/// of one segment, which gives its length in words, and the segment.
#[verifier::external_body]
pub(crate) fn write_segment(segment: &[u8]) -> (bytes: Vec<u8>)
    requires
        segment@.len() / 8 <= u32::MAX,
    ensures
        bytes@ == frame(segment@),
{
    let mut bytes = Vec::new();
    capnp::serialize::write_message_segments(&mut bytes, &vec![segment]).expect(
        "writing to a vector does not fail",
    );
    bytes
}

/// Calls `capnp::serialize::read_message` with the reader's default options
/// and hands out the number of segments that were read and the first of
/// them, or `None` where the reader refused the buffer. Of a message of one
/// segment the contract says that the buffer starts with the segment table
/// of that segment and the segment, and that the segment is of whole words
/// and within the reader's limit. A buffer that is such a table and segment
/// and nothing else is read, and as one segment.
#[verifier::external_body]
pub(crate) fn read_segments(bytes: &[u8]) -> (read: Option<(usize, Option<Vec<u8>>)>)
    ensures
        match read {
            Some((count, first)) => {
                &&& count == 1 ==> first is Some && frameable(first->Some_0@) && frame(
                    first->Some_0@,
                ).is_prefix_of(bytes@)
                &&& is_frame(bytes@) ==> count == 1 && first is Some && first->Some_0@
                    == bytes@.subrange(8, bytes@.len() as int)
            },
            None => !is_frame(bytes@),
        },
{
    let options = capnp::message::ReaderOptions::new();
    let segments = capnp::serialize::read_message(bytes, options).ok()?.into_segments();
    let count = capnp::message::ReaderSegments::len(&segments);
    let first = capnp::message::ReaderSegments::get_segment(&segments, 0);
    Some((count, first.map(|segment| segment.to_vec())))
}

/// Takes the one segment out of a buffer that is a framed segment and
/// nothing else.
pub(crate) fn unframe(bytes: &[u8]) -> (segment: Option<Vec<u8>>)
    ensures
        match segment {
            Some(s) => is_frame(bytes@) && s@ == bytes@.subrange(8, bytes@.len() as int),
            None => !is_frame(bytes@),
        },
{
    match read_segments(bytes) {
        Some((count, first)) => {
            if count != 1 {
                return None;
            }
            match first {
                Some(segment) => {
                    if segment.len() > bytes.len() || bytes.len() - segment.len() != 8 {
                        return None;
                    }
                    proof {
                        lemma_frame(segment@);
                        assert(bytes@.subrange(0, 8 + segment@.len() as int) =~= bytes@);
                    }
                    Some(segment)
                },
                None => None,
            }
        },
        None => None,
    }
}

} // verus!
