//! The stream codec: frames out of a growing buffer of received octets, and
//! frames into octets to send.
use crate::error::Error;
use crate::frame::{Frame, FrameView};
use crate::hdlc::{frame_bounds, hdlc_bytes, hdlc_decoded, lemma_frame_bounds_unique, HdlcLiteFrame};
use vstd::prelude::*;

verus! {

/// Turns a stream of octets into Spinel frames and back, with HDLC-Lite framing.
#[derive(Debug, Default)]
pub struct HdlcCodec;

/// The view of what one decoding step gives.
pub open spec fn step_view(r: Result<Option<Frame>, Error>) -> Result<Option<FrameView>, Error> {
    match r {
        Ok(Some(f)) => Ok(Some(f@)),
        Ok(None) => Ok(None),
        Err(e) => Err(e),
    }
}

/// What decoding the frame between `s` and `e` gives, as a step.
pub open spec fn step_decoded(b: Seq<u8>, s: int, e: int) -> Result<Option<FrameView>, Error> {
    match hdlc_decoded(b.subrange(s, e + 1)) {
        Ok(f) => Ok(Some(f)),
        Err(err) => Err(err),
    }
}

impl HdlcCodec {
    /// Encode `item` and append it to `dst`.
    pub fn encode(&mut self, item: Frame, dst: &mut Vec<u8>) -> (r: Result<(), Error>)
        ensures
            r is Ok,
            final(dst)@ == old(dst)@ + hdlc_bytes(item@),
    {
        let hdlc_frame = HdlcLiteFrame::new(item);
        hdlc_frame.encode(dst)
    }

    /// Take the first whole frame out of `src` and decode it. Without a whole
    /// frame, `src` stays as it is and the result is `Ok(None)`. Otherwise
    /// everything up to the frame's closing delimiter leaves `src`, and the
    /// result is the decoded frame or the error that decoding it gave.
    pub fn decode(&mut self, src: &mut Vec<u8>) -> (r: Result<Option<Frame>, Error>)
        ensures
            (forall|s: int, e: int| !frame_bounds(old(src)@, s, e)) ==> (r matches Ok(None)
                && final(src)@ == old(src)@),
            forall|s: int, e: int|
                frame_bounds(old(src)@, s, e) ==> final(src)@ == old(src)@.skip(e + 1)
                    && step_view(r) == step_decoded(old(src)@, s, e),
    {
        if src.len() == 0 {
            return Ok(None);
        }
        match HdlcLiteFrame::find_frame(src.as_slice()) {
            None => Ok(None),
            Some((start, end)) => {
                let decoded = HdlcLiteFrame::decode(&src.as_slice()[start..end + 1]);
                let ghost before = src@;
                let rest = src.split_off(end + 1);
                *src = rest;
                proof {
                    assert forall|s: int, e: int| frame_bounds(before, s, e) implies s == start
                        && e == end by {
                        lemma_frame_bounds_unique(before, s, e, start as int, end as int);
                    }
                }
                match decoded {
                    Ok(f) => Ok(Some(f.into_inner())),
                    Err(e) => Err(e),
                }
            },
        }
    }
}

} // verus!
