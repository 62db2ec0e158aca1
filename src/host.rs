//! The decisions of the host connection: which transaction identifier a
//! request gets, which requests await a reply, and where each frame from the
//! device goes. The task that owns the transport performs what these decide.
use crate::command::{Command, CommandView};
use crate::error::Error;
use crate::frame::{frame_status, Frame, FrameView, Header};
use crate::packed::{packed_count, packed_value, PackedU32};
use crate::property::{Property, PropertyStream};
use crate::status::{reset_of_code, ResetReason, Status};
use vstd::prelude::*;

verus! {

/// The first transaction identifier, after start-up and after a reset. Zero
/// is kept for frames that expect no reply.
pub const TID_START: u8 = 1;

/// The last transaction identifier before the counter wraps to `TID_START`.
pub const TID_LAST: u8 = 15;

/// The transaction identifier that follows `t`.
pub open spec fn next_tid(t: u8) -> u8 {
    if t == TID_LAST {
        TID_START
    } else {
        (t + 1) as u8
    }
}

/// Where a frame from the device goes.
#[derive(Clone, Copy, Debug, PartialEq, Eq, Structural)]
pub enum Route {
    /// A reset announcement: the requests that awaited a reply are dropped and
    /// the frame goes to the reset subscribers.
    Reset(ResetReason),
    /// A value of a stream property: the frame goes to that stream's subscribers.
    Stream(PropertyStream),
    /// The reply to the request with this transaction identifier.
    Reply(u8),
    /// A reply with a transaction identifier that no request awaits.
    Stray(u8),
    /// An unsolicited frame that no subscriber takes.
    Unhandled,
}

/// The reset reason that a `LastStatus` value announces, if it holds one.
pub open spec fn payload_reset(payload: Seq<u8>) -> Option<ResetReason> {
    if packed_count(payload) > 0 {
        reset_of_code(packed_value(payload))
    } else {
        None
    }
}

/// Where an unsolicited frame (transaction identifier zero) goes.
pub open spec fn broadcast_route(c: CommandView) -> Route {
    match c {
        CommandView::ValueIs(Property::LastStatus, payload) => match payload_reset(payload) {
            Some(reason) => Route::Reset(reason),
            None => Route::Unhandled,
        },
        CommandView::ValueIs(Property::Stream(stream), _) => Route::Stream(stream),
        _ => Route::Unhandled,
    }
}

/// The state of a host connection.
pub struct HostState {
    iid: u8,
    tid: u8,
    pending: Vec<bool>,
}

/// What a [`HostState`] holds: the instance identifier, the transaction
/// identifier that the next request gets, and those that await a reply.
pub struct HostView {
    pub iid: u8,
    pub tid: u8,
    pub pending: Set<u8>,
}

impl View for HostState {
    type V = HostView;

    closed spec fn view(&self) -> HostView {
        HostView {
            iid: self.iid,
            tid: self.tid,
            pending: Set::new(|t: u8| TID_START <= t <= TID_LAST && self.pending@[t as int]),
        }
    }
}

/// A copy of `flags` with the flag at `i` set to `value`.
fn with_flag(flags: &Vec<bool>, i: usize, value: bool) -> (r: Vec<bool>)
    requires
        i < flags@.len(),
    ensures
        r@ == flags@.update(i as int, value),
{
    let mut r: Vec<bool> = Vec::new();
    let mut j: usize = 0;
    while j < flags.len()
        invariant
            j <= flags@.len(),
            i < flags@.len(),
            r@ == flags@.update(i as int, value).take(j as int),
        decreases flags@.len() - j,
    {
        if j == i {
            r.push(value);
        } else {
            r.push(flags[j]);
        }
        j = j + 1;
    }
    r
}

/// The transaction identifiers of successive requests, starting from
/// `TID_START` (after start-up or a reset) and each following the one before
/// as [`HostState::request_sent`] moves them on, run through `1, 2, ..., 15`
/// and start again at 1.
pub proof fn lemma_tid_sequence(tids: Seq<u8>)
    requires
        tids.len() > 0,
        tids[0] == TID_START,
        forall|k: int| 0 <= k < tids.len() - 1 ==> #[trigger] tids[k + 1] == next_tid(tids[k]),
    ensures
        forall|k: int| 0 <= k < tids.len() ==> #[trigger] tids[k] == (k % 15) + 1,
    decreases tids.len(),
{
    if tids.len() > 1 {
        let shorter = tids.drop_last();
        lemma_tid_sequence(shorter);
        assert forall|k: int| 0 <= k < tids.len() implies #[trigger] tids[k] == (k % 15) + 1 by {
            if k < tids.len() - 1 {
                assert(tids[k] == shorter[k]);
            } else {
                let j = k - 1;
                assert(tids[j] == shorter[j]);
                assert(tids[j + 1] == next_tid(tids[j]));
            }
        }
    }
}

impl HostState {
    #[verifier::type_invariant]
    spec fn inv(&self) -> bool {
        &&& self.iid <= 3
        &&& TID_START <= self.tid <= TID_LAST
        &&& self.pending@.len() == 16
    }

    /// A connection for instance `iid` that has sent nothing yet.
    pub fn new(iid: u8) -> (r: HostState)
        requires
            iid <= 3,
        ensures
            r@.iid == iid,
            r@.tid == TID_START,
            r@.pending == Set::<u8>::empty(),
    {
        let r = HostState { iid, tid: TID_START, pending: vec![false; 16] };
        assert(r@.pending =~= Set::<u8>::empty());
        r
    }

    /// The transaction identifier that the next request gets.
    pub fn tid(&self) -> (r: u8)
        ensures
            r == self@.tid,
            TID_START <= r <= TID_LAST,
    {
        proof {
            use_type_invariant(self);
        }
        self.tid
    }

    /// Whether a request with transaction identifier `tid` awaits a reply.
    pub fn is_pending(&self, tid: u8) -> (r: bool)
        ensures
            r == self@.pending.contains(tid),
    {
        proof {
            use_type_invariant(self);
        }
        TID_START <= tid && tid <= TID_LAST && self.pending[tid as usize]
    }

    /// Move to the next transaction identifier, wrapping from the last to the first.
    pub fn increment_tid(&mut self)
        ensures
            final(self)@.tid == next_tid(old(self)@.tid),
            final(self)@.iid == old(self)@.iid,
            final(self)@.pending == old(self)@.pending,
    {
        proof {
            use_type_invariant(&*self);
        }
        if self.tid == TID_LAST {
            self.tid = TID_START;
        } else {
            self.tid = self.tid + 1;
        }
        assert(self@.pending =~= old(self)@.pending);
    }

    /// Start the transaction identifiers again and forget every request that
    /// awaits a reply.
    pub fn reset_tid(&mut self)
        ensures
            final(self)@.tid == TID_START,
            final(self)@.iid == old(self)@.iid,
            final(self)@.pending == Set::<u8>::empty(),
    {
        proof {
            use_type_invariant(&*self);
        }
        self.tid = TID_START;
        self.pending = vec![false; 16];
        assert(self@.pending =~= Set::<u8>::empty());
    }

    /// The frame that carries `cmd`. A reset expects no reply and goes with
    /// transaction identifier zero. Any other command gets the current
    /// transaction identifier, unless a request with it still awaits a reply:
    /// then it is refused with [`Status::Busy`], and nothing is displaced.
    pub fn prepare_request(&self, cmd: Command) -> (r: Result<Frame, Error>)
        ensures
            cmd is Reset ==> (r matches Ok(f) && f@ == (FrameView {
                iid: self@.iid,
                tid: 0,
                command: cmd@,
            })),
            !(cmd is Reset) && self@.pending.contains(self@.tid) ==> r == Err::<Frame, Error>(
                Error::Status(Status::Busy),
            ),
            !(cmd is Reset) && !self@.pending.contains(self@.tid) ==> (r matches Ok(f) && f@ == (
            FrameView { iid: self@.iid, tid: self@.tid, command: cmd@ })),
    {
        proof {
            use_type_invariant(self);
        }
        if let Command::Reset = cmd {
            return Ok(Frame::new(Header::new(self.iid, 0), cmd));
        }
        if self.is_pending(self.tid) {
            return Err(Error::Status(Status::Busy));
        }
        Ok(Frame::new(Header::new(self.iid, self.tid), cmd))
    }

    /// Record that a frame with transaction identifier `tid` was sent. When it
    /// is the current identifier, the request now awaits its reply, the
    /// identifier moves on, and the result is `true`; otherwise (zero, for a
    /// frame that expects no reply) nothing changes and the result is `false`.
    pub fn request_sent(&mut self, tid: u8) -> (r: bool)
        ensures
            r == (tid != 0 && tid == old(self)@.tid),
            r ==> final(self)@.pending == old(self)@.pending.insert(tid) && final(self)@.tid
                == next_tid(tid) && final(self)@.iid == old(self)@.iid,
            !r ==> final(self)@ == old(self)@,
    {
        proof {
            use_type_invariant(&*self);
        }
        if tid == 0 || tid != self.tid {
            return false;
        }
        self.pending = with_flag(&self.pending, tid as usize, true);
        assert(self@.pending =~= old(self)@.pending.insert(tid));
        self.increment_tid();
        true
    }

    /// Decide where a frame from the device goes, and update the state. A frame
    /// with transaction identifier zero goes only to the subscribers that its
    /// command calls for, and never completes a request; a reset announcement
    /// also starts the identifiers again and drops every request that awaits a
    /// reply. Any other frame completes the request with its identifier, if one
    /// awaits a reply.
    pub fn dispatch(&mut self, frame: &Frame) -> (r: Route)
        ensures
            frame@.tid == 0 ==> r == broadcast_route(frame@.command) && !(r is Reply),
            frame@.tid == 0 && r is Reset ==> final(self)@.tid == TID_START && final(self)@.pending
                == Set::<u8>::empty() && final(self)@.iid == old(self)@.iid,
            frame@.tid == 0 && !(r is Reset) ==> final(self)@ == old(self)@,
            frame@.tid != 0 && old(self)@.pending.contains(frame@.tid) ==> r == Route::Reply(
                frame@.tid,
            ) && final(self)@.pending == old(self)@.pending.remove(frame@.tid) && final(self)@.tid
                == old(self)@.tid && final(self)@.iid == old(self)@.iid,
            frame@.tid != 0 && !old(self)@.pending.contains(frame@.tid) ==> r == Route::Stray(
                frame@.tid,
            ) && final(self)@ == old(self)@,
    {
        proof {
            use_type_invariant(&*self);
        }
        let tid = frame.header.tid();
        if tid == 0 {
            let route = Self::broadcast(&frame.command);
            if let Route::Reset(_) = route {
                self.reset_tid();
            }
            return route;
        }
        if self.is_pending(tid) {
            self.pending = with_flag(&self.pending, tid as usize, false);
            assert(self@.pending =~= old(self)@.pending.remove(tid));
            Route::Reply(tid)
        } else {
            Route::Stray(tid)
        }
    }

    /// Where an unsolicited frame with command `command` goes.
    pub fn broadcast(command: &Command) -> (r: Route)
        ensures
            r == broadcast_route(command@),
    {
        match command {
            Command::PropertyValueIs(Property::LastStatus, payload) => {
                let (value, count) = PackedU32::decode(payload.as_slice());
                if count == 0 {
                    return Route::Unhandled;
                }
                match ResetReason::try_from(value) {
                    Ok(reason) => Route::Reset(reason),
                    Err(_) => Route::Unhandled,
                }
            },
            Command::PropertyValueIs(Property::Stream(stream), _) => Route::Stream(*stream),
            _ => Route::Unhandled,
        }
    }
}

/// What a reply to a no-op means: success when it reports [`Status::Success`],
/// the device's status when it reports another, and an unexpected response
/// when it reports none.
pub fn check_noop_reply(response: Frame) -> (r: Result<(), Error>)
    ensures
        frame_status(response@.command) == Some(Status::Success) ==> r is Ok,
        frame_status(response@.command) matches Some(s) ==> (s != Status::Success ==> r == Err::<
            (),
            Error,
        >(Error::Status(s))),
        frame_status(response@.command) is None ==> (r matches Err(Error::UnexpectedResponse(f))
            && f@ == response@),
{
    match response.last_status() {
        Some(status) => {
            if status == Status::Success {
                Ok(())
            } else {
                Err(Error::Status(status))
            }
        },
        None => Err(Error::UnexpectedResponse(response)),
    }
}

/// The value that a reply to a get of `property` carries, or an unexpected
/// response when the reply is not that property's value.
pub fn check_value_reply(response: Frame, property: Property) -> (r: Result<Vec<u8>, Error>)
    ensures
        response@.command matches CommandView::ValueIs(p, v) ==> (p == property ==> (r matches Ok(
            w,
        ) && w@ == v)),
        !(response@.command matches CommandView::ValueIs(p, _) && p == property) ==> (r matches Err(
            Error::UnexpectedResponse(f),
        ) && f@ == response@),
{
    let Frame { header, command } = response;
    match command {
        Command::PropertyValueIs(p, value) => {
            if p == property {
                Ok(value)
            } else {
                Err(Error::UnexpectedResponse(Frame::new(header, Command::PropertyValueIs(p, value))))
            }
        },
        other => Err(Error::UnexpectedResponse(Frame::new(header, other))),
    }
}

} // verus!
