use spinel::host::{check_noop_reply, check_value_reply};
use spinel::{
    Command, Error, Frame, HdlcCodec, HdlcLiteFrame, Header, HostState, Property, PropertyStream,
    ResetReason, Route, Status,
};

fn is_frame(tid: u8, property: Property, payload: Vec<u8>) -> Frame {
    Frame::new(Header::new(0, tid), Command::PropertyValueIs(property, payload))
}

#[test]
fn tids_cycle_from_one_to_fifteen() {
    let mut state = HostState::new(0);
    let mut seen = Vec::new();
    for _ in 0..32 {
        let frame = state.prepare_request(Command::Noop).unwrap();
        let tid = frame.header().tid();
        seen.push(tid);
        assert!(state.request_sent(tid));
        assert_eq!(state.dispatch(&is_frame(tid, Property::LastStatus, vec![0])), Route::Reply(tid));
    }
    let expected: Vec<u8> = (0..32).map(|k| (k % 15) as u8 + 1).collect();
    assert_eq!(seen, expected);
}

#[test]
fn reset_notification_restarts_tids() {
    let mut state = HostState::new(1);
    for _ in 0..5 {
        let tid = state.tid();
        state.request_sent(tid);
    }
    assert_eq!(state.tid(), 6);
    assert!(state.is_pending(3));
    let route = state.dispatch(&is_frame(0, Property::LastStatus, vec![0x72]));
    assert_eq!(route, Route::Reset(ResetReason::Software));
    assert_eq!(state.tid(), 1);
    assert!(!state.is_pending(3));
    let frame = state.prepare_request(Command::PropertyValueGet(Property::NcpVersion)).unwrap();
    assert_eq!(frame.header().tid(), 1);
    assert_eq!(frame.header().iid(), 1);
}

#[test]
fn unsolicited_frames_go_to_their_bus_only() {
    let mut state = HostState::new(0);
    let tid = state.tid();
    state.request_sent(tid);
    let cases = [
        (Property::Stream(PropertyStream::Debug), Route::Stream(PropertyStream::Debug)),
        (Property::Stream(PropertyStream::Net), Route::Stream(PropertyStream::Net)),
        (Property::Stream(PropertyStream::NetInsecure), Route::Stream(PropertyStream::NetInsecure)),
        (Property::Stream(PropertyStream::Log), Route::Stream(PropertyStream::Log)),
        (Property::NcpVersion, Route::Unhandled),
    ];
    for (property, route) in cases.iter() {
        assert_eq!(state.dispatch(&is_frame(0, *property, vec![1, 2])), *route);
        assert!(state.is_pending(tid));
    }
    assert_eq!(state.dispatch(&is_frame(0, Property::LastStatus, vec![0])), Route::Unhandled);
    assert_eq!(state.dispatch(&Frame::new(Header::new(0, 0), Command::Noop)), Route::Unhandled);
    assert!(state.is_pending(tid));
}

#[test]
fn stray_replies_are_reported() {
    let mut state = HostState::new(0);
    assert_eq!(state.dispatch(&is_frame(4, Property::LastStatus, vec![0])), Route::Stray(4));
    let tid = state.tid();
    state.request_sent(tid);
    assert_eq!(state.dispatch(&is_frame(tid, Property::LastStatus, vec![0])), Route::Reply(tid));
    assert_eq!(state.dispatch(&is_frame(tid, Property::LastStatus, vec![0])), Route::Stray(tid));
}

#[test]
fn busy_when_the_tid_still_awaits_a_reply() {
    let mut state = HostState::new(0);
    for _ in 0..15 {
        let tid = state.tid();
        assert!(state.request_sent(tid));
    }
    assert_eq!(state.tid(), 1);
    assert_eq!(state.prepare_request(Command::Noop), Err(Error::Status(Status::Busy)));
    let reset = state.prepare_request(Command::Reset).unwrap();
    assert_eq!(reset.header().tid(), 0);
    assert!(!state.request_sent(0));
    assert_eq!(state.tid(), 1);
    state.dispatch(&is_frame(1, Property::LastStatus, vec![0]));
    assert_eq!(state.prepare_request(Command::Noop).unwrap().header().tid(), 1);
}

#[test]
fn increment_and_reset_tid() {
    let mut state = HostState::new(0);
    for _ in 0..14 {
        state.increment_tid();
    }
    assert_eq!(state.tid(), 15);
    state.increment_tid();
    assert_eq!(state.tid(), 1);
    state.increment_tid();
    state.reset_tid();
    assert_eq!(state.tid(), 1);
}

#[test]
fn noop_reply_checks() {
    let ok = is_frame(1, Property::LastStatus, vec![0]);
    assert_eq!(check_noop_reply(ok), Ok(()));
    let busy = is_frame(1, Property::LastStatus, vec![12]);
    assert_eq!(check_noop_reply(busy), Err(Error::Status(Status::Busy)));
    let other = is_frame(1, Property::NcpVersion, vec![0]);
    assert_eq!(check_noop_reply(other.clone()), Err(Error::UnexpectedResponse(other)));
}

#[test]
fn value_reply_checks() {
    let version = is_frame(1, Property::NcpVersion, b"v1".to_vec());
    assert_eq!(check_value_reply(version.clone(), Property::NcpVersion), Ok(b"v1".to_vec()));
    assert_eq!(
        check_value_reply(version.clone(), Property::LastStatus),
        Err(Error::UnexpectedResponse(version))
    );
    let noop = Frame::new(Header::new(0, 1), Command::Noop);
    assert_eq!(
        check_value_reply(noop.clone(), Property::NcpVersion),
        Err(Error::UnexpectedResponse(noop))
    );
}

#[test]
fn codec_takes_one_frame_at_a_time() {
    let mut codec = HdlcCodec;
    let first = Frame::new(Header::new(0, 1), Command::Noop);
    let second = is_frame(2, Property::NcpVersion, vec![0x7E, 0x41]);
    let mut src = vec![0x33, 0x44];
    codec.encode(first.clone(), &mut src).unwrap();
    codec.encode(second.clone(), &mut src).unwrap();
    src.extend_from_slice(&[0x7E, 0x81]);

    assert_eq!(codec.decode(&mut src), Ok(Some(first)));
    assert_eq!(codec.decode(&mut src), Ok(Some(second)));
    assert_eq!(src, vec![0x7E, 0x81]);
    assert_eq!(codec.decode(&mut src), Ok(None));
    assert_eq!(src, vec![0x7E, 0x81]);
}

#[test]
fn codec_reports_a_bad_frame_and_moves_past_it() {
    let mut codec = HdlcCodec;
    let mut src = vec![0x7E, 0x81, 0x00, 0x53, 0x00, 0x7E, 0x7E, 0x81];
    assert_eq!(codec.decode(&mut src), Err(Error::HdlcChecksum(0x9A53)));
    assert_eq!(src, vec![0x7E, 0x81]);
    let mut empty: Vec<u8> = Vec::new();
    assert_eq!(codec.decode(&mut empty), Ok(None));
}

#[test]
fn hdlc_round_trip_of_a_reply() {
    let frame = is_frame(9, Property::ProtocolVersion, vec![4, 3]);
    let mut bytes = Vec::new();
    HdlcLiteFrame::new(frame.clone()).encode(&mut bytes).unwrap();
    assert_eq!(HdlcLiteFrame::decode(&bytes).unwrap().into_inner(), frame);
}
