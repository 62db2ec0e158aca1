//! HDLC-Lite framing: a frame and its CRC-16/X.25, escaped, between two
//! delimiters; and finding whole frames in a stream of octets.
use crate::buf::push_all;
use crate::error::Error;
use crate::frame::{frame_bytes, frame_decodable, frame_decoded, lemma_frame_round_trip, Frame, FrameView};
use vstd::prelude::*;

verus! {

/// The octet that opens and closes every frame.
pub const FRAME_DELIMITER_FLAG: u8 = 0x7E;

/// The octet that marks the next one as escaped.
pub const ESCAPE_BYTE_FLAG: u8 = 0x7D;

/// Flow control: resume transmission.
pub const XON: u8 = 0x11;

/// Flow control: pause transmission.
pub const XOFF: u8 = 0x13;

/// Reserved for vendor-specific use.
pub const VENDOR_SPECIFIC: u8 = 0xF8;

/// What an escaped octet is XORed with.
pub const ESCAPE_XOR: u8 = 0x20;

/// The octets that never stand bare inside a frame.
pub open spec fn needs_escape(b: u8) -> bool {
    b == FRAME_DELIMITER_FLAG || b == ESCAPE_BYTE_FLAG || b == XON || b == XOFF || b
        == VENDOR_SPECIFIC
}

/// How one octet stands on the wire.
pub open spec fn escape_byte(b: u8) -> Seq<u8> {
    if needs_escape(b) {
        seq![ESCAPE_BYTE_FLAG, b ^ ESCAPE_XOR]
    } else {
        seq![b]
    }
}

/// How a run of octets stands on the wire.
pub open spec fn escaped(s: Seq<u8>) -> Seq<u8>
    decreases s.len(),
{
    if s.len() == 0 {
        Seq::empty()
    } else {
        escape_byte(s[0]) + escaped(s.skip(1))
    }
}

/// The octets that a run of wire octets stands for: an escape octet and the
/// one after it give that one XORed with `ESCAPE_XOR`; an escape octet with
/// nothing after it gives nothing; any other octet stands for itself.
pub open spec fn unescaped(s: Seq<u8>) -> Seq<u8>
    decreases s.len(),
{
    if s.len() == 0 {
        Seq::empty()
    } else if s[0] == ESCAPE_BYTE_FLAG {
        if s.len() == 1 {
            Seq::empty()
        } else {
            seq![s[1] ^ ESCAPE_XOR] + unescaped(s.skip(2))
        }
    } else {
        seq![s[0]] + unescaped(s.skip(1))
    }
}

/// The CRC-16/X.25 of a run of octets.
pub uninterp spec fn crc_x25(data: Seq<u8>) -> u16;

/// Relies on `crc16::State::<crc16::X_25>::calculate`: the CRC-16/X.25 of the
/// message, which depends on its octets alone.
#[verifier::external_body]
fn checksum(data: &[u8]) -> (r: u16)
    ensures
        r == crc_x25(data@),
{
    crc16::State::<crc16::X_25>::calculate(data)
}

/// A CRC in little-endian order.
pub open spec fn crc_le(crc: u16) -> Seq<u8> {
    seq![(crc % 256) as u8, (crc / 256) as u8]
}

/// The CRC that the last two octets of a packet carry.
pub open spec fn trailing_crc(p: Seq<u8>) -> u16 {
    (p[p.len() - 2] + 256 * p[p.len() - 1]) as u16
}

/// A frame on the wire: the data and its CRC, escaped, between delimiters.
pub open spec fn hdlc_wire(data: Seq<u8>, crc: u16) -> Seq<u8> {
    seq![FRAME_DELIMITER_FLAG] + escaped(data + crc_le(crc)) + seq![FRAME_DELIMITER_FLAG]
}

/// The HDLC-Lite encoding of a Spinel frame.
pub open spec fn hdlc_bytes(f: FrameView) -> Seq<u8> {
    hdlc_wire(frame_bytes(f), crc_x25(frame_bytes(f)))
}

/// The result of checking an unescaped packet (frame and CRC) against the CRC
/// `computed` over its frame octets, then decoding the frame.
pub open spec fn packet_decoded(p: Seq<u8>, computed: u16) -> Result<FrameView, Error> {
    if p.len() < 2 {
        Err(Error::PacketLength(p.len() as usize))
    } else if computed != trailing_crc(p) {
        Err(Error::HdlcChecksum(computed))
    } else {
        frame_decoded(p.take(p.len() - 2))
    }
}

/// The result of decoding `b` as one HDLC-Lite frame, delimiters included.
pub open spec fn hdlc_decoded(b: Seq<u8>) -> Result<FrameView, Error> {
    if b.len() == 0 {
        Err(Error::PacketLength(0))
    } else if b[0] != FRAME_DELIMITER_FLAG {
        Err(Error::HdlcStartDelimiter(b[0]))
    } else if b.len() == 1 {
        Err(Error::PacketLength(1))
    } else if b.last() != FRAME_DELIMITER_FLAG {
        Err(Error::HdlcEndDelimiter(b.last()))
    } else {
        let p = unescaped(b.subrange(1, b.len() - 1));
        packet_decoded(p, crc_x25(p.take(p.len() - 2)))
    }
}

/// The octets `s + 1 .. e` of `b` hold one whole frame: `s` is the last of
/// the first run of delimiters, `e` the next delimiter after it.
pub open spec fn frame_bounds(b: Seq<u8>, s: int, e: int) -> bool {
    &&& 0 <= s
    &&& s + 1 < e
    &&& e < b.len()
    &&& b[s] == FRAME_DELIMITER_FLAG
    &&& b[e] == FRAME_DELIMITER_FLAG
    &&& forall|i: int| s < i < e ==> b[i] != FRAME_DELIMITER_FLAG
    &&& forall|i: int|
        0 <= i < s && b[i] == FRAME_DELIMITER_FLAG ==> forall|j: int|
            i <= j <= s ==> b[j] == FRAME_DELIMITER_FLAG
}

proof fn lemma_xor(b: u8)
    ensures
        (b ^ ESCAPE_XOR) ^ ESCAPE_XOR == b,
        needs_escape(b) ==> (b ^ ESCAPE_XOR) != FRAME_DELIMITER_FLAG,
        needs_escape(b) ==> (b ^ ESCAPE_XOR) != ESCAPE_BYTE_FLAG,
{
    assert((b ^ 0x20u8) ^ 0x20u8 == b) by (bit_vector);
    assert((b ^ 0x20u8) == 0x7Eu8 ==> b == 0x5Eu8) by (bit_vector);
    assert((b ^ 0x20u8) == 0x7Du8 ==> b == 0x5Du8) by (bit_vector);
}

/// Escaping a concatenation escapes each part.
pub proof fn lemma_escaped_concat(a: Seq<u8>, b: Seq<u8>)
    ensures
        escaped(a + b) == escaped(a) + escaped(b),
    decreases a.len(),
{
    if a.len() == 0 {
        assert(a + b == b);
    } else {
        lemma_escaped_concat(a.skip(1), b);
        assert((a + b).skip(1) == a.skip(1) + b);
        assert((a + b)[0] == a[0]);
    }
}

/// Unescaping gives back what was escaped.
pub proof fn lemma_unescape_escaped(s: Seq<u8>)
    ensures
        unescaped(escaped(s)) == s,
    decreases s.len(),
{
    if s.len() > 0 {
        let e = escaped(s);
        let rest = escaped(s.skip(1));
        lemma_unescape_escaped(s.skip(1));
        lemma_xor(s[0]);
        if needs_escape(s[0]) {
            assert(e.skip(2) == rest);
        } else {
            assert(e.skip(1) == rest);
        }
        assert(s == seq![s[0]] + s.skip(1));
    }
}

/// No escaped octet is a delimiter, and escaping never shortens.
pub proof fn lemma_escaped_no_delimiter(s: Seq<u8>)
    ensures
        escaped(s).len() >= s.len(),
        forall|i: int| 0 <= i < escaped(s).len() ==> escaped(s)[i] != FRAME_DELIMITER_FLAG,
    decreases s.len(),
{
    if s.len() > 0 {
        lemma_escaped_no_delimiter(s.skip(1));
        lemma_xor(s[0]);
        let e = escaped(s);
        let h = escape_byte(s[0]);
        assert forall|i: int| 0 <= i < e.len() implies e[i] != FRAME_DELIMITER_FLAG by {
            if i >= h.len() {
                assert(e[i] == escaped(s.skip(1))[i - h.len()]);
            }
        }
    }
}

/// Every escape octet that escaping writes has an octet after it, so
/// unescaping consumes each one together with its successor.
pub proof fn lemma_escaped_pairs(s: Seq<u8>)
    ensures
        forall|i: int|
            0 <= i < escaped(s).len() && escaped(s)[i] == ESCAPE_BYTE_FLAG ==> i + 1 < escaped(
                s,
            ).len(),
    decreases s.len(),
{
    if s.len() > 0 {
        lemma_escaped_pairs(s.skip(1));
        lemma_xor(s[0]);
        let e = escaped(s);
        let h = escape_byte(s[0]);
        assert forall|i: int|
            0 <= i < e.len() && e[i] == ESCAPE_BYTE_FLAG implies i + 1 < e.len() by {
            if i >= h.len() {
                assert(e[i] == escaped(s.skip(1))[i - h.len()]);
            }
        }
    }
}

/// Decoding the HDLC-Lite encoding of a decodable frame gives the frame back.
pub proof fn lemma_hdlc_round_trip(f: FrameView)
    requires
        frame_decodable(f),
    ensures
        hdlc_decoded(hdlc_bytes(f)) == Ok::<FrameView, Error>(f),
{
    let d = frame_bytes(f);
    let c = crc_x25(d);
    let x = d + crc_le(c);
    let b = hdlc_bytes(f);
    assert(b.subrange(1, b.len() - 1) == escaped(x));
    lemma_unescape_escaped(x);
    assert(x.take(x.len() - 2) == d);
    assert(trailing_crc(x) == c);
    lemma_frame_round_trip(f);
}

/// A frame of the stream behind garbage that holds no delimiter is found by
/// its bounds, and they are the only ones: whatever follows it.
pub proof fn lemma_resynchronise(garbage: Seq<u8>, f: FrameView, more: Seq<u8>)
    requires
        forall|i: int| 0 <= i < garbage.len() ==> garbage[i] != FRAME_DELIMITER_FLAG,
    ensures
        ({
            let b = garbage + hdlc_bytes(f) + more;
            let s = garbage.len() as int;
            let e = garbage.len() + hdlc_bytes(f).len() - 1;
            &&& frame_bounds(b, s, e)
            &&& forall|s2: int, e2: int| frame_bounds(b, s2, e2) ==> s2 == s && e2 == e
        }),
{
    let enc = hdlc_bytes(f);
    let x = frame_bytes(f) + crc_le(crc_x25(frame_bytes(f)));
    let body = escaped(x);
    lemma_escaped_no_delimiter(x);
    let b = garbage + enc + more;
    let s = garbage.len() as int;
    let e = garbage.len() + enc.len() - 1;
    assert(enc.len() == body.len() + 2);
    assert(body.len() >= 3);
    assert forall|i: int| s < i < e implies b[i] != FRAME_DELIMITER_FLAG by {
        assert(b[i] == body[i - s - 1]);
    }
    assert(b[s + 1] != FRAME_DELIMITER_FLAG);
    assert(frame_bounds(b, s, e));
    assert forall|s2: int, e2: int| frame_bounds(b, s2, e2) implies s2 == s && e2 == e by {
        if s2 < s {
            assert(b[s2] == garbage[s2]);
        } else if s2 > s {
            assert(b[s + 1] == FRAME_DELIMITER_FLAG);
        }
        if e2 < e {
            assert(s < e2);
        } else if e2 > e {
            assert(b[e] != FRAME_DELIMITER_FLAG);
        }
    }
}

/// Two bounds of a frame in the same octets are the same bounds.
pub proof fn lemma_frame_bounds_unique(b: Seq<u8>, s1: int, e1: int, s2: int, e2: int)
    requires
        frame_bounds(b, s1, e1),
        frame_bounds(b, s2, e2),
    ensures
        s1 == s2,
        e1 == e2,
{
    if s1 < s2 {
        assert(b[s1 + 1] == FRAME_DELIMITER_FLAG);
    } else if s2 < s1 {
        assert(b[s2 + 1] == FRAME_DELIMITER_FLAG);
    }
    if e1 < e2 {
        assert(b[e1] != FRAME_DELIMITER_FLAG);
    } else if e2 < e1 {
        assert(b[e2] != FRAME_DELIMITER_FLAG);
    }
}

/// A Spinel frame as HDLC-Lite carries it.
#[derive(Debug, PartialEq)]
pub struct HdlcLiteFrame {
    spinel_frame: Frame,
}

impl View for HdlcLiteFrame {
    type V = FrameView;

    closed spec fn view(&self) -> FrameView {
        self.spinel_frame@
    }
}

/// The view of a decoding result.
pub open spec fn hdlc_result_view(r: Result<HdlcLiteFrame, Error>) -> Result<FrameView, Error> {
    match r {
        Ok(f) => Ok(f@),
        Err(e) => Err(e),
    }
}

/// Append `bytes`, escaped, to `buffer`.
fn write_escaped(buffer: &mut Vec<u8>, bytes: &[u8])
    ensures
        final(buffer)@ == old(buffer)@ + escaped(bytes@),
{
    let mut i: usize = 0;
    while i < bytes.len()
        invariant
            i <= bytes@.len(),
            buffer@ == old(buffer)@ + escaped(bytes@.take(i as int)),
        decreases bytes@.len() - i,
    {
        let byte = bytes[i];
        proof {
            lemma_escaped_concat(bytes@.take(i as int), seq![byte]);
            assert(bytes@.take(i + 1) == bytes@.take(i as int) + seq![byte]);
            assert(seq![byte].skip(1) == Seq::<u8>::empty());
            assert(escaped(seq![byte]) == escape_byte(byte) + escaped(Seq::<u8>::empty()));
        }
        if HdlcLiteFrame::requires_escape(byte) {
            buffer.push(ESCAPE_BYTE_FLAG);
            buffer.push(byte ^ ESCAPE_XOR);
        } else {
            buffer.push(byte);
        }
        i = i + 1;
    }
    assert(bytes@.take(bytes@.len() as int) == bytes@);
}

/// The octets that the wire octets `bytes` stand for.
fn unescape(bytes: &[u8]) -> (r: Vec<u8>)
    ensures
        r@ == unescaped(bytes@),
{
    let mut packet: Vec<u8> = Vec::new();
    let mut i: usize = 0;
    assert(bytes@.skip(0) == bytes@);
    while i < bytes.len()
        invariant
            i <= bytes@.len(),
            unescaped(bytes@) == packet@ + unescaped(bytes@.skip(i as int)),
        decreases bytes@.len() - i,
    {
        let ghost t = bytes@.skip(i as int);
        assert(t[0] == bytes@[i as int]);
        if bytes[i] == ESCAPE_BYTE_FLAG {
            if i + 1 < bytes.len() {
                assert(t[1] == bytes@[i + 1]);
                assert(t.skip(2) == bytes@.skip(i + 2));
                packet.push(bytes[i + 1] ^ ESCAPE_XOR);
                i = i + 2;
            } else {
                i = i + 1;
            }
        } else {
            assert(t.skip(1) == bytes@.skip(i + 1));
            packet.push(bytes[i]);
            i = i + 1;
        }
    }
    assert(unescaped(bytes@.skip(i as int)) == Seq::<u8>::empty());
    packet
}

impl HdlcLiteFrame {
    /// Whether `byte` must be escaped inside a frame.
    pub fn requires_escape(byte: u8) -> (r: bool)
        ensures
            r == needs_escape(byte),
    {
        byte == FRAME_DELIMITER_FLAG || byte == ESCAPE_BYTE_FLAG || byte == XON || byte == XOFF
            || byte == VENDOR_SPECIFIC
    }

    /// The position of the first delimiter in `bytes`, if there is one.
    pub fn find_frame_delimiter(bytes: &[u8]) -> (r: Option<usize>)
        ensures
            r matches Some(p) ==> p < bytes@.len() && bytes@[p as int] == FRAME_DELIMITER_FLAG
                && forall|i: int| 0 <= i < p ==> bytes@[i] != FRAME_DELIMITER_FLAG,
            r is None ==> forall|i: int|
                0 <= i < bytes@.len() ==> bytes@[i] != FRAME_DELIMITER_FLAG,
    {
        let mut i: usize = 0;
        while i < bytes.len()
            invariant
                i <= bytes@.len(),
                forall|j: int| 0 <= j < i ==> bytes@[j] != FRAME_DELIMITER_FLAG,
            decreases bytes@.len() - i,
        {
            if bytes[i] == FRAME_DELIMITER_FLAG {
                return Some(i);
            }
            i = i + 1;
        }
        None
    }

    /// Find a whole frame in `bytes`: the positions of the delimiters that
    /// bracket it. A run of delimiters counts as one; octets before the first
    /// delimiter are skipped. `None` when no frame is closed yet.
    pub fn find_frame(bytes: &[u8]) -> (r: Option<(usize, usize)>)
        ensures
            r matches Some((s, e)) ==> frame_bounds(bytes@, s as int, e as int),
            r is None ==> forall|s: int, e: int| !frame_bounds(bytes@, s, e),
    {
        let first = match Self::find_frame_delimiter(bytes) {
            Some(p) => p,
            None => {
                return None;
            },
        };
        let n = bytes.len();
        let mut start = first;
        let mut i = first + 1;
        while i < bytes.len()
            invariant
                first <= start < i <= bytes@.len(),
                forall|j: int| 0 <= j < first ==> bytes@[j] != FRAME_DELIMITER_FLAG,
                forall|j: int| first <= j <= start ==> bytes@[j] == FRAME_DELIMITER_FLAG,
                forall|j: int| start < j < i ==> bytes@[j] != FRAME_DELIMITER_FLAG,
            decreases bytes@.len() - i,
        {
            if bytes[i] == FRAME_DELIMITER_FLAG {
                if i == start + 1 {
                    start = i;
                } else {
                    return Some((start, i));
                }
            }
            i = i + 1;
        }
        proof {
            assert forall|s: int, e: int| !frame_bounds(bytes@, s, e) by {
                if frame_bounds(bytes@, s, e) {
                    if s < start {
                        if s >= first {
                            assert(bytes@[s + 1] == FRAME_DELIMITER_FLAG);
                        }
                    } else if s > start {
                        assert(bytes@[s] != FRAME_DELIMITER_FLAG);
                    } else {
                        assert(bytes@[e] != FRAME_DELIMITER_FLAG);
                    }
                }
            }
        }
        None
    }

    /// Wrap a Spinel frame.
    pub fn new(frame: Frame) -> (r: HdlcLiteFrame)
        ensures
            r@ == frame@,
    {
        HdlcLiteFrame { spinel_frame: frame }
    }

    /// The Spinel frame inside.
    pub fn into_inner(self) -> (r: Frame)
        ensures
            r@ == self@,
    {
        self.spinel_frame
    }

    /// Encode the frame and append it to `buffer`.
    pub fn encode(self, buffer: &mut Vec<u8>) -> (r: Result<(), Error>)
        ensures
            r is Ok,
            final(buffer)@ == old(buffer)@ + hdlc_bytes(self@),
    {
        let mut raw: Vec<u8> = Vec::new();
        let ghost f = self.spinel_frame@;
        self.spinel_frame.encode(&mut raw)?;
        assert(raw@ == frame_bytes(f));
        let crc = checksum(raw.as_slice());
        Self::encode_with_checksum(raw.as_slice(), crc, buffer);
        Ok(())
    }

    /// Append to `buffer` the wire form of the frame octets `data` with the
    /// CRC `crc`: both escaped, between delimiters.
    pub fn encode_with_checksum(data: &[u8], crc: u16, buffer: &mut Vec<u8>)
        ensures
            final(buffer)@ == old(buffer)@ + hdlc_wire(data@, crc),
    {
        buffer.push(FRAME_DELIMITER_FLAG);
        write_escaped(buffer, data);
        let crc_bytes: [u8; 2] = [(crc % 256) as u8, (crc / 256) as u8];
        write_escaped(buffer, &crc_bytes);
        proof {
            assert(crc_bytes@ == crc_le(crc));
            lemma_escaped_concat(data@, crc_le(crc));
        }
        buffer.push(FRAME_DELIMITER_FLAG);
    }

    /// Decode one frame from `bytes`, which must open and close with a
    /// delimiter and hold nothing else.
    pub fn decode(bytes: &[u8]) -> (r: Result<HdlcLiteFrame, Error>)
        ensures
            hdlc_result_view(r) == hdlc_decoded(bytes@),
    {
        let n = bytes.len();
        if n == 0 {
            return Err(Error::PacketLength(0));
        }
        if bytes[0] != FRAME_DELIMITER_FLAG {
            return Err(Error::HdlcStartDelimiter(bytes[0]));
        }
        if n == 1 {
            return Err(Error::PacketLength(1));
        }
        let last = bytes[n - 1];
        if last != FRAME_DELIMITER_FLAG {
            return Err(Error::HdlcEndDelimiter(last));
        }
        let packet = unescape(&bytes[1..n - 1]);
        if packet.len() < 2 {
            return Err(Error::PacketLength(packet.len()));
        }
        let data = &packet.as_slice()[0..packet.len() - 2];
        let computed = checksum(data);
        Self::decode_packet(packet.as_slice(), computed)
    }

    /// Check the unescaped packet `packet` (frame octets, then CRC) against
    /// `computed`, the CRC over its frame octets, and decode the frame.
    pub fn decode_packet(packet: &[u8], computed: u16) -> (r: Result<HdlcLiteFrame, Error>)
        ensures
            hdlc_result_view(r) == packet_decoded(packet@, computed),
    {
        let n = packet.len();
        if n < 2 {
            return Err(Error::PacketLength(n));
        }
        let received = packet[n - 2] as u16 + 256 * packet[n - 1] as u16;
        if computed != received {
            return Err(Error::HdlcChecksum(computed));
        }
        let spinel_frame = Frame::decode(&packet[0..n - 2])?;
        Ok(HdlcLiteFrame { spinel_frame })
    }
}

} // verus!
