//! Framing layer: checksums, the byte-level reply parser, and the codec that
//! sends and receives frames over a bus.
use vstd::prelude::*;
use crate::bus::{BusWrite, WaitRead, WaitReadTimeout};
use crate::error::{
    ChecksumType, CommError, CommResult, DataError, RecvError, SendError, WaitError, WaitResult,
};

verus! {

/// Sum of a byte sequence as an integer.
pub open spec fn byte_sum(xs: Seq<u8>) -> int
    decreases xs.len(),
{
    if xs.len() == 0 {
        0
    } else {
        byte_sum(xs.drop_last()) + xs.last() as int
    }
}

/// Adds the bytes of `data` to `init`, wrapping at 256.
pub fn calc_checksum(init: u8, data: &[u8]) -> (r: u8)
    ensures
        r as int == (init as int + byte_sum(data@)) % 256,
{
    let mut acc: u8 = init;
    let mut i: usize = 0;
    while i < data.len()
        invariant
            i <= data@.len(),
            acc as int == (init as int + byte_sum(data@.take(i as int))) % 256,
        decreases data@.len() - i,
    {
        assert(data@.take(i as int + 1).drop_last() == data@.take(i as int));
        acc = acc.wrapping_add(data[i]);
        i = i + 1;
    }
    assert(data@.take(data@.len() as int) == data@);
    acc
}

/// State of the scan for the `00 FF` preamble.
#[derive(Debug, Copy, Clone, Eq, PartialEq)]
pub enum PreambleParser {
    Start,
    ZeroFound,
}

impl PreambleParser {
    /// One transition; `None` means the preamble is complete.
    pub open spec fn step(self, b: u8) -> Option<PreambleParser> {
        if self == PreambleParser::ZeroFound && b == 0xFF {
            None
        } else if b == 0x00 {
            Some(PreambleParser::ZeroFound)
        } else {
            Some(PreambleParser::Start)
        }
    }

    /// Feeds one byte; returns the next state, or `None` once `00 FF` was seen.
    pub fn next(self, b: u8) -> (r: Option<Self>)
        ensures
            r == self.step(b),
    {
        match (self, b) {
            (PreambleParser::ZeroFound, 0xFF) => None,
            (_, 0x00) => Some(PreambleParser::ZeroFound),
            _ => Some(PreambleParser::Start),
        }
    }
}

impl Default for PreambleParser {
    fn default() -> (r: Self)
        ensures
            r == PreambleParser::Start,
    {
        PreambleParser::Start
    }
}

/// State of the parser of a reply frame's header.
#[derive(Debug, Copy, Clone, Eq, PartialEq)]
pub enum ResponseParser {
    Preamble(PreambleParser),
    Length,
    LengthChksum(u8),
    FrameIdentifier(u8),
    /// Terminal: the header is complete and declares this length.
    Done(u8),
}

impl ResponseParser {
    /// One transition of the header parser.
    pub open spec fn step(self, b: u8) -> Result<ResponseParser, DataError> {
        match self {
            ResponseParser::Preamble(pp) => match pp.step(b) {
                None => Ok(ResponseParser::Length),
                Some(q) => Ok(ResponseParser::Preamble(q)),
            },
            ResponseParser::Length => Ok(ResponseParser::LengthChksum(b)),
            ResponseParser::LengthChksum(l) => if (l + b) % 256 == 0 {
                Ok(ResponseParser::FrameIdentifier(l))
            } else {
                Err(DataError::InvalidChecksum(ChecksumType::Length))
            },
            ResponseParser::FrameIdentifier(l) => if b == 0xD5 {
                Ok(ResponseParser::Done(l))
            } else {
                Err(DataError::InvalidByte(b, "0xD5"))
            },
            ResponseParser::Done(l) => Ok(ResponseParser::Done(l)),
        }
    }

    /// Feeds one byte. On success the state advances and the result tells
    /// whether more bytes are wanted; on error the state is left as it was.
    pub fn next(&mut self, b: u8) -> (r: Result<bool, DataError>)
        ensures
            match old(self).step(b) {
                Ok(q) => *final(self) == q && r == Ok::<bool, DataError>(!(q is Done)),
                Err(e) => *final(self) == *old(self) && r == Err::<bool, DataError>(e),
            },
    {
        let q = match *self {
            ResponseParser::Preamble(pp) => match pp.next(b) {
                None => ResponseParser::Length,
                Some(q) => ResponseParser::Preamble(q),
            },
            ResponseParser::Length => ResponseParser::LengthChksum(b),
            ResponseParser::LengthChksum(l) => {
                if l.wrapping_add(b) == 0 {
                    ResponseParser::FrameIdentifier(l)
                } else {
                    return Err(DataError::InvalidChecksum(ChecksumType::Length));
                }
            },
            ResponseParser::FrameIdentifier(l) => {
                if b == 0xD5 {
                    ResponseParser::Done(l)
                } else {
                    return Err(DataError::InvalidByte(b, "0xD5"));
                }
            },
            ResponseParser::Done(l) => ResponseParser::Done(l),
        };
        *self = q;
        match q {
            ResponseParser::Done(_) => Ok(false),
            _ => Ok(true),
        }
    }

    /// The declared length, once the header is complete.
    pub fn pkt_len(&self) -> (r: Option<u8>)
        ensures
            r == (match *self {
                ResponseParser::Done(l) => Some(l),
                _ => None::<u8>,
            }),
    {
        match *self {
            ResponseParser::Done(l) => Some(l),
            _ => None,
        }
    }
}

impl Default for ResponseParser {
    fn default() -> (r: Self)
        ensures
            r == ResponseParser::Preamble(PreambleParser::Start),
    {
        ResponseParser::Preamble(PreambleParser::Start)
    }
}

/// Runs the header parser from state `p` over `bytes`, stopping once it is
/// done: the final state and how many bytes it took, or the first error.
pub open spec fn scan_header(p: ResponseParser, bytes: Seq<u8>) -> Result<
    (ResponseParser, nat),
    DataError,
>
    decreases bytes.len(),
{
    if bytes.len() == 0 || p is Done {
        Ok((p, 0nat))
    } else {
        match p.step(bytes[0]) {
            Err(e) => Err(e),
            Ok(q) => match scan_header(q, bytes.drop_first()) {
                Ok((s, n)) => Ok((s, n + 1)),
                Err(e) => Err(e),
            },
        }
    }
}

/// `res` with `k` more bytes counted as taken.
pub open spec fn shift_taken(res: Result<(ResponseParser, nat), DataError>, k: nat) -> Result<
    (ResponseParser, nat),
    DataError,
> {
    match res {
        Ok((s, n)) => Ok((s, n + k)),
        Err(e) => Err(e),
    }
}

/// The payload that a received window carries, or why it carries none.
pub open spec fn frame_outcome<E>(w: Seq<u8>) -> Result<Seq<u8>, RecvError<E>> {
    match scan_header(ResponseParser::Preamble(PreambleParser::Start), w) {
        Err(e) => Err(RecvError::InvalidData(e)),
        Ok((p, n)) => match p {
            ResponseParser::Done(l) => {
                let rest = w.skip(n as int);
                if l as int > rest.len() {
                    Err(RecvError::UnexpectedEnd)
                } else if l == 0 {
                    Err(RecvError::InvalidData(DataError::InvalidByte(0, "value at least 0x01")))
                } else if (0xD5 + byte_sum(rest.take(l as int))) % 256 != 0 {
                    Err(RecvError::InvalidData(DataError::InvalidChecksum(ChecksumType::Data)))
                } else {
                    Ok(rest.take(l - 1))
                }
            },
            _ => Err(RecvError::UnexpectedEnd),
        },
    }
}

/// Decoding window `w` into a destination that held `before` leaves it
/// holding `after` and returns `r`: the payload, cut to the destination's
/// length, is copied to its front, and the count copied is returned.
pub open spec fn delivers<E>(
    w: Seq<u8>,
    before: Seq<u8>,
    after: Seq<u8>,
    r: Result<usize, RecvError<E>>,
) -> bool {
    match frame_outcome::<E>(w) {
        Ok(payload) => {
            let k = if payload.len() < before.len() {
                payload.len()
            } else {
                before.len()
            };
            &&& r == Ok::<usize, RecvError<E>>(k as usize)
            &&& after == payload.take(k as int) + before.skip(k as int)
        },
        Err(e) => r == Err::<usize, RecvError<E>>(e) && after == before,
    }
}

/// The frame that carries `data` from host to device.
pub open spec fn frame_bytes(data: Seq<u8>) -> Seq<u8> {
    let len = data.len() + 1;
    seq![0x00u8, 0xFFu8, len as u8, ((256 - len) % 256) as u8, 0xD4u8] + data + seq![
        ((256 - (0xD4 + byte_sum(data)) % 256) % 256) as u8,
    ]
}

/// A valid reply header: preamble, length `l`, its checksum, and `D5`.
pub open spec fn reply_header(l: u8) -> Seq<u8> {
    seq![0x00u8, 0xFFu8, l, ((256 - l) % 256) as u8, 0xD5u8]
}

/// The sum of a sequence with one more byte at its end.
proof fn lemma_byte_sum_push(xs: Seq<u8>, x: u8)
    ensures
        byte_sum(xs.push(x)) == byte_sum(xs) + x,
{
    assert(xs.push(x).drop_last() == xs);
}

/// How the header parser runs over the first bytes of a window that starts
/// with the preamble and a length byte.
proof fn lemma_scan_prefix(l: u8, lcs: u8, rest: Seq<u8>)
    ensures
        scan_header(ResponseParser::Preamble(PreambleParser::Start), seq![0x00u8, 0xFFu8, l, lcs] + rest)
            == shift_taken(scan_header(ResponseParser::LengthChksum(l), seq![lcs] + rest), 3),
{
    reveal_with_fuel(scan_header, 4);
    let w = seq![0x00u8, 0xFFu8, l, lcs] + rest;
    assert(w[0] == 0x00u8 && w[1] == 0xFFu8 && w[2] == l);
    assert(w.drop_first() == seq![0xFFu8, l, lcs] + rest);
    assert(w.drop_first().drop_first() == seq![l, lcs] + rest);
    assert(w.drop_first().drop_first().drop_first() == seq![lcs] + rest);
}

/// The preamble of `w` ends at `j`: `w[j - 1]` is `00`, `w[j]` is `FF`, and
/// no such pair ends earlier. Any bytes may come before it.
pub open spec fn first_preamble_at(w: Seq<u8>, j: int) -> bool {
    &&& 1 <= j < w.len()
    &&& w[j - 1] == 0x00
    &&& w[j] == 0xFF
    &&& forall|i: int| 1 <= i < j ==> !(w[i - 1] == 0x00 && #[trigger] w[i] == 0xFF)
}

/// The preamble parser's state after the first `k` bytes of `w`.
pub open spec fn preamble_state(w: Seq<u8>, k: int) -> PreambleParser {
    if k > 0 && w[k - 1] == 0x00 {
        PreambleParser::ZeroFound
    } else {
        PreambleParser::Start
    }
}

/// Before the first preamble, the header parser only tracks whether the
/// last byte was `00`.
proof fn lemma_scan_preamble(w: Seq<u8>, k: int)
    requires
        0 <= k <= w.len(),
        forall|i: int| 1 <= i < k ==> !(w[i - 1] == 0x00 && #[trigger] w[i] == 0xFF),
    ensures
        scan_header(ResponseParser::Preamble(PreambleParser::Start), w) == shift_taken(
            scan_header(ResponseParser::Preamble(preamble_state(w, k)), w.skip(k)),
            k as nat,
        ),
    decreases k,
{
    if k == 0 {
        assert(w.skip(0) == w);
        match scan_header(ResponseParser::Preamble(PreambleParser::Start), w) {
            Ok((p, n)) => {},
            Err(e) => {},
        }
    } else {
        lemma_scan_preamble(w, k - 1);
        let u = w.skip(k - 1);
        assert(u[0] == w[k - 1]);
        assert(u.drop_first() == w.skip(k));
        if k - 1 >= 1 {
            assert(!(w[k - 2] == 0x00 && w[k - 1] == 0xFF));
        }
    }
}

/// With the first preamble ending at `j`, the header parser goes on from
/// the byte after it.
proof fn lemma_scan_after_preamble(w: Seq<u8>, j: int)
    requires
        first_preamble_at(w, j),
    ensures
        scan_header(ResponseParser::Preamble(PreambleParser::Start), w) == shift_taken(
            scan_header(ResponseParser::Length, w.skip(j + 1)),
            (j + 1) as nat,
        ),
{
    lemma_scan_preamble(w, j);
    let u = w.skip(j);
    assert(u[0] == w[j]);
    assert(u.drop_first() == w.skip(j + 1));
    match scan_header(ResponseParser::Length, w.skip(j + 1)) {
        Ok((p, n)) => {},
        Err(e) => {},
    }
}

/// How the header parser runs from the length byte on.
proof fn lemma_scan_length(h: Seq<u8>)
    ensures
        h.len() == 0 ==> scan_header(ResponseParser::Length, h) == Ok::<(ResponseParser, nat), DataError>(
            (ResponseParser::Length, 0nat),
        ),
        h.len() == 1 ==> scan_header(ResponseParser::Length, h) == Ok::<(ResponseParser, nat), DataError>(
            (ResponseParser::LengthChksum(h[0]), 1nat),
        ),
        h.len() >= 2 && (h[0] + h[1]) % 256 != 0 ==> scan_header(ResponseParser::Length, h) == Err::<
            (ResponseParser, nat),
            DataError,
        >(DataError::InvalidChecksum(ChecksumType::Length)),
        h.len() == 2 && (h[0] + h[1]) % 256 == 0 ==> scan_header(ResponseParser::Length, h) == Ok::<
            (ResponseParser, nat),
            DataError,
        >((ResponseParser::FrameIdentifier(h[0]), 2nat)),
        h.len() >= 3 && (h[0] + h[1]) % 256 == 0 && h[2] != 0xD5 ==> scan_header(
            ResponseParser::Length,
            h,
        ) == Err::<(ResponseParser, nat), DataError>(DataError::InvalidByte(h[2], "0xD5")),
        h.len() >= 3 && (h[0] + h[1]) % 256 == 0 && h[2] == 0xD5 ==> scan_header(
            ResponseParser::Length,
            h,
        ) == Ok::<(ResponseParser, nat), DataError>((ResponseParser::Done(h[0]), 3nat)),
{
    reveal_with_fuel(scan_header, 4);
    if h.len() >= 1 {
        assert(h.drop_first()[0] == h[1] || h.len() < 2);
    }
    if h.len() >= 2 {
        assert(h.drop_first().drop_first().len() == h.len() - 2);
    }
    if h.len() >= 3 {
        assert(h.drop_first().drop_first()[0] == h[2]);
    }
}

/// A window without the preamble ends unexpectedly.
pub proof fn lemma_no_preamble<E>(w: Seq<u8>)
    requires
        forall|i: int| 1 <= i < w.len() ==> !(w[i - 1] == 0x00 && #[trigger] w[i] == 0xFF),
    ensures
        frame_outcome::<E>(w) == Err::<Seq<u8>, RecvError<E>>(RecvError::UnexpectedEnd),
{
    lemma_scan_preamble(w, w.len() as int);
}

/// After the first preamble, a length byte and length checksum that do not
/// add up to a multiple of 256 make the frame fail with a length checksum
/// error.
pub proof fn lemma_bad_length_checksum<E>(w: Seq<u8>, j: int)
    requires
        first_preamble_at(w, j),
        j + 2 < w.len(),
        (w[j + 1] + w[j + 2]) % 256 != 0,
    ensures
        frame_outcome::<E>(w) == Err::<Seq<u8>, RecvError<E>>(
            RecvError::InvalidData(DataError::InvalidChecksum(ChecksumType::Length)),
        ),
{
    lemma_scan_after_preamble(w, j);
    lemma_scan_length(w.skip(j + 1));
}

/// After the first preamble and a valid length, a byte other than `D5`
/// where the frame identifier belongs makes the frame fail with that byte.
pub proof fn lemma_bad_frame_identifier<E>(w: Seq<u8>, j: int)
    requires
        first_preamble_at(w, j),
        j + 3 < w.len(),
        (w[j + 1] + w[j + 2]) % 256 == 0,
        w[j + 3] != 0xD5,
    ensures
        frame_outcome::<E>(w) == Err::<Seq<u8>, RecvError<E>>(
            RecvError::InvalidData(DataError::InvalidByte(w[j + 3], "0xD5")),
        ),
{
    lemma_scan_after_preamble(w, j);
    lemma_scan_length(w.skip(j + 1));
}

/// A window that ends inside the header after the first preamble, with the
/// header bytes present valid, ends unexpectedly.
pub proof fn lemma_truncated_header<E>(w: Seq<u8>, j: int)
    requires
        first_preamble_at(w, j),
        w.len() <= j + 3,
        j + 2 < w.len() ==> (w[j + 1] + w[j + 2]) % 256 == 0,
    ensures
        frame_outcome::<E>(w) == Err::<Seq<u8>, RecvError<E>>(RecvError::UnexpectedEnd),
{
    lemma_scan_after_preamble(w, j);
    lemma_scan_length(w.skip(j + 1));
}

/// After a complete, valid header, fewer bytes than the declared length
/// make the frame end unexpectedly.
pub proof fn lemma_truncated_body<E>(w: Seq<u8>, j: int)
    requires
        first_preamble_at(w, j),
        j + 3 < w.len(),
        (w[j + 1] + w[j + 2]) % 256 == 0,
        w[j + 3] == 0xD5,
        w.len() - (j + 4) < w[j + 1],
    ensures
        frame_outcome::<E>(w) == Err::<Seq<u8>, RecvError<E>>(RecvError::UnexpectedEnd),
{
    lemma_scan_after_preamble(w, j);
    lemma_scan_length(w.skip(j + 1));
    assert(w.skip(j + 4) == w.skip(j + 1).skip(3));
}

/// After a complete, valid header declaring `L >= 1` bytes, all present, a
/// body whose `L` bytes do not sum, with `D5`, to a multiple of 256 makes
/// the frame fail with a data checksum error.
pub proof fn lemma_bad_data_checksum<E>(w: Seq<u8>, j: int)
    requires
        first_preamble_at(w, j),
        j + 3 < w.len(),
        (w[j + 1] + w[j + 2]) % 256 == 0,
        w[j + 3] == 0xD5,
        w[j + 1] >= 1,
        j + 4 + w[j + 1] <= w.len(),
        (0xD5 + byte_sum(w.subrange(j + 4, j + 4 + w[j + 1]))) % 256 != 0,
    ensures
        frame_outcome::<E>(w) == Err::<Seq<u8>, RecvError<E>>(
            RecvError::InvalidData(DataError::InvalidChecksum(ChecksumType::Data)),
        ),
{
    lemma_scan_after_preamble(w, j);
    lemma_scan_length(w.skip(j + 1));
    assert(w.skip(j + 4) == w.skip(j + 1).skip(3));
    assert(w.skip(j + 4).take(w[j + 1] as int) == w.subrange(j + 4, j + 4 + w[j + 1]));
}

/// The header parser takes exactly the five header bytes of a valid header.
proof fn lemma_header_scan(l: u8, body: Seq<u8>)
    ensures
        scan_header(ResponseParser::Preamble(PreambleParser::Start), reply_header(l) + body) == Ok::<
            (ResponseParser, nat),
            DataError,
        >((ResponseParser::Done(l), 5nat)),
        (reply_header(l) + body).skip(5) == body,
{
    let lcs = ((256 - l) % 256) as u8;
    assert(reply_header(l) + body == seq![0x00u8, 0xFFu8, l, lcs] + (seq![0xD5u8] + body));
    lemma_scan_prefix(l, lcs, seq![0xD5u8] + body);
    let t = seq![lcs] + (seq![0xD5u8] + body);
    assert(t[0] == lcs);
    assert(t.drop_first() == seq![0xD5u8] + body);
    assert((seq![0xD5u8] + body)[0] == 0xD5u8);
    assert((seq![0xD5u8] + body).drop_first() == body);
    reveal_with_fuel(scan_header, 3);
    assert((reply_header(l) + body).skip(5) == body);
}

/// An encoded frame keeps the frame invariants: the length byte counts the
/// payload and the frame identifier, the length and its checksum add up to
/// a multiple of 256, and so do the identifier, the payload and the data
/// checksum.
pub proof fn lemma_frame_checksums(data: Seq<u8>)
    requires
        data.len() <= 254,
    ensures
        frame_bytes(data).len() == data.len() + 6,
        frame_bytes(data)[2] == data.len() + 1,
        (frame_bytes(data)[2] + frame_bytes(data)[3]) % 256 == 0,
        frame_bytes(data)[4] == 0xD4,
        frame_bytes(data).subrange(5, data.len() + 5int) == data,
        (0xD4 + byte_sum(data) + frame_bytes(data).last()) % 256 == 0,
{
    let f = frame_bytes(data);
    assert(f.subrange(5, data.len() + 5int) == data);
}

/// What a loopback bus hands back for a frame that the host wrote: the same
/// bytes with the device's frame identifier, `D5`, and the data checksum
/// lowered by one to make up for it.
pub open spec fn loopback(f: Seq<u8>) -> Seq<u8> {
    f.update(4, 0xD5u8).update(f.len() - 1, ((f.last() + 255) % 256) as u8)
}

/// Encoding a payload and decoding what a loopback bus hands back gives the
/// payload again.
pub proof fn lemma_round_trip<E>(data: Seq<u8>)
    requires
        data.len() <= 254,
    ensures
        frame_outcome::<E>(loopback(frame_bytes(data))) == Ok::<Seq<u8>, RecvError<E>>(data),
{
    let l = (data.len() + 1) as u8;
    let f = frame_bytes(data);
    let dcs = ((256 - (0xD4 + byte_sum(data)) % 256) % 256) as u8;
    let dcs2 = ((dcs + 255) % 256) as u8;
    let body = data.push(dcs2);
    assert(loopback(f) == reply_header(l) + body);
    lemma_header_scan(l, body);
    assert(body.take(l as int) == body);
    lemma_byte_sum_push(data, dcs2);
    assert(body.take(l - 1) == data);
}

/// A loopback bus answers a poll with the ready byte `01`, then the frame
/// that the host wrote as `loopback` turns it, then any bytes at all.
/// Decoding that window gives the payload again.
pub proof fn lemma_round_trip_window<E>(data: Seq<u8>, tail: Seq<u8>)
    requires
        data.len() <= 254,
    ensures
        frame_outcome::<E>(seq![0x01u8] + loopback(frame_bytes(data)) + tail) == Ok::<
            Seq<u8>,
            RecvError<E>,
        >(data),
{
    let l = (data.len() + 1) as u8;
    let f = frame_bytes(data);
    let dcs = ((256 - (0xD4 + byte_sum(data)) % 256) % 256) as u8;
    let dcs2 = ((dcs + 255) % 256) as u8;
    let body = data.push(dcs2);
    assert(loopback(f) == reply_header(l) + body);
    let w = seq![0x01u8] + loopback(f) + tail;
    assert(w == seq![0x01u8] + reply_header(l) + body + tail);
    assert(w[0] == 0x01 && w[1] == 0x00 && w[2] == 0xFF);
    assert(first_preamble_at(w, 2));
    lemma_scan_after_preamble(w, 2);
    let h = w.skip(3);
    assert(h[0] == l && h[1] == ((256 - l) % 256) as u8 && h[2] == 0xD5);
    lemma_scan_length(h);
    assert(w.skip(6) == body + tail);
    assert(h.skip(3) == body + tail);
    assert((body + tail).take(l as int) == body);
    lemma_byte_sum_push(data, dcs2);
    assert(body.take(l - 1) == data);
    assert((body + tail).take(l - 1) == data);
}

/// Whether a window holds the preamble: a `00` directly followed by `FF`.
pub open spec fn has_preamble(w: Seq<u8>) -> bool {
    exists|i: int| 1 <= i < w.len() && w[i - 1] == 0x00 && #[trigger] w[i] == 0xFF
}

/// Looks for the preamble in a window read from the device. This is how an
/// acknowledgement is recognised; the rest of its signature is not checked.
pub fn find_preamble(window: &[u8]) -> (r: bool)
    ensures
        r == has_preamble(window@),
{
    let mut parser = PreambleParser::default();
    let mut i: usize = 0;
    while i < window.len()
        invariant
            i <= window@.len(),
            parser == (if i > 0 && window@[i - 1] == 0x00 {
                PreambleParser::ZeroFound
            } else {
                PreambleParser::Start
            }),
            forall|j: int| 1 <= j < i ==> !(window@[j - 1] == 0x00 && #[trigger] window@[j] == 0xFF),
        decreases window@.len() - i,
    {
        match parser.next(window[i]) {
            Some(q) => parser = q,
            None => return true,
        }
        i = i + 1;
    }
    false
}

/// Builds the frame that carries `data`.
pub fn encode_frame(data: &[u8]) -> (r: Vec<u8>)
    requires
        data@.len() <= 254,
    ensures
        r@ == frame_bytes(data@),
{
    let len: u8 = (data.len() + 1) as u8;
    let mut out: Vec<u8> = Vec::new();
    out.push(0x00);
    out.push(0xFF);
    out.push(len);
    out.push(0u8.wrapping_sub(len));
    out.push(0xD4);
    let mut i: usize = 0;
    while i < data.len()
        invariant
            i <= data@.len(),
            data@.len() <= 254,
            len as int == data@.len() + 1,
            out@ == seq![0x00u8, 0xFFu8, len, ((256 - len) % 256) as u8, 0xD4u8] + data@.take(
                i as int,
            ),
        decreases data@.len() - i,
    {
        out.push(data[i]);
        i = i + 1;
        assert(data@.take(i as int) == data@.take(i - 1).push(data@[i - 1]));
    }
    assert(data@.take(data@.len() as int) == data@);
    out.push(0u8.wrapping_sub(calc_checksum(0xD4, data)));
    out
}

/// `after` is `before` with one more window, of at most 32 bytes, whose
/// frame went into a destination that held `dst_before` as `delivers` says.
pub open spec fn received<E>(
    before: Seq<Seq<u8>>,
    after: Seq<Seq<u8>>,
    dst_before: Seq<u8>,
    dst_after: Seq<u8>,
    r: Result<usize, RecvError<E>>,
) -> bool {
    &&& after.len() == before.len() + 1
    &&& after.take(before.len() as int) == before
    &&& after.last().len() <= 32
    &&& delivers(after.last(), dst_before, dst_after, r)
}

/// `after` is `before` with one more window of 32 bytes, which holds the
/// preamble exactly when `found`.
pub open spec fn acked(before: Seq<Seq<u8>>, after: Seq<Seq<u8>>, found: bool) -> bool {
    &&& after.len() == before.len() + 1
    &&& after.take(before.len() as int) == before
    &&& after.last().len() == 32
    &&& has_preamble(after.last()) == found
}

/// The framing layer over a device that can be waited on and written to.
pub struct PN532Proto<D: WaitRead + BusWrite> {
    device: D,
    frames: Ghost<Seq<Seq<u8>>>,
    windows: Ghost<Seq<Seq<u8>>>,
}

impl<D: WaitRead + BusWrite> PN532Proto<D> {
    /// The device underneath.
    pub closed spec fn device(&self) -> D {
        self.device
    }

    /// Every frame handed to the device for writing, oldest first.
    pub closed spec fn frames(&self) -> Seq<Seq<u8>> {
        self.frames@
    }

    /// Every window read from the device, oldest first: the bytes that a
    /// successful wait left in the read buffer, up to the length it reported.
    pub closed spec fn windows(&self) -> Seq<Seq<u8>> {
        self.windows@
    }

    pub fn new(device: D) -> (r: Self)
        ensures
            r.device() == device,
            r.frames() == Seq::<Seq<u8>>::empty(),
            r.windows() == Seq::<Seq<u8>>::empty(),
    {
        PN532Proto { device: device, frames: Ghost(Seq::empty()), windows: Ghost(Seq::empty()) }
    }

    /// Sends `data` as the payload of one frame: writes `encode_frame(data)`
    /// in a single write.
    pub fn send(&mut self, data: &[u8]) -> (r: Result<(), SendError<D::WriteError>>)
        ensures
            data@.len() > 254 ==> (r matches Err(SendError::TooMuchData(n)) && n == data@.len()
                && *final(self) == *old(self)),
            data@.len() <= 254 ==> r is Ok || r matches Err(SendError::WriteError(_)),
            data@.len() <= 254 ==> final(self).frames() == old(self).frames().push(frame_bytes(data@)),
            final(self).windows() == old(self).windows(),
    {
        if data.len() > 254 {
            return Err(SendError::TooMuchData(data.len()));
        }
        let frame = encode_frame(data);
        self.frames = Ghost(self.frames@.push(frame@));
        match self.device.write(frame.as_slice()) {
            Ok(()) => Ok(()),
            Err(e) => Err(SendError::WriteError(e)),
        }
    }

    /// Sends `data`, then waits for the device to acknowledge it.
    pub fn send_wait_ack(&mut self, data: &[u8]) -> (r: CommResult<(), D::ReadError, D::WriteError>)
        ensures
            data@.len() > 254 ==> (r matches Err(CommError::SendError(SendError::TooMuchData(n)))
                && n == data@.len()),
            data@.len() <= 254 ==> !(r matches Err(CommError::SendError(SendError::TooMuchData(_)))),
            data@.len() <= 254 ==> final(self).frames() == old(self).frames().push(frame_bytes(data@)),
            data@.len() > 254 ==> final(self).frames() == old(self).frames(),
            r matches Err(CommError::SendError(_)) ==> final(self).windows() == old(self).windows(),
            r matches Err(CommError::RecvError(RecvError::ReadError(_))) ==> final(self).windows()
                == old(self).windows(),
            (r is Ok || r matches Err(CommError::RecvError(RecvError::UnexpectedEnd))) ==> acked(
                old(self).windows(),
                final(self).windows(),
                r is Ok,
            ),
            r is Err ==> match r->Err_0 {
                CommError::SendError(_) => true,
                CommError::RecvError(e) => e is ReadError || e is UnexpectedEnd,
            },
    {
        match self.send(data) {
            Ok(()) => {},
            Err(e) => return Err(CommError::SendError(e)),
        }
        match self.recv_ack() {
            Ok(()) => Ok(()),
            Err(e) => Err(CommError::RecvError(e)),
        }
    }

    /// Decodes the frame in `recved` and copies its payload into `dst`,
    /// dropping what does not fit. Returns the count copied.
    pub fn process_packet(recved: &[u8], dst: &mut [u8]) -> (r: Result<
        usize,
        RecvError<D::ReadError>,
    >)
        ensures
            delivers(recved@, old(dst)@, final(dst)@, r),
            r matches Ok(n) ==> n <= 254,
    {
        let ghost w = recved@;
        let ghost start = ResponseParser::Preamble(PreambleParser::Start);
        let mut parser = ResponseParser::default();
        let mut i: usize = 0;
        let mut more = true;
        assert(w.skip(0) == w);
        while more && i < recved.len()
            invariant
                w == recved@,
                start == ResponseParser::Preamble(PreambleParser::Start),
                dst@ == old(dst)@,
                i <= w.len(),
                more == !(parser is Done),
                scan_header(start, w) == shift_taken(scan_header(parser, w.skip(i as int)), i as nat),
            decreases w.len() - i,
        {
            assert(w.skip(i as int)[0] == w[i as int]);
            assert(w.skip(i as int).drop_first() == w.skip(i + 1));
            match parser.next(recved[i]) {
                Ok(m) => more = m,
                Err(e) => {
                    assert(scan_header(start, w) == Err::<(ResponseParser, nat), DataError>(e));
                    return Err(RecvError::InvalidData(e));
                },
            }
            i = i + 1;
        }
        let len: usize = match parser.pkt_len() {
            Some(l) => l as usize,
            None => return Err(RecvError::UnexpectedEnd),
        };
        assert(scan_header(start, w) == Ok::<(ResponseParser, nat), DataError>((parser, i as nat)));
        if len > recved.len() - i {
            return Err(RecvError::UnexpectedEnd);
        }
        if len == 0 {
            return Err(RecvError::InvalidData(DataError::InvalidByte(0, "value at least 0x01")));
        }
        let frame = &recved[i..i + len];
        assert(frame@ == w.skip(i as int).take(len as int));
        if calc_checksum(0xD5, frame) != 0 {
            return Err(RecvError::InvalidData(DataError::InvalidChecksum(ChecksumType::Data)));
        }
        let to_copy = if len - 1 < dst.len() {
            len - 1
        } else {
            dst.len()
        };
        let ghost before = dst@;
        let mut j: usize = 0;
        while j < to_copy
            invariant
                j <= to_copy,
                to_copy <= len - 1,
                to_copy <= before.len(),
                i + len <= recved@.len(),
                frame@ == recved@.subrange(i as int, i + len),
                dst@.len() == before.len(),
                forall|k: int| 0 <= k < j ==> dst@[k] == frame@[k],
                forall|k: int| j <= k < dst@.len() ==> dst@[k] == before[k],
            decreases to_copy - j,
        {
            dst[j] = frame[j];
            j = j + 1;
        }
        assert(dst@ == frame@.take(len - 1).take(to_copy as int) + before.skip(to_copy as int));
        assert(frame@.take(len - 1) == w.skip(i as int).take(len - 1));
        assert(frame_outcome::<D::ReadError>(w) == Ok::<Seq<u8>, RecvError<D::ReadError>>(
            frame@.take(len - 1),
        ));
        Ok(to_copy)
    }

    /// Waits for one window from the device and decodes the frame in it
    /// into `dst`.
    pub fn recv(&mut self, dst: &mut [u8]) -> (r: Result<usize, RecvError<D::ReadError>>)
        ensures
            final(self).frames() == old(self).frames(),
            final(dst)@.len() == old(dst)@.len(),
            r matches Ok(n) ==> n <= old(dst)@.len() && n <= 254 && final(dst)@.skip(n as int)
                == old(dst)@.skip(n as int),
            r is Err ==> final(dst)@ == old(dst)@,
            r matches Err(RecvError::ReadError(_)) ==> final(self).windows() == old(self).windows(),
            !(r matches Err(RecvError::ReadError(_))) ==> received(
                old(self).windows(),
                final(self).windows(),
                old(dst)@,
                final(dst)@,
                r,
            ),
    {
        let mut buf = [0u8; 32];
        let len = match self.device.wait_read(&mut buf) {
            Ok(n) => n,
            Err(e) => return Err(RecvError::ReadError(e)),
        };
        let window = &buf[0..len];
        let ghost before = self.windows@;
        self.windows = Ghost(self.windows@.push(window@));
        assert(self.windows@.take(before.len() as int) == before);
        Self::process_packet(window, dst)
    }

    /// Waits for one window from the device and checks that it holds an
    /// acknowledgement.
    pub fn recv_ack(&mut self) -> (r: Result<(), RecvError<D::ReadError>>)
        ensures
            final(self).frames() == old(self).frames(),
            r is Err ==> r->Err_0 is ReadError || r->Err_0 is UnexpectedEnd,
            r is Err && r->Err_0 is ReadError ==> final(self).windows() == old(self).windows(),
            !(r is Err && r->Err_0 is ReadError) ==> acked(
                old(self).windows(),
                final(self).windows(),
                r is Ok,
            ),
    {
        let mut buf = [0u8; 32];
        match self.device.wait_read(&mut buf) {
            Ok(_) => {},
            Err(e) => return Err(RecvError::ReadError(e)),
        }
        let ghost before = self.windows@;
        self.windows = Ghost(self.windows@.push(buf@));
        assert(self.windows@.take(before.len() as int) == before);
        if find_preamble(&buf) {
            Ok(())
        } else {
            Err(RecvError::UnexpectedEnd)
        }
    }
}

impl<D: WaitReadTimeout + BusWrite> PN532Proto<D> {
    /// As `recv`, but the wait for the device gives up after `timeout`.
    pub fn recv_with_timeout(&mut self, dst: &mut [u8], timeout: D::Duration) -> (r: WaitResult<
        usize,
        RecvError<D::ReadError>,
    >)
        ensures
            final(self).frames() == old(self).frames(),
            final(dst)@.len() == old(dst)@.len(),
            r matches Ok(n) ==> n <= old(dst)@.len() && final(dst)@.skip(n as int) == old(dst)@.skip(n as int),
            r is Err ==> final(dst)@ == old(dst)@,
            r matches Ok(n) ==> n <= 254 && received(
                old(self).windows(),
                final(self).windows(),
                old(dst)@,
                final(dst)@,
                Ok::<usize, RecvError<D::ReadError>>(n),
            ),
            match r {
                Err(WaitError::OtherError(e)) => if e is ReadError {
                    final(self).windows() == old(self).windows()
                } else {
                    received(
                        old(self).windows(),
                        final(self).windows(),
                        old(dst)@,
                        final(dst)@,
                        Err::<usize, RecvError<D::ReadError>>(e),
                    )
                },
                Err(WaitError::Timeout) => final(self).windows() == old(self).windows(),
                Ok(_) => true,
            },
    {
        let mut buf = [0u8; 32];
        let len = match self.device.wait_read_timeout(&mut buf, timeout) {
            Ok(n) => n,
            Err(e) => return Err(e.map(|x: D::ReadError| -> (y: RecvError<D::ReadError>)
                ensures
                    y == RecvError::ReadError(x),
                { RecvError::ReadError(x) })),
        };
        let window = &buf[0..len];
        let ghost before = self.windows@;
        self.windows = Ghost(self.windows@.push(window@));
        assert(self.windows@.take(before.len() as int) == before);
        match Self::process_packet(window, dst) {
            Ok(n) => Ok(n),
            Err(e) => {
                assert(!(e is ReadError));
                Err(WaitError::OtherError(e))
            },
        }
    }
}

} // verus!
