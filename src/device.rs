//! The command session: configuration, listing tags, and exchanging data
//! with a tag, each a round trip over the framing layer.
use vstd::prelude::*;
use crate::bus::{BusWrite, WaitRead};
use crate::error::{CommError, CommResult, DataError, RecvError, SendError};
use crate::proto::{acked, delivers, frame_bytes, frame_outcome, received, PN532Proto};
use crate::tags::{PN532Transceive, TagBuffer, TagListOptions, TagResponse, Tags};

verus! {

/// Mode of the security access module, with its timeout where it has one.
#[derive(Copy, Clone, Debug, Eq, PartialEq)]
pub enum SAMMode {
    Normal(Option<u8>),
    VirtualCard(u8),
    WiredCard(Option<u8>),
    DualCard(Option<u8>),
}

impl SAMMode {
    /// The mode's code on the wire.
    pub open spec fn spec_code(self) -> u8 {
        match self {
            SAMMode::Normal(_) => 0x01,
            SAMMode::VirtualCard(_) => 0x02,
            SAMMode::WiredCard(_) => 0x03,
            SAMMode::DualCard(_) => 0x04,
        }
    }

    /// The mode's timeout, if it has one.
    pub open spec fn spec_timeout(self) -> Option<u8> {
        match self {
            SAMMode::Normal(to) => to,
            SAMMode::VirtualCard(to) => Some(to),
            SAMMode::WiredCard(to) => to,
            SAMMode::DualCard(to) => to,
        }
    }

    /// The configuration command: opcode, mode, the timeout where there is
    /// one, and `01`.
    pub open spec fn spec_command(self) -> Seq<u8> {
        match self.spec_timeout() {
            Some(to) => seq![0x14u8, self.spec_code(), to, 0x01u8],
            None => seq![0x14u8, self.spec_code(), 0x01u8],
        }
    }

    pub fn code(self) -> (r: u8)
        ensures
            r == self.spec_code(),
    {
        match self {
            SAMMode::Normal(_) => 0x01,
            SAMMode::VirtualCard(_) => 0x02,
            SAMMode::WiredCard(_) => 0x03,
            SAMMode::DualCard(_) => 0x04,
        }
    }

    /// Builds the configuration command for this mode.
    pub fn command(self) -> (r: Vec<u8>)
        ensures
            r@ == self.spec_command(),
    {
        let mut cmd: Vec<u8> = Vec::new();
        cmd.push(0x14);
        cmd.push(self.code());
        match self.timeout() {
            Some(to) => cmd.push(to),
            None => {},
        }
        cmd.push(0x01);
        cmd
    }

    pub fn timeout(self) -> (r: Option<u8>)
        ensures
            r == self.spec_timeout(),
    {
        match self {
            SAMMode::Normal(to) => to,
            SAMMode::VirtualCard(to) => Some(to),
            SAMMode::WiredCard(to) => to,
            SAMMode::DualCard(to) => to,
        }
    }
}

/// The opcode of the command that lists passive tags.
pub const LIST_TAGS: u8 = 0x4A;

/// The opcode of the command that exchanges data with a tag.
pub const TRANSCEIVE: u8 = 0x40;

/// The byte that opens the reply to a configuration command.
pub const SAM_CONFIGURE_REPLY: u8 = 0x15;

/// The bytes that a reply with payload `p` leaves in a zeroed 256-byte
/// buffer.
pub open spec fn reply_buffer(p: Seq<u8>) -> Seq<u8> {
    p + Seq::new((256 - p.len()) as nat, |i: int| 0u8)
}

/// `after` is `before` with the acknowledgement window, which held the
/// preamble, and then the reply window, whose frame went into a destination
/// that held `dst_before` as `delivers` says.
pub open spec fn replied<E>(
    before: Seq<Seq<u8>>,
    after: Seq<Seq<u8>>,
    dst_before: Seq<u8>,
    dst_after: Seq<u8>,
    r: Result<usize, RecvError<E>>,
) -> bool {
    &&& after.len() == before.len() + 2
    &&& acked(before, after.drop_last(), true)
    &&& received(after.drop_last(), after, dst_before, dst_after, r)
}

/// As `replied`, for a reply that was decoded without error.
pub open spec fn replied_ok<E>(
    before: Seq<Seq<u8>>,
    after: Seq<Seq<u8>>,
    dst_before: Seq<u8>,
    dst_after: Seq<u8>,
) -> bool {
    exists|n: usize| #[trigger] replied(before, after, dst_before, dst_after, Ok::<usize, RecvError<E>>(n))
}

/// How a command's result follows from the windows read for it: nothing is
/// read when sending fails; a read error leaves at most the acknowledgement
/// window, which held the preamble; a missing acknowledgement ends the
/// command with `UnexpectedEnd`; otherwise the reply window decides the
/// result.
pub open spec fn command_outcome<R, W>(
    before: Seq<Seq<u8>>,
    after: Seq<Seq<u8>>,
    dst_before: Seq<u8>,
    dst_after: Seq<u8>,
    r: CommResult<usize, R, W>,
) -> bool {
    match r {
        Err(CommError::SendError(_)) => after == before && dst_after == dst_before,
        Err(CommError::RecvError(RecvError::ReadError(_))) => dst_after == dst_before && (after
            == before || acked(before, after, true)),
        Err(CommError::RecvError(e)) => (e is UnexpectedEnd && acked(before, after, false)
            && dst_after == dst_before) || replied(
            before,
            after,
            dst_before,
            dst_after,
            Err::<usize, RecvError<R>>(e),
        ),
        Ok(n) => replied(before, after, dst_before, dst_after, Ok::<usize, RecvError<R>>(n)),
    }
}

/// The result of checking a configuration reply whose payload is `p`.
pub open spec fn sam_reply_result<R, W>(p: Seq<u8>) -> CommResult<(), R, W> {
    if p.len() == 0 {
        Err(CommError::RecvError(RecvError::UnexpectedEnd))
    } else if p[0] == SAM_CONFIGURE_REPLY {
        Ok(())
    } else {
        Err(CommError::RecvError(RecvError::InvalidData(DataError::InvalidByte(p[0], "0x15"))))
    }
}

/// The result of a configuration command whose reply window was `w`.
pub open spec fn sam_outcome<R, W>(w: Seq<u8>) -> CommResult<(), R, W> {
    match frame_outcome::<R>(w) {
        Err(e) => Err(CommError::RecvError(e)),
        Ok(p) => sam_reply_result::<R, W>(p),
    }
}

/// The command that lists tags with the given options.
pub open spec fn list_command<'a, O: TagListOptions<'a>>(options: O) -> Seq<u8> {
    seq![LIST_TAGS] + options.encoded(255)
}

/// The command that sends `data_out` to tag `tag_number`: as much of it as
/// fits in a 256-byte command, that is its first 254 bytes.
pub open spec fn transceive_command(tag_number: u8, data_out: Seq<u8>) -> Seq<u8> {
    seq![TRANSCEIVE, tag_number] + if data_out.len() <= 254 {
        data_out
    } else {
        data_out.take(254)
    }
}

/// A PN532 controller on some bus.
pub struct PN532<D: WaitRead + BusWrite> {
    device: PN532Proto<D>,
    exchanges: Ghost<Seq<(u8, Seq<u8>)>>,
}

impl<D: WaitRead + BusWrite> PN532<D> {
    /// The framing layer underneath.
    pub closed spec fn proto(&self) -> PN532Proto<D> {
        self.device
    }

    pub fn new(device: D) -> (r: Self)
        ensures
            r.proto().device() == device,
            r.proto().frames() == Seq::<Seq<u8>>::empty(),
            r.proto().windows() == Seq::<Seq<u8>>::empty(),
    {
        PN532 { device: PN532Proto::new(device), exchanges: Ghost(Seq::empty()) }
    }

    /// Sends `cmd` and waits for the acknowledgement, then receives the
    /// reply into `dst`.
    fn command(&mut self, cmd: &[u8], dst: &mut [u8]) -> (r: CommResult<
        usize,
        D::ReadError,
        D::WriteError,
    >)
        ensures
            final(self).exchanged() == old(self).exchanged(),
            final(dst)@.len() == old(dst)@.len(),
            r matches Ok(n) ==> n <= old(dst)@.len() && n <= 254,
            cmd@.len() <= 254 ==> !(r matches Err(CommError::SendError(SendError::TooMuchData(_)))),
            cmd@.len() > 254 ==> (r matches Err(CommError::SendError(SendError::TooMuchData(n))) && n
                == cmd@.len()),
            cmd@.len() <= 254 ==> final(self).proto().frames() == old(self).proto().frames().push(
                frame_bytes(cmd@),
            ),
            cmd@.len() > 254 ==> final(self).proto().frames() == old(self).proto().frames(),
            command_outcome(
                old(self).proto().windows(),
                final(self).proto().windows(),
                old(dst)@,
                final(dst)@,
                r,
            ),
    {
        match self.device.send_wait_ack(cmd) {
            Ok(()) => {},
            Err(e) => return Err(e),
        }
        let ghost acked_windows = self.device.windows();
        let r = match self.device.recv(dst) {
            Ok(n) => Ok(n),
            Err(e) => Err(CommError::RecvError(e)),
        };
        proof {
            if !(r matches Err(CommError::RecvError(RecvError::ReadError(_)))) {
                assert(self.device.windows().drop_last() == acked_windows);
            }
        }
        r
    }

    /// Configures the security access module: sends `mode.command()` and
    /// checks the first byte of the reply, which must be `15`.
    pub fn sam_configure(&mut self, mode: SAMMode) -> (r: CommResult<(), D::ReadError, D::WriteError>)
        ensures
            !(r matches Err(CommError::SendError(SendError::TooMuchData(_)))),
            final(self).proto().frames() == old(self).proto().frames().push(
                frame_bytes(mode.spec_command()),
            ),
            ({
                let before = old(self).proto().windows();
                let after = final(self).proto().windows();
                match r {
                    Err(CommError::SendError(_)) => after == before,
                    Err(CommError::RecvError(RecvError::ReadError(_))) => after == before || acked(
                        before,
                        after,
                        true,
                    ),
                    _ => (r matches Err(CommError::RecvError(RecvError::UnexpectedEnd)) && acked(
                        before,
                        after,
                        false,
                    )) || (after.len() == before.len() + 2 && acked(before, after.drop_last(), true)
                        && after.last().len() <= 32 && r == sam_outcome::<
                        D::ReadError,
                        D::WriteError,
                    >(after.last())),
                }
            }),
    {
        let cmd = mode.command();
        let mut rcvbuf = [0u8; 1];
        let len = match self.command(cmd.as_slice(), &mut rcvbuf) {
            Ok(n) => n,
            Err(e) => return Err(e),
        };
        let reply = &rcvbuf[0..len];
        proof {
            let w = self.device.windows().last();
            let p = frame_outcome::<D::ReadError>(w)->Ok_0;
            assert(reply@ == p.take(len as int));
        }
        check_sam_reply(reply)
    }

    /// Lists the tags in the field: sends `4A` and the options' parameters,
    /// receives the reply straight into `buf`, and returns cursors over it.
    pub fn list_tags<'buf, 's, O: TagListOptions<'buf>>(&'s mut self, options: O, buf: &'buf mut TagBuffer) -> (r: CommResult<
        Tags<'s, 'buf, O::Response, Self>,
        D::ReadError,
        D::WriteError,
    >)
        ensures
            list_command(options).len() <= 254 ==> !(r matches Err(
                CommError::SendError(SendError::TooMuchData(_)),
            )),
            list_command(options).len() > 254 ==> (r matches Err(
                CommError::SendError(SendError::TooMuchData(n)),
            ) && n == list_command(options).len()),
            r matches Ok(tags) ==> tags.spec_count() == final(buf).bytes()[1]
                && tags.response().record() == final(buf).bytes().skip(2),
            r matches Ok(tags) ==> tags.pn532().proto().frames() == old(self).proto().frames().push(
                frame_bytes(list_command(options)),
            ),
            r matches Ok(tags) ==> replied_ok::<D::ReadError>(
                old(self).proto().windows(),
                tags.pn532().proto().windows(),
                old(buf).bytes(),
                final(buf).bytes(),
            ),
            r matches Err(e) ==> final(buf).bytes() == old(buf).bytes() && (list_command(options).len()
                <= 254 ==> final(self).proto().frames() == old(self).proto().frames().push(
                frame_bytes(list_command(options)),
            )) && command_outcome(
                old(self).proto().windows(),
                final(self).proto().windows(),
                old(buf).bytes(),
                final(buf).bytes(),
                Err::<usize, CommError<D::ReadError, D::WriteError>>(e),
            ),
    {
        let mut params = [0u8; 255];
        let n = options.fill_buf(&mut params);
        let mut cmd: Vec<u8> = Vec::new();
        cmd.push(LIST_TAGS);
        let mut i: usize = 0;
        while i < n
            invariant
                n <= 255,
                i <= n,
                cmd@ == seq![LIST_TAGS] + params@.take(i as int),
            decreases n - i,
        {
            cmd.push(params[i]);
            i = i + 1;
            assert(params@.take(i as int) == params@.take(i - 1).push(params@[i - 1]));
        }
        assert(cmd@ == list_command(options));
        proof {
            buf.lemma_bytes();
        }
        let len = match self.command(cmd.as_slice(), &mut buf.buf) {
            Ok(len) => len,
            Err(e) => {
                proof {
                    buf.lemma_bytes();
                }
                return Err(e);
            },
        };
        proof {
            buf.lemma_bytes();
        }
        let ghost windows_before = old(self).proto().windows();
        let ghost buf_before = old(buf).bytes();
        assert(replied(
            windows_before,
            self.device.windows(),
            buf_before,
            buf.bytes(),
            Ok::<usize, RecvError<D::ReadError>>(len),
        ));
        let buf: &'buf TagBuffer = buf;
        proof {
            buf.lemma_len();
        }
        let tags = Tags::new(buf, self);
        assert(replied(
            windows_before,
            tags.pn532().proto().windows(),
            buf_before,
            buf.bytes(),
            Ok::<usize, RecvError<D::ReadError>>(len),
        ));
        assert(replied_ok::<D::ReadError>(windows_before, tags.pn532().proto().windows(), buf_before, buf.bytes()));
        Ok(tags)
    }
}

/// Checks the reply to a configuration command: its first byte must be
/// `15`.
pub fn check_sam_reply<R, W>(reply: &[u8]) -> (r: CommResult<(), R, W>)
    ensures
        r == sam_reply_result::<R, W>(reply@),
{
    if reply.len() > 0 {
        if reply[0] == SAM_CONFIGURE_REPLY {
            Ok(())
        } else {
            Err(CommError::RecvError(RecvError::InvalidData(DataError::InvalidByte(reply[0], "0x15"))))
        }
    } else {
        Err(CommError::RecvError(RecvError::UnexpectedEnd))
    }
}

/// Copies the data of a reply to a data exchange into `data_in`: the reply
/// was received into `reply` and took `len` bytes, of which the first two
/// are its opcode and status. As many bytes as fit, up to `len`, are copied
/// from the reply's third byte on; their count is returned.
pub fn copy_reply_data(reply: &[u8], len: usize, data_in: &mut [u8]) -> (n: usize)
    requires
        len <= 254,
        reply@.len() == 256,
    ensures
        n == (if len < old(data_in)@.len() {
            len
        } else {
            old(data_in)@.len() as usize
        }),
        final(data_in)@ == reply@.subrange(2, 2 + n) + old(data_in)@.skip(n as int),
{
    let n = if len < data_in.len() {
        len
    } else {
        data_in.len()
    };
    let ghost before = data_in@;
    let mut j: usize = 0;
    while j < n
        invariant
            j <= n,
            n <= len,
            len <= 254,
            n <= before.len(),
            reply@.len() == 256,
            data_in@.len() == before.len(),
            forall|k: int| 0 <= k < j ==> data_in@[k] == reply@[k + 2],
            forall|k: int| j <= k < before.len() ==> data_in@[k] == before[k],
        decreases n - j,
    {
        data_in[j] = reply[j + 2];
        j = j + 1;
    }
    assert(data_in@ =~= reply@.subrange(2, 2 + n) + before.skip(n as int));
    n
}

impl<D: WaitRead + BusWrite> PN532Transceive for PN532<D> {
    type TransceiveError = CommError<D::ReadError, D::WriteError>;

    closed spec fn exchanged(&self) -> Seq<(u8, Seq<u8>)> {
        self.exchanges@
    }

    /// Sends `40`, the tag number and as much of `data_out` as fits in a
    /// frame, and copies the reply's data, from its third byte on, into
    /// `data_in` with `copy_reply_data`.
    fn transceive(&mut self, tag_number: u8, data_out: &[u8], data_in: &mut [u8]) -> (r: CommResult<
        usize,
        D::ReadError,
        D::WriteError,
    >)
        ensures
            data_out@.len() > 252 ==> (r matches Err(CommError::SendError(SendError::TooMuchData(n)))
                && n == transceive_command(tag_number, data_out@).len()
                && final(self).proto().frames() == old(self).proto().frames()),
            data_out@.len() <= 252 ==> !(r matches Err(
                CommError::SendError(SendError::TooMuchData(_)),
            )),
            data_out@.len() <= 252 ==> final(self).proto().frames() == old(self).proto().frames().push(
                frame_bytes(transceive_command(tag_number, data_out@)),
            ),
            ({
                let before = old(self).proto().windows();
                let after = final(self).proto().windows();
                match r {
                    Ok(n) => {
                        &&& after.len() == before.len() + 2
                        &&& acked(before, after.drop_last(), true)
                        &&& after.last().len() <= 32
                        &&& match frame_outcome::<D::ReadError>(after.last()) {
                            Ok(p) => n == (if p.len() < old(data_in)@.len() {
                                p.len()
                            } else {
                                old(data_in)@.len()
                            }) && final(data_in)@ == reply_buffer(p).subrange(2, 2 + n) + old(
                                data_in,
                            )@.skip(n as int),
                            Err(_) => false,
                        }
                    },
                    Err(e) => final(data_in)@ == old(data_in)@ && command_outcome(
                        before,
                        after,
                        reply_buffer(Seq::empty()),
                        reply_buffer(Seq::empty()),
                        Err::<usize, CommError<D::ReadError, D::WriteError>>(e),
                    ),
                }
            }),
    {
        self.exchanges = Ghost(self.exchanges@.push((tag_number, data_out@)));
        let to_copy = if data_out.len() < 254 {
            data_out.len()
        } else {
            254
        };
        let mut cmd: Vec<u8> = Vec::new();
        cmd.push(TRANSCEIVE);
        cmd.push(tag_number);
        let mut i: usize = 0;
        while i < to_copy
            invariant
                to_copy <= 254,
                to_copy <= data_out@.len(),
                i <= to_copy,
                cmd@ == seq![TRANSCEIVE, tag_number] + data_out@.take(i as int),
            decreases to_copy - i,
        {
            cmd.push(data_out[i]);
            i = i + 1;
            assert(data_out@.take(i as int) == data_out@.take(i - 1).push(data_out@[i - 1]));
        }
        assert(data_out@.len() <= 254 ==> data_out@.take(to_copy as int) == data_out@);
        assert(cmd@ == transceive_command(tag_number, data_out@));
        let mut reply = [0u8; 256];
        assert(reply@ == reply_buffer(Seq::empty()));
        let len = match self.command(cmd.as_slice(), &mut reply) {
            Ok(n) => n,
            Err(e) => return Err(e),
        };
        proof {
            let w = self.device.windows().last();
            let p = frame_outcome::<D::ReadError>(w)->Ok_0;
            assert(reply@ == reply_buffer(p));
        }
        Ok(copy_reply_data(&reply, len, data_in))
    }
}

} // verus!
