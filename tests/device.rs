use pn532::bus::{BusWrite, WaitRead};
use pn532::error::{CommError, DataError, RecvError, SendError};
use pn532::tags::{
    FeliCaBaudrate, FeliCaListOptions, ISO14443AListOptions, ISO14443BListOptions, JewelTagListOptions,
    PN532Transceive, PollingMethod, TagBuffer, TagListOptions, TagNumLimit,
};
use pn532::{check_sam_reply, SAMMode, PN532};
use std::cell::RefCell;
use std::cmp::min;
use std::collections::VecDeque;
use std::io;
use std::rc::Rc;

const ACK: [u8; 7] = [0x01, 0x00, 0x00, 0xFF, 0x00, 0xFF, 0x00];

/// Answers each wait with the next scripted window and logs every write.
struct Scripted {
    windows: VecDeque<Vec<u8>>,
    written: Rc<RefCell<Vec<Vec<u8>>>>,
}

impl WaitRead for Scripted {
    type ReadError = io::Error;

    fn wait_read(&mut self, buf: &mut [u8]) -> Result<usize, io::Error> {
        let w = self.windows.pop_front().unwrap_or_default();
        for b in buf.iter_mut() {
            *b = 0;
        }
        let n = min(buf.len(), w.len());
        buf[..n].copy_from_slice(&w[..n]);
        Ok(buf.len())
    }
}

impl BusWrite for Scripted {
    type WriteError = io::Error;

    fn write(&mut self, buf: &[u8]) -> Result<(), io::Error> {
        self.written.borrow_mut().push(buf.to_vec());
        Ok(())
    }
}

/// A ready window holding a device-to-host frame with `payload`.
fn reply(payload: &[u8]) -> Vec<u8> {
    let len = (payload.len() + 1) as u8;
    let mut v = vec![0x01, 0x00, 0xFF, len, len.wrapping_neg(), 0xD5];
    v.extend_from_slice(payload);
    let sum = payload.iter().fold(0xD5u8, |a, b| a.wrapping_add(*b));
    v.push(sum.wrapping_neg());
    v
}

/// The host-to-device frame carrying `payload`.
fn frame(payload: &[u8]) -> Vec<u8> {
    let len = (payload.len() + 1) as u8;
    let mut v = vec![0x00, 0xFF, len, len.wrapping_neg(), 0xD4];
    v.extend_from_slice(payload);
    let sum = payload.iter().fold(0xD4u8, |a, b| a.wrapping_add(*b));
    v.push(sum.wrapping_neg());
    v
}

fn scripted(windows: Vec<Vec<u8>>) -> (PN532<Scripted>, Rc<RefCell<Vec<Vec<u8>>>>) {
    let log = Rc::new(RefCell::new(Vec::new()));
    let dev = Scripted { windows: windows.into_iter().collect(), written: log.clone() };
    (PN532::new(dev), log)
}

#[test]
fn sam_configure_without_timeout() {
    let (mut pn, log) = scripted(vec![ACK.to_vec(), reply(&[0x15])]);
    pn.sam_configure(SAMMode::Normal(None)).unwrap();
    assert_eq!(*log.borrow(), vec![frame(&[0x14, 0x01, 0x01])]);
    assert_eq!(log.borrow()[0][5..8], [0x14, 0x01, 0x01]);
    assert_eq!(log.borrow()[0].len(), 9);
}

#[test]
fn sam_configure_with_timeout() {
    let (mut pn, log) = scripted(vec![ACK.to_vec(), reply(&[0x15])]);
    pn.sam_configure(SAMMode::Normal(Some(5))).unwrap();
    assert_eq!(*log.borrow(), vec![frame(&[0x14, 0x01, 5, 0x01])]);
}

#[test]
fn sam_configure_virtual_card_always_has_timeout() {
    let (mut pn, log) = scripted(vec![ACK.to_vec(), reply(&[0x15])]);
    pn.sam_configure(SAMMode::VirtualCard(9)).unwrap();
    assert_eq!(*log.borrow(), vec![frame(&[0x14, 0x02, 9, 0x01])]);
}

#[test]
fn sam_configure_wrong_reply() {
    let (mut pn, _) = scripted(vec![ACK.to_vec(), reply(&[0x16, 0x00])]);
    let r = pn.sam_configure(SAMMode::DualCard(None));
    assert!(matches!(
        r,
        Err(CommError::RecvError(RecvError::InvalidData(DataError::InvalidByte(0x16, "0x15"))))
    ));
}

#[test]
fn sam_configure_empty_reply() {
    let (mut pn, _) = scripted(vec![ACK.to_vec(), reply(&[])]);
    let r = pn.sam_configure(SAMMode::WiredCard(None));
    assert!(matches!(r, Err(CommError::RecvError(RecvError::UnexpectedEnd))));
}

#[test]
fn sam_configure_without_ack() {
    let (mut pn, _) = scripted(vec![vec![0x01, 0x02, 0x03]]);
    let r = pn.sam_configure(SAMMode::Normal(None));
    assert!(matches!(r, Err(CommError::RecvError(RecvError::UnexpectedEnd))));
}

#[test]
fn sam_reply_check() {
    assert!(check_sam_reply::<(), ()>(&[0x15]).is_ok());
    assert!(matches!(check_sam_reply::<(), ()>(&[]), Err(CommError::RecvError(RecvError::UnexpectedEnd))));
    assert!(matches!(
        check_sam_reply::<(), ()>(&[0x00]),
        Err(CommError::RecvError(RecvError::InvalidData(DataError::InvalidByte(0x00, "0x15"))))
    ));
}

#[test]
fn sam_mode_commands() {
    assert_eq!(SAMMode::Normal(None).command(), vec![0x14, 0x01, 0x01]);
    assert_eq!(SAMMode::Normal(Some(5)).command(), vec![0x14, 0x01, 5, 0x01]);
    assert_eq!(SAMMode::VirtualCard(0x14).command(), vec![0x14, 0x02, 0x14, 0x01]);
    assert_eq!(SAMMode::WiredCard(None).command(), vec![0x14, 0x03, 0x01]);
}

#[test]
fn sam_mode_codes() {
    assert_eq!(SAMMode::Normal(Some(1)).code(), 0x01);
    assert_eq!(SAMMode::VirtualCard(1).code(), 0x02);
    assert_eq!(SAMMode::WiredCard(None).code(), 0x03);
    assert_eq!(SAMMode::DualCard(None).code(), 0x04);
    assert_eq!(SAMMode::Normal(None).timeout(), None);
    assert_eq!(SAMMode::VirtualCard(7).timeout(), Some(7));
    assert_eq!(SAMMode::DualCard(Some(3)).timeout(), Some(3));
}

#[test]
fn iso14443a_options_encoding() {
    let mut buf = [0xAAu8; 16];
    let uid = [1u8, 2, 3];
    let o = ISO14443AListOptions { limit: TagNumLimit::Two, uid: Some(&uid) };
    assert_eq!(o.fill_buf(&mut buf), 5);
    assert_eq!(buf[..6], [2, 0, 1, 2, 3, 0xAA]);

    let o = ISO14443AListOptions { limit: TagNumLimit::One, uid: None };
    assert_eq!(o.fill_buf(&mut buf), 2);
    assert_eq!(buf[..3], [1, 0, 1]);

    let long = [9u8; 10];
    let mut small = [0u8; 7];
    let o = ISO14443AListOptions { limit: TagNumLimit::One, uid: Some(&long) };
    assert_eq!(o.fill_buf(&mut small), 7);
    assert_eq!(small, [1, 0, 9, 9, 9, 9, 9]);
}

#[test]
fn limit_bytes() {
    assert_eq!(u8::from(TagNumLimit::One), 1);
    assert_eq!(u8::from(TagNumLimit::Two), 2);
}

fn two_tag_reply() -> Vec<u8> {
    reply(&[
        0x4B, 0x02, // reply opcode, tag count
        0x01, 0x00, 0x04, 0x08, 0x04, 0xDE, 0xAD, 0xBE, 0xEF, 0x02, // first record
        0x02, 0x00, 0x44, 0x20, 0x04, 0x11, 0x22, 0x33, 0x44, 0x03, 0x77, 0x78, // second
    ])
}

#[test]
fn list_tags_two() {
    let (mut pn, log) = scripted(vec![ACK.to_vec(), two_tag_reply()]);
    let mut buf = TagBuffer::new();
    let opts = ISO14443AListOptions { limit: TagNumLimit::Two, uid: None };
    let tags = pn.list_tags(opts, &mut buf).unwrap();
    assert_eq!(tags.count(), 2);
    let first = tags.first();
    assert_eq!(first.sens_res(), 0x0004);
    assert_eq!(first.sel_res(), 0x08);
    assert_eq!(first.id_len(), 4);
    assert_eq!(first.id(), &[0xDE, 0xAD, 0xBE, 0xEF]);
    assert_eq!(first.ats_len(), 2);
    let second = first.next().unwrap();
    assert_eq!(second.sens_res(), 0x0044);
    assert_eq!(second.sel_res(), 0x20);
    assert_eq!(second.id(), &[0x11, 0x22, 0x33, 0x44]);
    assert_eq!(second.ats_len(), 3);
    assert_eq!(second.ats()[..2], [0x77, 0x78]);
    assert!(second.next().is_none());
    assert_eq!(log.borrow()[0], frame(&[0x4A, 0x02, 0x00]));
}

#[test]
fn list_tags_one_is_last() {
    let (mut pn, _) = scripted(vec![
        ACK.to_vec(),
        reply(&[0x4B, 0x01, 0x01, 0x00, 0x04, 0x08, 0x04, 0xDE, 0xAD, 0xBE, 0xEF, 0x00]),
    ]);
    let mut buf = TagBuffer::new();
    let uid = [0xDE, 0xAD];
    let opts = ISO14443AListOptions { limit: TagNumLimit::One, uid: Some(&uid) };
    let tags = pn.list_tags(opts, &mut buf).unwrap();
    assert_eq!(tags.count(), 1);
    let first = tags.first();
    assert_eq!(first.id(), &[0xDE, 0xAD, 0xBE, 0xEF]);
    assert!(first.next().is_none());
}

#[test]
fn list_tags_none_found() {
    let (mut pn, _) = scripted(vec![ACK.to_vec(), reply(&[0x4B, 0x00])]);
    let mut buf = TagBuffer::new();
    let tags = pn.list_tags(ISO14443AListOptions { limit: TagNumLimit::One, uid: None }, &mut buf).unwrap();
    assert_eq!(tags.count(), 0);
}

#[test]
fn tag_transceive() {
    let (mut pn, log) =
        scripted(vec![ACK.to_vec(), two_tag_reply(), ACK.to_vec(), reply(&[0x41, 0x00, 0xAB, 0xCD])]);
    let mut buf = TagBuffer::new();
    let tags = pn.list_tags(ISO14443AListOptions { limit: TagNumLimit::Two, uid: None }, &mut buf).unwrap();
    let mut second = tags.first().next().unwrap();
    let mut data_in = [0xEEu8; 8];
    let n = second.transceive(&[0x30, 0x04], &mut data_in).unwrap();
    assert_eq!(n, 4);
    assert_eq!(data_in[..2], [0xAB, 0xCD]);
    assert_eq!(data_in[4..], [0xEE; 4]);
    drop(second);
    assert_eq!(log.borrow()[1], frame(&[0x40, 0x02, 0x30, 0x04]));
}

#[test]
fn transceive_small_destination() {
    let (mut pn, _) = scripted(vec![ACK.to_vec(), reply(&[0x41, 0x00, 0xAB, 0xCD])]);
    let mut data_in = [0u8; 1];
    assert_eq!(pn.transceive(1, &[0x00], &mut data_in).unwrap(), 1);
    assert_eq!(data_in, [0xAB]);
}

#[test]
fn transceive_long_data() {
    let (mut pn, log) = scripted(vec![ACK.to_vec(), reply(&[0x41, 0x00, 0x01])]);
    let data = [0x5Au8; 252];
    let mut data_in = [0u8; 4];
    assert_eq!(pn.transceive(1, &data, &mut data_in).unwrap(), 3);
    assert_eq!(data_in[..1], [0x01]);
    let mut expected = vec![0x40, 0x01];
    expected.extend_from_slice(&[0x5A; 252]);
    assert_eq!(log.borrow()[0], frame(&expected));

    let (mut pn, log) = scripted(vec![]);
    let mut data_in = [0u8; 4];
    let r = pn.transceive(1, &[0u8; 253], &mut data_in);
    assert!(matches!(r, Err(CommError::SendError(SendError::TooMuchData(255)))));
    let r = pn.transceive(1, &[0u8; 300], &mut data_in);
    assert!(matches!(r, Err(CommError::SendError(SendError::TooMuchData(256)))));
    assert!(log.borrow().is_empty());
}

#[test]
fn copy_reply_data_from_third_byte() {
    let mut reply = [0u8; 256];
    reply[..5].copy_from_slice(&[0x41, 0x00, 0xAA, 0xBB, 0xCC]);
    let mut data_in = [0xEEu8; 8];
    assert_eq!(pn532::copy_reply_data(&reply, 5, &mut data_in), 5);
    assert_eq!(data_in, [0xAA, 0xBB, 0xCC, 0x00, 0x00, 0xEE, 0xEE, 0xEE]);
    let mut small = [0xEEu8; 2];
    assert_eq!(pn532::copy_reply_data(&reply, 5, &mut small), 2);
    assert_eq!(small, [0xAA, 0xBB]);
    let mut none = [0xEEu8; 3];
    assert_eq!(pn532::copy_reply_data(&reply, 0, &mut none), 0);
    assert_eq!(none, [0xEE; 3]);
}

#[test]
fn other_options_encoding() {
    let mut buf = [0xAAu8; 8];
    let o = ISO14443BListOptions { limit: TagNumLimit::One, afi: 0x00, polling_method: None };
    assert_eq!(o.fill_buf(&mut buf), 3);
    assert_eq!(buf[..4], [1, 0x03, 0x00, 0xAA]);
    let o = ISO14443BListOptions {
        limit: TagNumLimit::Two,
        afi: 0x05,
        polling_method: Some(PollingMethod::Probabilistic),
    };
    assert_eq!(o.fill_buf(&mut buf), 4);
    assert_eq!(buf[..5], [2, 0x03, 0x05, 0x01, 0xAA]);
    assert_eq!(PollingMethod::default(), PollingMethod::Timeslot);
    assert_eq!(PollingMethod::Timeslot.code(), 0x00);

    let mut buf = [0xAAu8; 8];
    let o = FeliCaListOptions { limit: TagNumLimit::One, baudrate: FeliCaBaudrate::Br424, payload: [0, 0xFF, 0xFF, 1, 0] };
    assert_eq!(o.fill_buf(&mut buf), 7);
    assert_eq!(buf, [1, 0x02, 0, 0xFF, 0xFF, 1, 0, 0xAA]);
    assert_eq!(FeliCaBaudrate::Br212.code(), 0x01);

    let mut buf = [0xAAu8; 3];
    assert_eq!(JewelTagListOptions.fill_buf(&mut buf), 2);
    assert_eq!(buf, [1, 0x04, 0xAA]);
}

/// A bus whose every transfer fails.
struct Broken;

impl WaitRead for Broken {
    type ReadError = io::Error;

    fn wait_read(&mut self, _buf: &mut [u8]) -> Result<usize, io::Error> {
        Err(io::Error::new(io::ErrorKind::Other, "read failed"))
    }
}

impl BusWrite for Broken {
    type WriteError = io::Error;

    fn write(&mut self, _buf: &[u8]) -> Result<(), io::Error> {
        Err(io::Error::new(io::ErrorKind::Other, "write failed"))
    }
}

#[test]
fn transport_errors_propagate() {
    let mut pn = PN532::new(Broken);
    let r = pn.sam_configure(SAMMode::Normal(None));
    assert!(matches!(r, Err(CommError::SendError(SendError::WriteError(_)))));

    let mut proto = pn532::proto::PN532Proto::new(Broken);
    let mut dst = [7u8; 4];
    assert!(matches!(proto.recv(&mut dst), Err(RecvError::ReadError(_))));
    assert_eq!(dst, [7u8; 4]);
    assert!(matches!(proto.recv_ack(), Err(RecvError::ReadError(_))));
    assert!(matches!(proto.send(&[1, 2]), Err(SendError::WriteError(_))));
}

/// A bus that takes writes but fails every read.
struct WritesOnly;

impl WaitRead for WritesOnly {
    type ReadError = io::Error;

    fn wait_read(&mut self, _buf: &mut [u8]) -> Result<usize, io::Error> {
        Err(io::Error::new(io::ErrorKind::Other, "read failed"))
    }
}

impl BusWrite for WritesOnly {
    type WriteError = io::Error;

    fn write(&mut self, _buf: &[u8]) -> Result<(), io::Error> {
        Ok(())
    }
}

#[test]
fn read_error_after_send() {
    let mut pn = PN532::new(WritesOnly);
    let r = pn.sam_configure(SAMMode::Normal(None));
    assert!(matches!(r, Err(CommError::RecvError(RecvError::ReadError(_)))));
}

#[test]
fn encode_frame_bytes() {
    assert_eq!(pn532::proto::encode_frame(&[]), vec![0x00, 0xFF, 0x01, 0xFF, 0xD4, 0x2C]);
    assert_eq!(pn532::proto::encode_frame(&[42, 47]), frame(&[42, 47]));
    assert_eq!(pn532::proto::encode_frame(&[0x14, 0x01, 0x01]), vec![0x00, 0xFF, 0x04, 0xFC, 0xD4, 0x14, 0x01, 0x01, 0x16]);
}
