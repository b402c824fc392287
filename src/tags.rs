//! Zero-copy enumeration of the tags that a list-tags command found: cursors
//! that hold a byte position in the caller's buffer and the exclusive borrow
//! of the controller that found the tags.
//!
//! Records are decoded for ISO14443A tags. For ISO14443B, FeliCa and Jewel
//! tags the command parameters can be encoded; their records are not read.
use vstd::prelude::*;

verus! {

/// A tag record's layout, read in place from the reply buffer.
pub trait TagResponse<'s>: Sized {
    /// The bytes from this record's first byte to the end of the reply.
    spec fn record(&self) -> Seq<u8>;

    /// Whether the bytes that give this record's length lie in the reply.
    spec fn len_known(&self) -> bool;

    /// How far the next record starts after this one's first byte.
    spec fn record_len(&self) -> int;

    /// Reads a record that starts at the front of `response`.
    fn new(response: &'s [u8]) -> (r: Self)
        ensures
            r.record() == response@,
    ;

    fn buf(&self) -> (r: &[u8])
        ensures
            r@ == self.record(),
    ;

    fn into_buf(self) -> (r: &'s [u8])
        ensures
            r@ == self.record(),
    ;

    fn len(&self) -> (r: usize)
        requires
            self.len_known(),
        ensures
            r == self.record_len(),
    ;

    /// The record that follows this one.
    fn next(self) -> (r: Self)
        requires
            self.len_known(),
            self.record_len() <= self.record().len(),
        ensures
            r.record() == self.record().skip(self.record_len()),
    {
        let len = self.len();
        let b = self.into_buf();
        Self::new(&b[len..b.len()])
    }

    /// The number the controller gave this tag: the record's first byte.
    fn tag_num(&self) -> (r: u8)
        requires
            self.record().len() > 0,
        ensures
            r == self.record()[0],
    {
        self.buf()[0]
    }
}

/// Marks every record layout.
pub trait TagResponseMarker<'s>: TagResponse<'s> {

}

impl<'a, T: TagResponse<'a>> TagResponseMarker<'a> for T {

}

/// The parameters of a list-tags command, which also fix the layout of the
/// records in its reply.
pub trait TagListOptions<'a> {
    type Response: TagResponse<'a>;

    /// The parameters as written into a space of `room` bytes.
    spec fn encoded(&self, room: int) -> Seq<u8>;

    /// Writes the parameters to the front of `buf` and returns how many
    /// bytes they take.
    fn fill_buf(&self, buf: &mut [u8]) -> (r: usize)
        requires
            old(buf)@.len() >= 2,
        ensures
            final(buf)@.len() == old(buf)@.len(),
            r <= old(buf)@.len(),
            r == self.encoded(old(buf)@.len() as int).len(),
            final(buf)@.take(r as int) == self.encoded(old(buf)@.len() as int),
    ;
}

/// Exchanges data with one of the tags that a controller found.
pub trait PN532Transceive {
    type TransceiveError;

    /// Every exchange asked for so far, oldest first: the tag number and the
    /// data sent to the tag.
    spec fn exchanged(&self) -> Seq<(u8, Seq<u8>)>;

    /// Sends `data_to_tag` to tag `tag_number` and copies its reply into
    /// `data_from_tag`, as much as fits; returns the count copied.
    fn transceive(&mut self, tag_number: u8, data_to_tag: &[u8], data_from_tag: &mut [u8]) -> (r:
        Result<usize, Self::TransceiveError>)
        ensures
            final(self).exchanged() == old(self).exchanged().push((tag_number, data_to_tag@)),
            final(data_from_tag)@.len() == old(data_from_tag)@.len(),
            r matches Ok(n) ==> n <= old(data_from_tag)@.len() && final(data_from_tag)@.skip(n as int)
                == old(data_from_tag)@.skip(n as int),
    ;
}

/// Scratch space that a list-tags command fills and its tag cursors read.
pub struct TagBuffer {
    pub(crate) buf: [u8; 256],
}

impl TagBuffer {
    /// The buffer's bytes.
    pub closed spec fn bytes(&self) -> Seq<u8> {
        self.buf@
    }

    /// The bytes are those of the array inside.
    pub(crate) proof fn lemma_bytes(&self)
        ensures
            self.bytes() == self.buf@,
    {
    }

    /// The buffer always holds 256 bytes.
    pub proof fn lemma_len(&self)
        ensures
            self.bytes().len() == 256,
    {
    }

    pub fn new() -> (r: Self)
        ensures
            r.bytes() == Seq::new(256, |i: int| 0u8),
    {
        let r = TagBuffer { buf: [0u8; 256] };
        assert(r.bytes() == Seq::new(256, |i: int| 0u8));
        r
    }
}

/// The tags that one list-tags command found. Holds the controller that
/// found them, so that no other command can be issued while it lives.
pub struct Tags<'p, 'r, R: TagResponse<'r>, P: PN532Transceive> {
    response: R,
    pn532: &'p mut P,
    count: usize,
    _phantom: core::marker::PhantomData<&'r ()>,
}

impl<'p, 'r, R: TagResponse<'r>, P: PN532Transceive> Tags<'p, 'r, R, P> {
    /// The first tag's record.
    pub closed spec fn response(&self) -> R {
        self.response
    }

    /// The count of tags that the reply reports.
    pub closed spec fn spec_count(&self) -> usize {
        self.count
    }

    /// The controller that found the tags.
    pub closed spec fn pn532(&self) -> P {
        *self.pn532
    }

    /// Reads a reply laid out as `[status][count][record 1][record 2]`.
    pub fn new(buf: &'r TagBuffer, pn532: &'p mut P) -> (r: Self)
        ensures
            r.spec_count() == buf.bytes()[1],
            r.response().record() == buf.bytes().skip(2),
            r.pn532() == *old(pn532),
    {
        let count = buf.buf[1] as usize;
        let response = R::new(&buf.buf[2..256]);
        assert(buf.buf@.subrange(2, 256) == buf.bytes().skip(2));
        Tags { response: response, pn532: pn532, count: count, _phantom: core::marker::PhantomData }
    }

    /// How many tags were found.
    pub fn count(&self) -> (r: usize)
        ensures
            r == self.spec_count(),
    {
        self.count
    }

    /// The first tag; the last one when only one was found.
    pub fn first(self) -> (r: Tag<'p, 'r, R, P>)
        requires
            self.spec_count() >= 1,
        ensures
            r.response() == self.response(),
            r.last() == (self.spec_count() == 1),
            r.pn532() == self.pn532(),
    {
        let count = self.count();
        Tag {
            response: self.response,
            pn532: self.pn532,
            last: count == 1,
            _phantom: core::marker::PhantomData,
        }
    }
}

/// A cursor on one found tag. Moving to the next tag consumes it.
pub struct Tag<'p, 'r, R: TagResponse<'r>, P: PN532Transceive> {
    response: R,
    pn532: &'p mut P,
    last: bool,
    _phantom: core::marker::PhantomData<&'r ()>,
}

impl<'p, 'r, R: TagResponse<'r>, P: PN532Transceive> Tag<'p, 'r, R, P> {
    /// This tag's record.
    pub closed spec fn response(&self) -> R {
        self.response
    }

    /// Whether this is the last tag found.
    pub closed spec fn last(&self) -> bool {
        self.last
    }

    /// The controller that found the tag.
    pub closed spec fn pn532(&self) -> P {
        *self.pn532
    }

    /// The next tag, if this is not the last. A reply never reports more
    /// than two tags, so the next one is always the last.
    pub fn next(self) -> (r: Option<Self>)
        requires
            !self.last() ==> self.response().len_known() && self.response().record_len()
                <= self.response().record().len(),
        ensures
            self.last() ==> r is None,
            !self.last() ==> (r matches Some(t) && t.last() && t.response().record()
                == self.response().record().skip(self.response().record_len()) && t.pn532()
                == self.pn532()),
    {
        if self.last {
            None
        } else {
            Some(
                Tag {
                    response: self.response.next(),
                    pn532: self.pn532,
                    last: true,
                    _phantom: core::marker::PhantomData,
                },
            )
        }
    }

    /// Exchanges data with this tag through the controller that found it.
    pub fn transceive(&mut self, data_to_tag: &[u8], data_from_tag: &mut [u8]) -> (r: Result<
        usize,
        P::TransceiveError,
    >)
        requires
            old(self).response().record().len() > 0,
        ensures
            final(self).response() == old(self).response(),
            final(self).last() == old(self).last(),
            final(self).pn532().exchanged() == old(self).pn532().exchanged().push(
                (old(self).response().record()[0], data_to_tag@),
            ),
            final(data_from_tag)@.len() == old(data_from_tag)@.len(),
            r matches Ok(n) ==> n <= old(data_from_tag)@.len() && final(data_from_tag)@.skip(n as int)
                == old(data_from_tag)@.skip(n as int),
    {
        let num = self.response.tag_num();
        self.pn532.transceive(num, data_to_tag, data_from_tag)
    }
}

/// How many tags a list-tags command may report.
#[derive(Debug, Copy, Clone, Eq, PartialEq)]
pub enum TagNumLimit {
    One,
    Two,
}

/// The byte that encodes a limit on the wire.
pub open spec fn limit_code(limit: TagNumLimit) -> u8 {
    match limit {
        TagNumLimit::One => 1,
        TagNumLimit::Two => 2,
    }
}

impl From<TagNumLimit> for u8 {
    fn from(limit: TagNumLimit) -> (r: u8)
        ensures
            r == limit_code(limit),
    {
        match limit {
            TagNumLimit::One => 1,
            TagNumLimit::Two => 2,
        }
    }
}

impl vstd::std_specs::convert::FromSpecImpl<TagNumLimit> for u8 {
    open spec fn obeys_from_spec() -> bool {
        true
    }

    open spec fn from_spec(v: TagNumLimit) -> u8 {
        limit_code(v)
    }
}

/// A record of an ISO14443A tag: tag number, SENS_RES (two bytes, big
/// endian), SEL_RES, NFCID length `N`, NFCID (`N` bytes), ATS length `M`,
/// ATS. The next record starts `N + M + 4` bytes after this one's first.
pub struct ISO14443A<'a> {
    data: &'a [u8],
}

impl<'a> TagResponse<'a> for ISO14443A<'a> {
    closed spec fn record(&self) -> Seq<u8> {
        self.data@
    }

    open spec fn len_known(&self) -> bool {
        &&& self.record().len() > 4
        &&& 5 + self.record()[4] < self.record().len()
    }

    open spec fn record_len(&self) -> int {
        self.record()[4] + self.record()[5 + self.record()[4]] + 4
    }

    fn new(buf: &'a [u8]) -> (r: Self) {
        ISO14443A { data: buf }
    }

    fn len(&self) -> (r: usize) {
        self.id_len() + self.ats_len() + 4
    }

    fn buf(&self) -> (r: &[u8]) {
        self.data
    }

    fn into_buf(self) -> (r: &'a [u8]) {
        self.data
    }
}

impl<'a> ISO14443A<'a> {
    /// The NFCID length `N`.
    pub fn id_len(&self) -> (r: usize)
        requires
            self.record().len() > 4,
        ensures
            r == self.record()[4],
    {
        self.data[4] as usize
    }

    /// The ATS length `M`.
    pub fn ats_len(&self) -> (r: usize)
        requires
            self.len_known(),
        ensures
            r == self.record()[5 + self.record()[4]],
    {
        self.data[5 + self.id_len()] as usize
    }
}

impl<'r, 'p, P: PN532Transceive> Tag<'p, 'r, ISO14443A<'r>, P> {
    /// SENS_RES, read big endian.
    pub fn sens_res(&self) -> (r: u16)
        requires
            self.response().record().len() > 2,
        ensures
            r == self.response().record()[1] * 256 + self.response().record()[2],
    {
        let hi = self.response.buf()[1];
        let lo = self.response.buf()[2];
        let r = ((hi as u16) << 8) | (lo as u16);
        assert(((hi as u16) << 8) | (lo as u16) == (hi as u16) * 256 + (lo as u16)) by (bit_vector);
        r
    }

    /// SEL_RES.
    pub fn sel_res(&self) -> (r: u8)
        requires
            self.response().record().len() > 3,
        ensures
            r == self.response().record()[3],
    {
        self.response.buf()[3]
    }

    /// The NFCID length.
    pub fn id_len(&self) -> (r: usize)
        requires
            self.response().record().len() > 4,
        ensures
            r == self.response().record()[4],
    {
        self.response.id_len()
    }

    /// The NFCID.
    pub fn id(&self) -> (r: &[u8])
        requires
            self.response().record().len() > 4,
            5 + self.response().record()[4] <= self.response().record().len(),
        ensures
            r@ == self.response().record().subrange(5, 5 + self.response().record()[4]),
    {
        let b = self.response.buf();
        &b[5..(5 + self.id_len())]
    }

    /// The ATS length.
    pub fn ats_len(&self) -> (r: usize)
        requires
            self.response().len_known(),
        ensures
            r == self.response().record()[5 + self.response().record()[4]],
    {
        self.response.ats_len()
    }

    /// The bytes after the ATS length, to the end of the reply.
    pub fn ats(&self) -> (r: &[u8])
        requires
            self.response().len_known(),
        ensures
            r@ == self.response().record().skip(6 + self.response().record()[4]),
    {
        let b = self.response.buf();
        &b[(5 + self.id_len() + 1)..b.len()]
    }
}

/// Options of a list-tags command for ISO14443A tags.
pub struct ISO14443AListOptions<'id> {
    pub limit: TagNumLimit,
    /// The UID of a tag to look for, or `None` for any.
    pub uid: Option<&'id [u8]>,
}

impl<'r, 'id> TagListOptions<'r> for ISO14443AListOptions<'id> {
    type Response = ISO14443A<'r>;

    /// The limit, `00`, and as much of the UID as fits.
    open spec fn encoded(&self, room: int) -> Seq<u8> {
        seq![limit_code(self.limit), 0x00u8] + match self.uid {
            Some(u) => if u@.len() <= room - 2 {
                u@
            } else {
                u@.take(room - 2)
            },
            None => Seq::empty(),
        }
    }

    fn fill_buf(&self, buf: &mut [u8]) -> (r: usize)
        ensures
            final(buf)@.skip(r as int) == old(buf)@.skip(r as int),
    {
        buf[0] = u8::from(self.limit);
        buf[1] = 0x00;
        match self.uid {
            None => 2,
            Some(data) => {
                let to_copy = if buf.len() - 2 < data.len() {
                    buf.len() - 2
                } else {
                    data.len()
                };
                let ghost b1 = buf@;
                let mut i: usize = 0;
                while i < to_copy
                    invariant
                        i <= to_copy,
                        to_copy <= data@.len(),
                        to_copy + 2 <= b1.len(),
                        b1.len() == buf.len(),
                        buf@.len() == b1.len(),
                        b1[0] == limit_code(self.limit),
                        b1[1] == 0,
                        forall|k: int| 0 <= k < 2 ==> buf@[k] == b1[k],
                        forall|k: int| 0 <= k < i ==> buf@[k + 2] == data@[k],
                        forall|k: int| i + 2 <= k < b1.len() ==> buf@[k] == b1[k],
                    decreases to_copy - i,
                {
                    buf[i + 2] = data[i];
                    i = i + 1;
                }
                assert(buf@.take(to_copy + 2) =~= self.encoded(b1.len() as int));
                assert(buf@.skip(to_copy + 2) =~= b1.skip(to_copy + 2));
                to_copy + 2
            },
        }
    }
}

/// How an ISO14443B listing polls.
#[derive(Debug, Copy, Clone, Eq, PartialEq)]
pub enum PollingMethod {
    Probabilistic,
    Timeslot,
}

impl PollingMethod {
    pub open spec fn spec_code(self) -> u8 {
        match self {
            PollingMethod::Probabilistic => 0x01,
            PollingMethod::Timeslot => 0x00,
        }
    }

    /// The method's code on the wire.
    pub fn code(self) -> (r: u8)
        ensures
            r == self.spec_code(),
    {
        match self {
            PollingMethod::Probabilistic => 0x01,
            PollingMethod::Timeslot => 0x00,
        }
    }
}

impl Default for PollingMethod {
    fn default() -> (r: Self)
        ensures
            r == PollingMethod::Timeslot,
    {
        PollingMethod::Timeslot
    }
}

/// Parameters of a list-tags command for ISO14443B tags.
#[derive(Debug, Copy, Clone, Eq, PartialEq)]
pub struct ISO14443BListOptions {
    pub limit: TagNumLimit,
    pub afi: u8,
    /// Left out of the command when `None`; the device then polls by time slot.
    pub polling_method: Option<PollingMethod>,
}

impl ISO14443BListOptions {
    /// The parameters: limit, `03`, AFI, and the polling method if given.
    pub open spec fn encoded(&self) -> Seq<u8> {
        seq![limit_code(self.limit), 0x03u8, self.afi] + match self.polling_method {
            Some(m) => seq![m.spec_code()],
            None => Seq::empty(),
        }
    }

    /// Writes the parameters to the front of `buf` and returns their length.
    pub fn fill_buf(&self, buf: &mut [u8]) -> (r: usize)
        requires
            old(buf)@.len() >= 4,
        ensures
            r == self.encoded().len(),
            final(buf)@ == self.encoded() + old(buf)@.skip(r as int),
    {
        buf[0] = u8::from(self.limit);
        buf[1] = 0x03;
        buf[2] = self.afi;
        let r: usize = match self.polling_method {
            Some(m) => {
                buf[3] = m.code();
                4
            },
            None => 3,
        };
        assert(buf@ =~= self.encoded() + old(buf)@.skip(r as int));
        r
    }
}

/// Baud rate of a FeliCa listing.
#[derive(Debug, Copy, Clone, Eq, PartialEq)]
pub enum FeliCaBaudrate {
    Br212,
    Br424,
}

impl FeliCaBaudrate {
    pub open spec fn spec_code(self) -> u8 {
        match self {
            FeliCaBaudrate::Br212 => 0x01,
            FeliCaBaudrate::Br424 => 0x02,
        }
    }

    /// The baud rate's code on the wire.
    pub fn code(self) -> (r: u8)
        ensures
            r == self.spec_code(),
    {
        match self {
            FeliCaBaudrate::Br212 => 0x01,
            FeliCaBaudrate::Br424 => 0x02,
        }
    }
}

/// Parameters of a list-tags command for FeliCa tags.
pub struct FeliCaListOptions {
    pub limit: TagNumLimit,
    pub baudrate: FeliCaBaudrate,
    /// The polling request sent to the tags.
    pub payload: [u8; 5],
}

impl FeliCaListOptions {
    /// The parameters: limit, baud rate code, and the five payload bytes.
    pub open spec fn encoded(&self) -> Seq<u8> {
        seq![limit_code(self.limit), self.baudrate.spec_code()] + self.payload@
    }

    /// Writes the parameters to the front of `buf` and returns their length.
    pub fn fill_buf(&self, buf: &mut [u8]) -> (r: usize)
        requires
            old(buf)@.len() >= 7,
        ensures
            r == 7,
            final(buf)@ == self.encoded() + old(buf)@.skip(7),
    {
        buf[0] = u8::from(self.limit);
        buf[1] = self.baudrate.code();
        let mut i: usize = 0;
        while i < 5
            invariant
                i <= 5,
                buf@.len() == old(buf)@.len(),
                buf@.len() >= 7,
                buf@[0] == limit_code(self.limit),
                buf@[1] == self.baudrate.spec_code(),
                forall|k: int| 0 <= k < i ==> buf@[k + 2] == self.payload@[k],
                forall|k: int| 7 <= k < buf@.len() ==> buf@[k] == old(buf)@[k],
            decreases 5 - i,
        {
            buf[i + 2] = self.payload[i];
            i = i + 1;
        }
        assert(buf@ =~= self.encoded() + old(buf)@.skip(7));
        7
    }
}

/// Parameters of a list-tags command for Jewel tags; at most one is listed.
#[derive(Debug, Copy, Clone, Eq, PartialEq)]
pub struct JewelTagListOptions;

impl JewelTagListOptions {
    /// Writes `01 04` to the front of `buf` and returns 2.
    pub fn fill_buf(&self, buf: &mut [u8]) -> (r: usize)
        requires
            old(buf)@.len() >= 2,
        ensures
            r == 2,
            final(buf)@ == seq![0x01u8, 0x04u8] + old(buf)@.skip(2),
    {
        buf[0] = 0x01;
        buf[1] = 0x04;
        assert(buf@ =~= seq![0x01u8, 0x04u8] + old(buf)@.skip(2));
        2
    }
}

} // verus!
