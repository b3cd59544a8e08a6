//! The long-link wire format.
//!
//! Every long-link package starts with a header, twenty packed bytes of
//! network-endian `u32`:
//!
//! ```text
//! head_length | client_version | cmdid | seq | body_length
//! ```
//!
//! [`longlink_pack`] puts it in front of the body; [`longlink_unpack`] reads it
//! back and answers one of three things: `Continue` (not enough bytes yet),
//! `False` (this is not a package of ours) or `Package` with the cmdid, the
//! seq, how long the whole package is and the body.
use vstd::prelude::*;
use crate::config::MIN_HEART_INTERVAL;
use crate::task::Task;

verus! {

/// Not enough bytes for a package yet: read more and call again.
pub const LONGLINK_UNPACK_CONTINUE: i32 = -2;

/// The bytes are a package, but not one of ours (a version mismatch, or a
/// package that is too big).
pub const LONGLINK_UNPACK_FALSE: i32 = -1;

/// A whole package.
pub const LONGLINK_UNPACK_OK: i32 = 0;

/// The end of a stream is a package boundary like any other.
pub const LONGLINK_UNPACK_STREAM_END: i32 = LONGLINK_UNPACK_OK;

/// A stream package is one the caller still has to read.
pub const LONGLINK_UNPACK_STREAM_PACKAGE: i32 = 1;

/// The heartbeat.
pub const NOOP_CMDID: u32 = 6;

/// The signalling keeper.
pub const SIGNALKEEP_CMDID: u32 = 243;

/// The task id of a package the server pushes.
pub const PUSH_DATA_TASKID: u32 = 0;

/// Five `u32`, no padding.
pub const HEADER_LEN: usize = 20;

/// A package bigger than this is refused.
pub const MAX_PACKAGE_LEN: usize = 1024 * 1024;

/// Which encoder the packages are made with.
#[derive(Debug, Clone, Copy, PartialEq, Eq, Structural)]
pub enum PackerEncoderVersion {
    Old,
    New,
}

/// The header of a package, in host order.
#[derive(Debug, Clone, Copy, PartialEq, Eq, Structural)]
pub struct StNetMsgXpHeader {
    /// How long the header is.
    pub head_length: u32,
    /// The version the package was made with.
    pub client_version: u32,
    /// Business identifier.
    pub cmdid: u32,
    /// Task id.
    pub seq: u32,
    /// How long the body is.
    pub body_length: u32,
}

/// The four bytes of a number, the most significant first.
pub open spec fn be_bytes(value: u32) -> Seq<u8> {
    seq![
        (value / 0x100_0000) as u8,
        (value / 0x1_0000 % 0x100) as u8,
        (value / 0x100 % 0x100) as u8,
        (value % 0x100) as u8,
    ]
}

/// The number that four bytes are, the most significant first.
pub open spec fn be_value(b0: u8, b1: u8, b2: u8, b3: u8) -> int {
    b0 * 0x100_0000 + b1 * 0x1_0000 + b2 * 0x100 + b3
}

/// The twenty bytes of a header.
pub open spec fn header_bytes(header: StNetMsgXpHeader) -> Seq<u8> {
    be_bytes(header.head_length) + be_bytes(header.client_version) + be_bytes(header.cmdid)
        + be_bytes(header.seq) + be_bytes(header.body_length)
}

/// The `index`th number of a header; `0` where the bytes end before it does.
pub open spec fn header_field(bytes: Seq<u8>, index: int) -> int {
    if index * 4 + 4 > bytes.len() {
        0
    } else {
        be_value(bytes[index * 4], bytes[index * 4 + 1], bytes[index * 4 + 2], bytes[index * 4 + 3])
    }
}

/// What packs: a header of [`HEADER_LEN`] bytes and the body.
pub open spec fn packed_bytes(client_version: u32, cmdid: u32, seq: u32, body: Seq<u8>) -> Seq<u8> {
    header_bytes(
        StNetMsgXpHeader {
            head_length: HEADER_LEN as u32,
            client_version,
            cmdid,
            seq,
            body_length: body.len() as u32,
        },
    ) + body
}

/// The contents of an [`Unpacked`].
pub enum UnpackedView {
    Continue,
    False,
    Package { cmdid: int, seq: int, package_len: int, body: Seq<u8> },
}

/// What a stream of bytes starts with: nothing to tell before the header is
/// whole; a package of another version, or of more than [`MAX_PACKAGE_LEN`]
/// bytes, is not ours; and one that is ours is there once all of it is.
pub open spec fn unpacked_bytes(client_version: u32, bytes: Seq<u8>) -> UnpackedView {
    let body_len = header_field(bytes, 4);
    let package_len = header_field(bytes, 0) + body_len;
    if bytes.len() < HEADER_LEN {
        UnpackedView::Continue
    } else if header_field(bytes, 1) != client_version {
        UnpackedView::False
    } else if package_len > MAX_PACKAGE_LEN {
        UnpackedView::False
    } else if package_len > bytes.len() {
        UnpackedView::Continue
    } else {
        UnpackedView::Package {
            cmdid: header_field(bytes, 2),
            seq: header_field(bytes, 3),
            package_len,
            body: bytes.subrange(package_len - body_len, package_len),
        }
    }
}

/// Four bytes of a number read back as the number.
pub proof fn lemma_be_roundtrip(value: u32)
    ensures
        be_bytes(value).len() == 4,
        be_value(be_bytes(value)[0], be_bytes(value)[1], be_bytes(value)[2], be_bytes(value)[3])
            == value,
{
}

/// The bytes of a header read back as its five numbers, whatever follows them.
pub proof fn lemma_header_roundtrip(header: StNetMsgXpHeader, rest: Seq<u8>)
    ensures
        header_bytes(header).len() == HEADER_LEN,
        header_field(header_bytes(header) + rest, 0) == header.head_length,
        header_field(header_bytes(header) + rest, 1) == header.client_version,
        header_field(header_bytes(header) + rest, 2) == header.cmdid,
        header_field(header_bytes(header) + rest, 3) == header.seq,
        header_field(header_bytes(header) + rest, 4) == header.body_length,
{
    lemma_be_roundtrip(header.head_length);
    lemma_be_roundtrip(header.client_version);
    lemma_be_roundtrip(header.cmdid);
    lemma_be_roundtrip(header.seq);
    lemma_be_roundtrip(header.body_length);
}

/// What packs unpacks: a package read back with the version it was made with
/// is the cmdid, the seq and the body that went in, and exactly its own bytes
/// of the stream, whatever follows it.
pub proof fn law_what_packs_unpacks(
    client_version: u32,
    cmdid: u32,
    seq: u32,
    body: Seq<u8>,
    rest: Seq<u8>,
)
    requires
        HEADER_LEN + body.len() <= MAX_PACKAGE_LEN,
    ensures
        unpacked_bytes(client_version, packed_bytes(client_version, cmdid, seq, body) + rest) == (
        UnpackedView::Package {
            cmdid: cmdid as int,
            seq: seq as int,
            package_len: HEADER_LEN + body.len(),
            body,
        }),
        (packed_bytes(client_version, cmdid, seq, body) + rest).skip(
            (HEADER_LEN + body.len()) as int,
        ) == rest,
{
    let header = StNetMsgXpHeader {
        head_length: HEADER_LEN as u32,
        client_version,
        cmdid,
        seq,
        body_length: body.len() as u32,
    };
    let all = packed_bytes(client_version, cmdid, seq, body) + rest;
    lemma_header_roundtrip(header, body + rest);
    assert(all == header_bytes(header) + (body + rest));
    assert(all.subrange(HEADER_LEN as int, HEADER_LEN + body.len() as int) == body);
    assert(all.skip((HEADER_LEN + body.len()) as int) == rest);
}

/// A package that is not whole yet asks for more bytes, however little is
/// missing.
pub proof fn law_a_package_that_is_not_whole_asks_for_more(
    client_version: u32,
    cmdid: u32,
    seq: u32,
    body: Seq<u8>,
    len: int,
)
    requires
        HEADER_LEN + body.len() <= MAX_PACKAGE_LEN,
        0 <= len < HEADER_LEN + body.len(),
    ensures
        unpacked_bytes(
            client_version,
            packed_bytes(client_version, cmdid, seq, body).take(len),
        ) == UnpackedView::Continue,
{
    let header = StNetMsgXpHeader {
        head_length: HEADER_LEN as u32,
        client_version,
        cmdid,
        seq,
        body_length: body.len() as u32,
    };
    lemma_header_roundtrip(header, body);
    if len >= HEADER_LEN {
        lemma_header_roundtrip(header, body.take(len - HEADER_LEN));
        assert(packed_bytes(client_version, cmdid, seq, body).take(len) == header_bytes(header)
            + body.take(len - HEADER_LEN));
    }
}

/// A package of another version is refused.
pub proof fn law_a_package_of_another_version_is_refused(
    made_with: u32,
    read_with: u32,
    cmdid: u32,
    seq: u32,
    body: Seq<u8>,
    rest: Seq<u8>,
)
    requires
        made_with != read_with,
    ensures
        unpacked_bytes(read_with, packed_bytes(made_with, cmdid, seq, body) + rest)
            == UnpackedView::False,
{
    let header = StNetMsgXpHeader {
        head_length: HEADER_LEN as u32,
        client_version: made_with,
        cmdid,
        seq,
        body_length: body.len() as u32,
    };
    lemma_header_roundtrip(header, body + rest);
    assert(packed_bytes(made_with, cmdid, seq, body) + rest == header_bytes(header) + (body + rest));
}

/// A header that claims more than [`MAX_PACKAGE_LEN`] bytes is refused, whether
/// or not they are there.
pub proof fn law_a_package_over_a_megabyte_is_refused(
    client_version: u32,
    header: StNetMsgXpHeader,
    rest: Seq<u8>,
)
    requires
        header.head_length + header.body_length > MAX_PACKAGE_LEN,
    ensures
        unpacked_bytes(client_version, header_bytes(header) + rest) == UnpackedView::False,
{
    lemma_header_roundtrip(header, rest);
}

/// The number in four bytes of a slice.
fn read_be(bytes: &[u8], at: usize) -> (value: u32)
    requires
        at + 4 <= bytes@.len(),
    ensures
        value == be_value(bytes@[at as int], bytes@[at + 1], bytes@[at + 2], bytes@[at + 3]),
{
    bytes[at] as u32 * 0x100_0000 + bytes[at + 1] as u32 * 0x1_0000 + bytes[at + 2] as u32 * 0x100
        + bytes[at + 3] as u32
}

impl StNetMsgXpHeader {
    /// The twenty bytes, network endian.
    pub fn to_bytes(self) -> (out: [u8; HEADER_LEN])
        ensures
            out@ == header_bytes(self),
    {
        let fields: [u32; 5] = [
            self.head_length,
            self.client_version,
            self.cmdid,
            self.seq,
            self.body_length,
        ];
        let mut out: [u8; HEADER_LEN] = [0u8; 20];
        let mut index: usize = 0;
        while index < 5
            invariant
                index <= 5,
                out@.len() == HEADER_LEN,
                forall|k: int, j: int|
                    #![trigger be_bytes(fields@[k])[j]]
                    0 <= k < index && 0 <= j < 4 ==> out@[k * 4 + j] == be_bytes(fields@[k])[j],
            decreases 5 - index,
        {
            let field: u32 = fields[index];
            out[index * 4] = (field / 0x100_0000) as u8;
            out[index * 4 + 1] = (field / 0x1_0000 % 0x100) as u8;
            out[index * 4 + 2] = (field / 0x100 % 0x100) as u8;
            out[index * 4 + 3] = (field % 0x100) as u8;
            index += 1;
        }
        proof {
            assert forall|i: int| 0 <= i < HEADER_LEN implies out@[i] == header_bytes(self)[i] by {
                let k = i / 4;
                let j = i % 4;
                assert(out@[k * 4 + j] == be_bytes(fields@[k])[j]);
            }
            assert(out@ =~= header_bytes(self));
        }
        out
    }

    /// Reads the fields back; bytes that end early leave the rest at zero.
    pub fn from_bytes(bytes: &[u8]) -> (header: Self)
        ensures
            header.head_length == header_field(bytes@, 0),
            header.client_version == header_field(bytes@, 1),
            header.cmdid == header_field(bytes@, 2),
            header.seq == header_field(bytes@, 3),
            header.body_length == header_field(bytes@, 4),
    {
        let mut fields: [u32; 5] = [0u32; 5];
        let mut index: usize = 0;
        while index < 5 && index * 4 + 4 <= bytes.len()
            invariant
                index <= 5,
                fields@.len() == 5,
                forall|k: int| 0 <= k < index ==> #[trigger] fields@[k] == header_field(bytes@, k),
                forall|k: int| index <= k < 5 ==> #[trigger] fields@[k] == 0,
            decreases 5 - index,
        {
            fields[index] = read_be(bytes, index * 4);
            index += 1;
        }
        StNetMsgXpHeader {
            head_length: fields[0],
            client_version: fields[1],
            cmdid: fields[2],
            seq: fields[3],
            body_length: fields[4],
        }
    }
}

/// The header followed by the body.
pub fn longlink_pack(client_version: u32, cmdid: u32, seq: u32, body: &[u8]) -> (packed: Vec<u8>)
    ensures
        packed@ == packed_bytes(client_version, cmdid, seq, body@),
{
    let header = StNetMsgXpHeader {
        head_length: HEADER_LEN as u32,
        client_version,
        cmdid,
        seq,
        body_length: body.len() as u32,
    };
    let head = header.to_bytes();
    let mut packed: Vec<u8> = Vec::new();
    packed.extend_from_slice(head.as_slice());
    packed.extend_from_slice(body);
    assert(packed@ == header_bytes(header) + body@);
    packed
}

/// What [`longlink_unpack`] found.
#[derive(Debug, Clone, PartialEq, Eq)]
pub enum Unpacked {
    /// Read more bytes and try again.
    Continue,
    /// Not a package of ours.
    False,
    /// A whole package.
    Package {
        /// Business identifier.
        cmdid: u32,
        /// Task id.
        seq: u32,
        /// How long the whole package is, header included.
        package_len: usize,
        /// The body: everything after the header.
        body: Vec<u8>,
    },
}

impl View for Unpacked {
    type V = UnpackedView;

    open spec fn view(&self) -> UnpackedView {
        match *self {
            Unpacked::Continue => UnpackedView::Continue,
            Unpacked::False => UnpackedView::False,
            Unpacked::Package { cmdid, seq, package_len, body } => UnpackedView::Package {
                cmdid: cmdid as int,
                seq: seq as int,
                package_len: package_len as int,
                body: body@,
            },
        }
    }
}

impl Unpacked {
    /// The number that stands for the answer.
    pub fn code(&self) -> (code: i32)
        ensures
            code == match self@ {
                UnpackedView::Continue => LONGLINK_UNPACK_CONTINUE,
                UnpackedView::False => LONGLINK_UNPACK_FALSE,
                UnpackedView::Package { .. } => LONGLINK_UNPACK_OK,
            },
    {
        match self {
            Unpacked::Continue => LONGLINK_UNPACK_CONTINUE,
            Unpacked::False => LONGLINK_UNPACK_FALSE,
            Unpacked::Package { .. } => LONGLINK_UNPACK_OK,
        }
    }
}

/// Reads one package off the front of a stream.
///
/// `head_length` is taken from the stream and is **not** checked against
/// [`HEADER_LEN`]: a header that claims `0` for both lengths is a package of
/// `0` bytes, and whoever advances a stream by `package_len` has to stop on
/// one.
pub fn longlink_unpack(client_version: u32, packed: &[u8]) -> (unpacked: Unpacked)
    ensures
        unpacked@ == unpacked_bytes(client_version, packed@),
{
    if packed.len() < HEADER_LEN {
        return Unpacked::Continue;
    }
    let header = StNetMsgXpHeader::from_bytes(packed);
    if header.client_version != client_version {
        return Unpacked::False;
    }
    let whole: u64 = header.head_length as u64 + header.body_length as u64;
    if whole > MAX_PACKAGE_LEN as u64 {
        return Unpacked::False;
    }
    let body_len: usize = header.body_length as usize;
    let package_len: usize = whole as usize;
    if package_len > packed.len() {
        return Unpacked::Continue;
    }
    let mut body: Vec<u8> = Vec::new();
    let mut i: usize = package_len - body_len;
    while i < package_len
        invariant
            package_len - body_len <= i <= package_len <= packed@.len(),
            0 <= package_len - body_len,
            body@ == packed@.subrange(package_len - body_len, i as int),
        decreases package_len - i,
    {
        body.push(packed[i]);
        i += 1;
    }
    Unpacked::Package { cmdid: header.cmdid, seq: header.seq, package_len, body }
}

/// What is different about the packages of one app.
#[derive(Debug, Clone, Copy, PartialEq, Eq, Structural)]
pub struct LongLinkEncoder {
    pub packer_encoder_version: PackerEncoderVersion,
}

impl Default for LongLinkEncoder {
    fn default() -> (encoder: Self)
        ensures
            encoder.packer_encoder_version == PackerEncoderVersion::Old,
    {
        LongLinkEncoder::new()
    }
}

impl LongLinkEncoder {
    /// The old encoder.
    pub fn new() -> (encoder: Self)
        ensures
            encoder.packer_encoder_version == PackerEncoderVersion::Old,
    {
        LongLinkEncoder { packer_encoder_version: PackerEncoderVersion::Old }
    }

    /// `2` asks for the new encoder, anything else for the old one.
    pub fn set_encoder_version(&mut self, version: i32)
        ensures
            final(self).packer_encoder_version == (if version == 2 {
                PackerEncoderVersion::New
            } else {
                PackerEncoderVersion::Old
            }),
    {
        self.packer_encoder_version = if version == 2 {
            PackerEncoderVersion::New
        } else {
            PackerEncoderVersion::Old
        };
    }

    /// The cmdid a heartbeat goes out with.
    pub fn noop_cmdid(&self) -> (cmdid: u32)
        ensures
            cmdid == NOOP_CMDID,
    {
        NOOP_CMDID
    }

    /// The cmdid the signalling keeper sends with.
    pub fn signal_keep_cmdid(&self) -> (cmdid: u32)
        ensures
            cmdid == SIGNALKEEP_CMDID,
    {
        SIGNALKEEP_CMDID
    }

    /// `0`: the long link decides for itself when a heartbeat is due.
    pub fn noop_interval(&self) -> (interval: u32)
        ensures
            interval == 0,
    {
        0
    }

    /// A connect is taken as it comes, without a first heartbeat.
    pub fn complexconnect_need_verify(&self) -> (need: bool)
        ensures
            !need,
    {
        false
    }

    /// The answer to a heartbeat is the noop task with the noop cmdid.
    pub fn noop_isresp(&self, taskid: u32, cmdid: u32) -> (is: bool)
        ensures
            is == (taskid == Task::NOOP_TASK_ID && cmdid == NOOP_CMDID),
    {
        Task::NOOP_TASK_ID == taskid && NOOP_CMDID == cmdid
    }

    /// The server pushes with task id `0`.
    pub fn is_push(&self, taskid: u32) -> (is: bool)
        ensures
            is == (taskid == PUSH_DATA_TASKID),
    {
        PUSH_DATA_TASKID == taskid
    }

    /// An answer to the identify check carries the seq that was sent, which
    /// is not `0`.
    pub fn identify_isresp(&self, sent_seq: u32, recv_seq: u32) -> (is: bool)
        ensures
            is == (sent_seq == recv_seq && sent_seq != 0),
    {
        sent_seq == recv_seq && 0 != sent_seq
    }

    /// The heartbeat interval the long link starts on: the short end of the
    /// range.
    pub fn heart_interval(&self) -> (interval: u32)
        ensures
            interval == MIN_HEART_INTERVAL,
    {
        MIN_HEART_INTERVAL
    }
}

} // verus!
