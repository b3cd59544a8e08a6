//! The wire format of the long link.
use mars_stn::config::MIN_HEART_INTERVAL;
use mars_stn::longlink::{
    longlink_pack, longlink_unpack, LongLinkEncoder, PackerEncoderVersion, StNetMsgXpHeader,
    Unpacked, HEADER_LEN, LONGLINK_UNPACK_CONTINUE, LONGLINK_UNPACK_FALSE, LONGLINK_UNPACK_OK,
    LONGLINK_UNPACK_STREAM_END, LONGLINK_UNPACK_STREAM_PACKAGE, MAX_PACKAGE_LEN, NOOP_CMDID,
    PUSH_DATA_TASKID, SIGNALKEEP_CMDID,
};
use mars_stn::task::Task;

#[test]
fn the_header_is_twenty_packed_bytes_of_network_endian() {
    let header = StNetMsgXpHeader {
        head_length: HEADER_LEN as u32,
        client_version: 0x0102_0304,
        cmdid: 7,
        seq: 9,
        body_length: 3,
    };
    let bytes = header.to_bytes();
    assert_eq!(bytes.len(), HEADER_LEN);
    // the first field is big endian, and so is the last
    assert_eq!(&bytes[0..4], &20u32.to_be_bytes());
    assert_eq!(&bytes[4..8], &0x0102_0304u32.to_be_bytes());
    assert_eq!(&bytes[16..20], &3u32.to_be_bytes());

    assert_eq!(StNetMsgXpHeader::from_bytes(&bytes), header);
}

#[test]
fn a_short_read_still_gives_the_fields_it_has() {
    let header = StNetMsgXpHeader::from_bytes(&[0, 0, 0, 20]);
    assert_eq!(header.head_length, 20);
    assert_eq!(header.body_length, 0);
}

#[test]
fn pack_writes_the_header_then_the_body() {
    let packed = longlink_pack(0x0102_0304, 11, 22, b"hello");
    assert_eq!(packed.len(), HEADER_LEN + 5);
    assert_eq!(&packed[HEADER_LEN..], b"hello");

    let header = StNetMsgXpHeader::from_bytes(&packed);
    assert_eq!(header.head_length, HEADER_LEN as u32);
    assert_eq!(header.client_version, 0x0102_0304);
    assert_eq!(header.cmdid, 11);
    assert_eq!(header.seq, 22);
    assert_eq!(header.body_length, 5);
}

#[test]
fn what_packs_unpacks() {
    let packed = longlink_pack(200, 3, 4, b"the body");
    assert_eq!(
        longlink_unpack(200, &packed),
        Unpacked::Package {
            cmdid: 3,
            seq: 4,
            package_len: HEADER_LEN + 8,
            body: b"the body".to_vec(),
        }
    );
    assert_eq!(longlink_unpack(200, &packed).code(), LONGLINK_UNPACK_OK);
}

#[test]
fn an_empty_body_is_still_a_package() {
    let packed = longlink_pack(0, 0, 0, &[]);
    assert_eq!(packed.len(), HEADER_LEN);
    assert_eq!(
        longlink_unpack(0, &packed),
        Unpacked::Package {
            cmdid: 0,
            seq: 0,
            package_len: HEADER_LEN,
            body: Vec::new(),
        }
    );
}

#[test]
fn a_short_buffer_asks_for_more() {
    assert_eq!(longlink_unpack(1, &[]), Unpacked::Continue);

    let packed = longlink_pack(1, 1, 1, b"0123456789");
    // one byte short of the whole package
    let short = &packed[..packed.len() - 1];
    assert_eq!(longlink_unpack(1, short), Unpacked::Continue);
    assert_eq!(longlink_unpack(1, short).code(), LONGLINK_UNPACK_CONTINUE);
}

#[test]
fn a_package_of_another_version_is_refused() {
    let packed = longlink_pack(300, 1, 1, b"x");
    assert_eq!(longlink_unpack(301, &packed), Unpacked::False);
    assert_eq!(longlink_unpack(301, &packed).code(), LONGLINK_UNPACK_FALSE);
}

#[test]
fn a_package_over_a_megabyte_is_refused() {
    // a header that claims more than is allowed
    let mut packed = longlink_pack(0, 1, 1, &[]);
    let huge = (MAX_PACKAGE_LEN as u32 + 1).to_be_bytes();
    packed[16..20].copy_from_slice(&huge);
    assert_eq!(longlink_unpack(0, &packed), Unpacked::False);
}

#[test]
fn two_packages_in_one_buffer_are_read_one_after_the_other() {
    let mut stream = longlink_pack(0, 1, 1, b"first");
    stream.extend_from_slice(&longlink_pack(0, 2, 2, b"second"));

    let Unpacked::Package { package_len, body, .. } = longlink_unpack(0, &stream) else {
        panic!("the first package");
    };
    assert_eq!(body, b"first".to_vec());

    let Unpacked::Package { cmdid, body, .. } = longlink_unpack(0, &stream[package_len..]) else {
        panic!("the second package");
    };
    assert_eq!(cmdid, 2);
    assert_eq!(body, b"second".to_vec());
}

#[test]
fn the_encoder_defaults_and_the_cmdids() {
    let mut encoder = LongLinkEncoder::new();
    assert_eq!(encoder.packer_encoder_version, PackerEncoderVersion::Old);
    encoder.set_encoder_version(2);
    assert_eq!(encoder.packer_encoder_version, PackerEncoderVersion::New);
    encoder.set_encoder_version(9);
    assert_eq!(encoder.packer_encoder_version, PackerEncoderVersion::Old);

    assert_eq!(encoder.noop_cmdid(), NOOP_CMDID);
    assert_eq!(encoder.signal_keep_cmdid(), SIGNALKEEP_CMDID);
    assert_eq!(encoder.noop_interval(), 0);
    assert!(!encoder.complexconnect_need_verify());
    assert_eq!(encoder.heart_interval(), MIN_HEART_INTERVAL);
}

#[test]
fn the_encoder_tells_a_heartbeat_a_push_and_an_identify_apart() {
    let encoder = LongLinkEncoder::new();
    // the noop task with the noop cmdid
    assert!(encoder.noop_isresp(Task::NOOP_TASK_ID, NOOP_CMDID));
    assert!(!encoder.noop_isresp(Task::NOOP_TASK_ID, SIGNALKEEP_CMDID));
    assert!(!encoder.noop_isresp(1, NOOP_CMDID));

    // the server pushes with task id 0
    assert!(encoder.is_push(PUSH_DATA_TASKID));
    assert!(!encoder.is_push(1));

    // an identify answer carries the seq that was sent
    assert!(encoder.identify_isresp(7, 7));
    assert!(!encoder.identify_isresp(7, 8));
    assert!(!encoder.identify_isresp(0, 0), "seq 0 is not an answer");
}

#[test]
fn the_stream_constants_are_the_ones_the_http2_path_reads() {
    assert_eq!(LONGLINK_UNPACK_STREAM_END, LONGLINK_UNPACK_OK);
    assert_eq!(LONGLINK_UNPACK_STREAM_PACKAGE, 1);
}
