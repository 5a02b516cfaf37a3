use rswinthings::journal::{ReadUsnJournalData, ReadUsnJournalDataV0, ReadUsnJournalDataV1,
    UsnJournalData};
use rswinthings::errors::ErrorType;

fn put_u64(buffer: &mut Vec<u8>, value: u64) {
    let mut v = value;
    for _ in 0..8 {
        buffer.push((v & 0xff) as u8);
        v >>= 8;
    }
}

fn put_u32(buffer: &mut Vec<u8>, value: u32) {
    let mut v = value;
    for _ in 0..4 {
        buffer.push((v & 0xff) as u8);
        v >>= 8;
    }
}

fn put_u16(buffer: &mut Vec<u8>, value: u16) {
    buffer.push((value & 0xff) as u8);
    buffer.push((value >> 8) as u8);
}

fn journal_v2_buffer() -> Vec<u8> {
    let mut b: Vec<u8> = Vec::new();
    put_u64(&mut b, 0x1122334455667788); // journal id
    put_u64(&mut b, 100); // first usn
    put_u64(&mut b, 5000); // next usn
    put_u64(&mut b, 50); // lowest valid usn
    put_u64(&mut b, 1 << 40); // max usn
    put_u64(&mut b, 32 * 1024 * 1024); // maximum size
    put_u64(&mut b, 8 * 1024 * 1024); // allocation delta
    put_u16(&mut b, 2); // min major version
    put_u16(&mut b, 4); // max major version
    put_u32(&mut b, 1); // flags
    put_u64(&mut b, 0x4000); // range track chunk size
    put_u64(&mut b, 0x10000); // range track file size threshold
    b
}

#[test]
fn decode_v0_by_length() {
    let b = &journal_v2_buffer()[..56];
    let decoded = UsnJournalData::new(b).expect("56 bytes decode as V0");
    match decoded {
        UsnJournalData::V0(d) => {
            assert_eq!(d.usn_journal_id, 0x1122334455667788);
            assert_eq!(d.first_usn, 100);
            assert_eq!(d.next_usn, 5000);
            assert_eq!(d.lowest_valid_usn, 50);
            assert_eq!(d.max_usn, 1 << 40);
            assert_eq!(d.maximum_size, 32 * 1024 * 1024);
            assert_eq!(d.allocation_delta, 8 * 1024 * 1024);
        },
        other => panic!("wrong version: {:?}", other),
    }
}

#[test]
fn decode_v1_by_length() {
    let b = &journal_v2_buffer()[..60];
    let decoded = UsnJournalData::new(b).expect("60 bytes decode as V1");
    match decoded {
        UsnJournalData::V1(d) => {
            assert_eq!(d.usn_journal_id, 0x1122334455667788);
            assert_eq!(d.next_usn, 5000);
            assert_eq!(d.min_major_version, 2);
            assert_eq!(d.max_major_version, 4);
        },
        other => panic!("wrong version: {:?}", other),
    }
}

#[test]
fn decode_v2_by_length() {
    let b = journal_v2_buffer();
    let decoded = UsnJournalData::new(&b).expect("80 bytes decode as V2");
    match decoded {
        UsnJournalData::V2(d) => {
            assert_eq!(d.usn_journal_id, 0x1122334455667788);
            assert_eq!(d.next_usn, 5000);
            assert_eq!(d.min_major_version, 2);
            assert_eq!(d.max_major_version, 4);
            assert_eq!(d.flags, 1);
            assert_eq!(d.range_track_chunk_size, 0x4000);
            assert_eq!(d.range_track_file_size_threshold, 0x10000);
        },
        other => panic!("wrong version: {:?}", other),
    }
}

#[test]
fn decode_rejects_other_lengths() {
    let b = journal_v2_buffer();
    for n in [0usize, 8, 55, 57, 59, 61, 79] {
        let err = UsnJournalData::new(&b[..n]).expect_err("length must be rejected");
        assert_eq!(err.kind, ErrorType::InvalidUsnJournalData);
        assert_eq!(
            err.message,
            format!("Unknown size for UsnJournalData structure: {}", n)
        );
    }
}

#[test]
fn next_usn_is_version_independent() {
    let b = journal_v2_buffer();
    for n in [56usize, 60, 80] {
        let decoded = UsnJournalData::new(&b[..n]).unwrap();
        assert_eq!(decoded.get_next_usn(), 5000);
    }
}

#[test]
fn read_request_preserves_journal_id_and_takes_overrides() {
    let b = journal_v2_buffer();
    for n in [56usize, 60, 80] {
        let journal = UsnJournalData::new(&b[..n]).unwrap();
        let request = ReadUsnJournalData::from_usn_journal_data(journal)
            .with_start_usn(777)
            .with_reason_mask(0x00001000);
        match request {
            ReadUsnJournalData::V0(d) => {
                assert_eq!(n, 56);
                assert_eq!(d.usn_journal_id, 0x1122334455667788);
                assert_eq!(d.start_usn, 777);
                assert_eq!(d.reason_mask, 0x00001000);
                assert_eq!(d.return_only_on_close, 0);
                assert_eq!(d.timeout, 0);
                assert_eq!(d.bytes_to_wait_for, 0);
            },
            ReadUsnJournalData::V1(d) => {
                assert!(n == 60 || n == 80);
                assert_eq!(d.usn_journal_id, 0x1122334455667788);
                assert_eq!(d.start_usn, 777);
                assert_eq!(d.reason_mask, 0x00001000);
                assert_eq!(d.min_major_version, 2);
                assert_eq!(d.max_major_version, 4);
            },
        }
    }
}

#[test]
fn read_request_defaults_to_first_usn_and_full_mask() {
    let b = journal_v2_buffer();
    let journal = UsnJournalData::new(&b[..56]).unwrap();
    match ReadUsnJournalData::from_usn_journal_data(journal) {
        ReadUsnJournalData::V0(d) => {
            assert_eq!(d.start_usn, 100);
            assert_eq!(d.reason_mask, 0xffffffff);
        },
        other => panic!("V0 journal data must give a V0 request: {:?}", other),
    }
}

#[test]
fn override_order_does_not_matter() {
    let b = journal_v2_buffer();
    let journal = UsnJournalData::new(&b[..60]).unwrap();
    let first = ReadUsnJournalData::from_usn_journal_data(journal)
        .with_start_usn(9)
        .with_reason_mask(3);
    let second = ReadUsnJournalData::from_usn_journal_data(journal)
        .with_reason_mask(3)
        .with_start_usn(9);
    assert_eq!(first.to_bytes(), second.to_bytes());
}

#[test]
fn encode_v0_layout() {
    let request = ReadUsnJournalData::V0(ReadUsnJournalDataV0::new(0x0102030405060708, 0x11));
    let bytes = request.to_bytes();
    assert_eq!(bytes.len(), 40);
    assert_eq!(&bytes[0..8], &[8, 7, 6, 5, 4, 3, 2, 1]);
    assert_eq!(&bytes[8..12], &[0xff, 0xff, 0xff, 0xff]);
    assert_eq!(&bytes[12..16], &[0, 0, 0, 0]);
    assert_eq!(&bytes[16..24], &[0; 8]);
    assert_eq!(&bytes[24..32], &[0; 8]);
    assert_eq!(&bytes[32..40], &[0x11, 0, 0, 0, 0, 0, 0, 0]);
}

#[test]
fn encode_v1_layout() {
    let request = ReadUsnJournalData::V1(ReadUsnJournalDataV1::new(2, 3, 2, 4));
    let bytes = request.to_bytes();
    assert_eq!(bytes.len(), 44);
    assert_eq!(&bytes[0..8], &[2, 0, 0, 0, 0, 0, 0, 0]);
    assert_eq!(&bytes[32..40], &[3, 0, 0, 0, 0, 0, 0, 0]);
    assert_eq!(&bytes[40..42], &[2, 0]);
    assert_eq!(&bytes[42..44], &[4, 0]);
}
