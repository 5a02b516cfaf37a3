use rswinthings::errors::ErrorType;
use rswinthings::volume::{decode_volume_geometry, volume_device_path, MftOutputBuffer,
    MftScanCursor, VolumeGeometry};

fn put_u64(buffer: &mut Vec<u8>, value: u64) {
    let mut v = value;
    for _ in 0..8 {
        buffer.push((v & 0xff) as u8);
        v >>= 8;
    }
}

fn put_u32(buffer: &mut Vec<u8>, value: u32) {
    let mut v = value;
    for _ in 0..4 {
        buffer.push((v & 0xff) as u8);
        v >>= 8;
    }
}

#[test]
fn geometry_fields_sit_at_fixed_offsets() {
    let mut buffer = vec![0u8; 128];
    buffer[48..52].copy_from_slice(&1024u32.to_le_bytes());
    buffer[56..64].copy_from_slice(&(40960i64).to_le_bytes());
    let geometry = decode_volume_geometry(&buffer);
    assert_eq!(geometry.bytes_per_file_record_segment, 1024);
    assert_eq!(geometry.mft_valid_data_length, 40960);
}

#[test]
fn scan_starts_below_the_valid_data_length() {
    let geometry = VolumeGeometry { bytes_per_file_record_segment: 1024, mft_valid_data_length: 40960 };
    let cursor = MftScanCursor::start(&geometry);
    assert_eq!(cursor.next, 39);
    assert!(!cursor.finished());
}

#[test]
fn scan_jumps_below_the_returned_entry() {
    let geometry = VolumeGeometry { bytes_per_file_record_segment: 1024, mft_valid_data_length: 40960 };
    let mut cursor = MftScanCursor::start(&geometry);
    // Requesting entry 39 returned allocated entry 25 under sequence 3: the
    // next request skips the unallocated run in one step.
    cursor.advance_below(25 | (3u64 << 48));
    assert_eq!(cursor.next, 24);
    cursor.advance_below(0);
    assert!(cursor.finished());
}

fn record_response(record: &[u8], reference: u64, declared: u32) -> Vec<u8> {
    let mut buffer: Vec<u8> = Vec::new();
    put_u64(&mut buffer, reference);
    put_u32(&mut buffer, declared);
    buffer.extend_from_slice(record);
    buffer
}

#[test]
fn record_buffer_decodes_reference_length_and_bytes() {
    let record = [0xde, 0xad, 0xbe, 0xef];
    let response = record_response(&record, 0x0102030405060708, 4);
    let decoded = MftOutputBuffer::from_buffer(&response).unwrap();
    assert_eq!(decoded.buffer_as_hex(), "deadbeef");
}

#[test]
fn record_buffer_keeps_only_the_declared_length() {
    let record = [0xaa, 0xbb, 0xcc, 0xdd];
    let response = record_response(&record, 1, 2);
    let decoded = MftOutputBuffer::from_buffer(&response).unwrap();
    assert_eq!(decoded.buffer_as_hex(), "aabb");
}

#[test]
fn record_buffer_rejects_a_short_response() {
    let record = [0xaa, 0xbb];
    let response = record_response(&record, 1, 8);
    let err = MftOutputBuffer::from_buffer(&response).unwrap_err();
    assert_eq!(err.kind, ErrorType::IoError);
    assert_eq!(err.message, "MFT record buffer shorter than its declared record length");
    let err = MftOutputBuffer::from_buffer(&[1, 2, 3]).unwrap_err();
    assert_eq!(err.kind, ErrorType::IoError);
}

#[test]
fn undecodable_record_bytes_surface_as_mft_error() {
    let record = [0u8; 64];
    let response = record_response(&record, 1, 64);
    let decoded = MftOutputBuffer::from_buffer(&response).unwrap();
    let err = decoded.as_entry().unwrap_err();
    assert_eq!(err.kind, ErrorType::MftError);
}

#[test]
fn valid_signature_decodes_as_entry() {
    let mut record = vec![0u8; 1024];
    record[0..4].copy_from_slice(b"FILE");
    record[4..6].copy_from_slice(&48u16.to_le_bytes()); // usa offset
    record[6..8].copy_from_slice(&3u16.to_le_bytes()); // usa size
    let response = record_response(&record, 1, 1024);
    let decoded = MftOutputBuffer::from_buffer(&response).unwrap();
    let entry = decoded.as_entry().expect("a FILE-signed record decodes");
    assert_eq!(entry.header.record_number, 1);
}

#[test]
fn device_path_is_built_from_the_drive_letter() {
    assert_eq!(volume_device_path("C:\\").unwrap(), "\\\\.\\C:");
    assert_eq!(volume_device_path("d:\\mount\\point").unwrap(), "\\\\.\\d:");
}

#[test]
fn rootless_path_is_rejected() {
    let err = volume_device_path("\\\\server\\share").unwrap_err();
    assert_eq!(err.kind, ErrorType::UnhandledLogic);
    assert_eq!(err.message, "Unable to get volume for \\\\server\\share");
}
