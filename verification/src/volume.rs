//! Live-volume record access: the decode of volume geometry, the decode of
//! one fetched MFT record buffer, and the cursor arithmetic of the full
//! volume scan.
//!
//! The device calls themselves stay with the caller; everything that decides
//! or decodes is here.

use vstd::prelude::*;
use vstd::string::StrSliceExecFns;
use vstd::string::StringExecFns;

use crate::bytes::{le32, le64, le64_signed, read_le_i64, read_le_u32, read_le_u64};
use crate::errors::{ErrorType, WinThingError};

verus! {

/// The part of the 128-byte NTFS volume data the scan needs: how large one
/// file record segment is, and how much of the MFT holds valid data.
#[derive(Debug, Clone, Copy)]
pub struct VolumeGeometry {
    pub bytes_per_file_record_segment: u32,
    pub mft_valid_data_length: i64,
}

/// Decodes the fixed 128-byte volume-data buffer: the record segment size
/// sits at offset 48 and the MFT valid data length at offset 56.
pub fn decode_volume_geometry(buffer: &[u8]) -> (g: VolumeGeometry)
    requires
        buffer@.len() == 128,
    ensures
        g.bytes_per_file_record_segment == le32(buffer@, 48),
        g.mft_valid_data_length == le64_signed(buffer@, 56),
{
    VolumeGeometry {
        bytes_per_file_record_segment: read_le_u32(buffer, 48),
        mft_valid_data_length: read_le_i64(buffer, 56),
    }
}

/// The cursor of a full-volume entry scan, walking from the highest possible
/// entry number down to zero.
#[derive(Debug, Clone, Copy)]
pub struct MftScanCursor {
    /// The next entry number to request; below zero the scan is over.
    pub next: i64,
}

impl MftScanCursor {
    /// Starts at the highest entry number the volume can hold: one less than
    /// the count of record segments inside the MFT's valid data.
    pub fn start(geometry: &VolumeGeometry) -> (r: Self)
        requires
            geometry.bytes_per_file_record_segment > 0,
            geometry.mft_valid_data_length >= 0,
        ensures
            r.next == geometry.mft_valid_data_length as int / geometry.bytes_per_file_record_segment
                as int - 1,
    {
        MftScanCursor {
            next: geometry.mft_valid_data_length / (geometry.bytes_per_file_record_segment as i64)
                - 1,
        }
    }

    /// Whether the scan has walked past entry zero.
    pub fn finished(&self) -> (r: bool)
        ensures
            r == (self.next < 0),
    {
        self.next < 0
    }

    /// The fetch of a requested entry returns the nearest allocated entry at
    /// or below it; the scan resumes just below the entry that came back, so
    /// a run of unallocated slots costs one device call instead of one each.
    pub fn advance_below(&mut self, returned_frn: u64)
        ensures
            final(self).next == crate::reference::spec_entry_of(returned_frn) - 1,
    {
        let entry = returned_frn % 0x1_0000_0000_0000;
        self.next = (entry as i64) - 1;
    }
}

/// The scan makes progress: when the device honours its promise to hand back
/// an allocated entry at or below the requested one, resuming just below the
/// returned entry always moves strictly past the requested position, so a
/// full scan ends after at most one call per allocated entry.
pub proof fn lemma_scan_progress(requested: i64, returned_frn: u64)
    requires
        0 <= requested,
        crate::reference::spec_entry_of(returned_frn) <= requested as u64,
    ensures
        crate::reference::spec_entry_of(returned_frn) as int - 1 < requested,
{
}

/// The nibble `d` as a lowercase hexadecimal digit; callers keep `d` below
/// sixteen.
pub open spec fn hex_digit(d: int) -> char {
    if d == 0 {
        '0'
    } else if d == 1 {
        '1'
    } else if d == 2 {
        '2'
    } else if d == 3 {
        '3'
    } else if d == 4 {
        '4'
    } else if d == 5 {
        '5'
    } else if d == 6 {
        '6'
    } else if d == 7 {
        '7'
    } else if d == 8 {
        '8'
    } else if d == 9 {
        '9'
    } else if d == 10 {
        'a'
    } else if d == 11 {
        'b'
    } else if d == 12 {
        'c'
    } else if d == 13 {
        'd'
    } else if d == 14 {
        'e'
    } else {
        'f'
    }
}

/// The lowercase hexadecimal rendering of a byte sequence: two digits per
/// byte, high nibble first.
pub open spec fn spec_hex_bytes(b: Seq<u8>) -> Seq<char> {
    Seq::new(
        2 * b.len(),
        |i: int|
            if i % 2 == 0 {
                hex_digit(b[i / 2] as int / 16)
            } else {
                hex_digit(b[i / 2] as int % 16)
            },
    )
}

/// Relies on `hex::encode`: each byte becomes two lowercase hexadecimal
/// digits, high nibble first.
#[verifier::external_body]
fn hex_encode(b: &Vec<u8>) -> (r: String)
    ensures
        r@ == spec_hex_bytes(b@),
{
    hex::encode(b)
}

#[verifier::external_type_specification]
#[verifier::external_body]
pub struct ExMftEntry(mft::entry::MftEntry);

#[verifier::external_type_specification]
#[verifier::external_body]
pub struct ExMftParseError(mft::err::Error);

/// Whether the MFT decoder accepts these record bytes under this file
/// reference number.
pub uninterp spec fn mft_decode_ok(bytes: Seq<u8>, reference: u64) -> bool;

/// Relies on `mft::entry::MftEntry::from_buffer_skip_fixup`: a pure parse of
/// the record bytes that succeeds exactly when the decoder accepts them.
#[verifier::external_body]
fn decode_mft_entry(buffer: &Vec<u8>, reference: u64) -> (r: Result<
    mft::entry::MftEntry,
    mft::err::Error,
>)
    ensures
        r is Ok <==> mft_decode_ok(buffer@, reference),
{
    mft::entry::MftEntry::from_buffer_skip_fixup(buffer.clone(), reference)
}

/// Relies on `std::fmt::Display` of `mft::err::Error` for a human-readable
/// message; nothing about the text is assumed.
#[verifier::external_body]
fn mft_error_message(error: &mft::err::Error) -> String {
    format!("{}", error)
}

/// The raw decode of one fetched MFT record: the file reference number, the
/// declared record length, and the record bytes themselves.
#[derive(Debug)]
pub struct MftOutputBuffer {
    file_reference_number: u64,
    file_record_length: u32,
    file_record_buffer: Vec<u8>,
}

impl MftOutputBuffer {
    /// The file reference number the device reported.
    pub closed spec fn spec_reference(&self) -> u64 {
        self.file_reference_number
    }

    /// The declared record length.
    pub closed spec fn spec_record_length(&self) -> u32 {
        self.file_record_length
    }

    /// The record bytes.
    pub closed spec fn spec_record_bytes(&self) -> Seq<u8> {
        self.file_record_buffer@
    }

    /// The message a malformed record buffer is reported with.
    pub open spec fn malformed_message() -> Seq<char> {
        "MFT record buffer shorter than its declared record length"@
    }

    /// Decodes a fetch response: an 8-byte file reference number, a 4-byte
    /// record length, then the record bytes.  A buffer too short for the
    /// declared length is rejected.
    pub fn from_buffer(raw_buffer: &[u8]) -> (r: Result<MftOutputBuffer, WinThingError>)
        ensures
            match r {
                Ok(m) => {
                    &&& raw_buffer@.len() >= 12
                    &&& 12 + le32(raw_buffer@, 8) <= raw_buffer@.len()
                    &&& m.spec_reference() == le64(raw_buffer@, 0)
                    &&& m.spec_record_length() == le32(raw_buffer@, 8)
                    &&& m.spec_record_bytes() == raw_buffer@.subrange(
                        12,
                        12 + le32(raw_buffer@, 8) as int,
                    )
                },
                Err(e) => {
                    &&& raw_buffer@.len() < 12 || 12 + le32(raw_buffer@, 8) > raw_buffer@.len()
                    &&& e.kind == ErrorType::IoError
                    &&& e.message@ == Self::malformed_message()
                },
            },
    {
        if raw_buffer.len() < 12 {
            return Err(WinThingError {
                message: "MFT record buffer shorter than its declared record length".to_owned(),
                kind: ErrorType::IoError,
            });
        }
        let file_reference_number = read_le_u64(raw_buffer, 0);
        let file_record_length = read_le_u32(raw_buffer, 8);
        let length = file_record_length as usize;
        if length > raw_buffer.len() - 12 {
            return Err(WinThingError {
                message: "MFT record buffer shorter than its declared record length".to_owned(),
                kind: ErrorType::IoError,
            });
        }
        let raw_len = raw_buffer.len();
        let mut file_record_buffer: Vec<u8> = Vec::new();
        let mut i: usize = 0;
        while i < length
            invariant
                i <= length,
                raw_len == raw_buffer@.len(),
                12 + length <= raw_len,
                file_record_buffer@ == raw_buffer@.subrange(12, 12 + i as int),
            decreases length - i,
        {
            file_record_buffer.push(raw_buffer[12 + i]);
            proof {
                assert(file_record_buffer@ =~= raw_buffer@.subrange(12, 12 + (i + 1)));
            }
            i += 1;
        }
        Ok(MftOutputBuffer { file_reference_number, file_record_length, file_record_buffer })
    }

    /// The file reference number the device reported: the nearest allocated
    /// entry at or below the requested one.
    pub fn file_reference_number(&self) -> (r: u64)
        ensures
            r == self.spec_reference(),
    {
        self.file_reference_number
    }

    /// The declared record length.
    pub fn record_length(&self) -> (r: u32)
        ensures
            r == self.spec_record_length(),
    {
        self.file_record_length
    }

    /// The record bytes as lowercase hexadecimal text.
    pub fn buffer_as_hex(&self) -> (r: String)
        ensures
            r@ == spec_hex_bytes(self.spec_record_bytes()),
    {
        hex_encode(&self.file_record_buffer)
    }

    /// Hands the record bytes to the MFT decoder; a decode failure surfaces
    /// as an `MftError`.
    pub fn as_entry(&self) -> (r: Result<mft::entry::MftEntry, WinThingError>)
        ensures
            r is Ok <==> mft_decode_ok(self.spec_record_bytes(), self.spec_reference()),
            r matches Err(e) ==> e.kind == ErrorType::MftError,
    {
        match decode_mft_entry(&self.file_record_buffer, self.file_reference_number) {
            Ok(entry) => Ok(entry),
            Err(error) => Err(WinThingError {
                message: mft_error_message(&error),
                kind: ErrorType::MftError,
            }),
        }
    }
}

/// Whether the character is an ASCII letter.
pub open spec fn spec_is_alpha(c: char) -> bool {
    ('a' <= c && c <= 'z') || ('A' <= c && c <= 'Z')
}

/// The first position in `s` from `i` on where a letter directly followed by
/// a colon stands.
pub open spec fn spec_find_volume_letter(s: Seq<char>, i: int) -> Option<int>
    decreases s.len() - i,
{
    if i < 0 || i + 1 >= s.len() {
        None
    } else if spec_is_alpha(s[i]) && s[i + 1] == ':' {
        Some(i)
    } else {
        spec_find_volume_letter(s, i + 1)
    }
}

/// The message an unrecognizable volume root is reported with.
pub open spec fn spec_no_volume_message(root: Seq<char>) -> Seq<char> {
    "Unable to get volume for "@ + root
}

/// Extracts the drive letter from a volume root path and renders the device
/// path the volume is opened under: a letter directly followed by a colon
/// becomes `\\.\<letter>:`, and a root without one is rejected.
pub fn volume_device_path(root: &str) -> (r: Result<String, WinThingError>)
    ensures
        match r {
            Ok(volume) => {
                &&& spec_find_volume_letter(root@, 0) matches Some(i) && volume@ == "\\\\.\\"@
                    + seq![root@[i]] + ":"@
            },
            Err(e) => {
                &&& spec_find_volume_letter(root@, 0) is None
                &&& e.kind == ErrorType::UnhandledLogic
                &&& e.message@ == spec_no_volume_message(root@)
            },
        },
{
    let n = root.unicode_len();
    let mut i: usize = 0;
    loop
        invariant_except_break
            n == root@.len(),
            i <= n,
            spec_find_volume_letter(root@, 0) == spec_find_volume_letter(root@, i as int),
        ensures
            match spec_find_volume_letter(root@, 0) {
                Some(k) => {
                    &&& i as int == k
                    &&& i + 1 < n
                    &&& n == root@.len()
                    &&& spec_is_alpha(root@[i as int])
                    &&& root@[i + 1] == ':'
                },
                None => i + 1 >= n,
            },
        decreases n - i,
    {
        if n == 0 || i >= n - 1 {
            break ;
        }
        let c = root.get_char(i);
        let d = root.get_char(i + 1);
        if (('a' <= c && c <= 'z') || ('A' <= c && c <= 'Z')) && d == ':' {
            break ;
        }
        i += 1;
    }
    if n > 0 && i < n - 1 {
        let letter = root.substring_char(i, i + 1);
        let mut volume = "\\\\.\\".to_owned();
        volume.append(letter);
        volume.append(":");
        proof {
            assert(letter@ =~= seq![root@[i as int]]);
        }
        Ok(volume)
    } else {
        let mut message = "Unable to get volume for ".to_owned();
        message.append(root);
        Err(WinThingError { message, kind: ErrorType::UnhandledLogic })
    }
}

} // verus!
