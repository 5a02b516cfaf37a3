//! Version-tagged USN journal structures and their byte-exact codecs.
//!
//! Journal metadata arrives as a fixed-size little-endian buffer whose length
//! selects the structure version: 56 bytes for V0, 60 for V1, 80 for V2.  A
//! read request mirrors the native layout the journal read call expects, 40
//! bytes for V0 and 44 for V1; V2 metadata degrades to a V1 read request
//! because no V2 read-request variant exists.

use vstd::prelude::*;

use crate::bytes::{enc16, enc32, enc64, le16, le32, le64, le64_signed, push_le_u16, push_le_u32,
    push_le_u64, read_le_i64, read_le_u16, read_le_u32, read_le_u64};
use crate::errors::{ErrorType, WinThingError};

verus! {

/// A USN_JOURNAL_DATA_V0 structure, decoded from 56 bytes.
#[derive(Debug, Clone, Copy)]
pub struct UsnJournalDataV0 {
    pub usn_journal_id: u64,
    pub first_usn: u64,
    pub next_usn: u64,
    pub lowest_valid_usn: u64,
    pub max_usn: u64,
    pub maximum_size: u64,
    pub allocation_delta: u64,
}

/// A USN_JOURNAL_DATA_V1 structure, decoded from 60 bytes.
#[derive(Debug, Clone, Copy)]
pub struct UsnJournalDataV1 {
    pub usn_journal_id: u64,
    pub first_usn: u64,
    pub next_usn: u64,
    pub lowest_valid_usn: u64,
    pub max_usn: u64,
    pub maximum_size: u64,
    pub allocation_delta: u64,
    pub min_major_version: u16,
    pub max_major_version: u16,
}

/// A USN_JOURNAL_DATA_V2 structure, decoded from 80 bytes.
#[derive(Debug, Clone, Copy)]
pub struct UsnJournalDataV2 {
    pub usn_journal_id: u64,
    pub first_usn: u64,
    pub next_usn: u64,
    pub lowest_valid_usn: u64,
    pub max_usn: u64,
    pub maximum_size: u64,
    pub allocation_delta: u64,
    pub min_major_version: u16,
    pub max_major_version: u16,
    pub flags: u32,
    pub range_track_chunk_size: u64,
    pub range_track_file_size_threshold: i64,
}

/// Wrapper for the USN_JOURNAL_DATA versions.
#[derive(Debug, Clone, Copy)]
pub enum UsnJournalData {
    V0(UsnJournalDataV0),
    V1(UsnJournalDataV1),
    V2(UsnJournalDataV2),
}

/// The V0 structure described by the first 56 bytes of `b`.
pub open spec fn spec_journal_v0(b: Seq<u8>) -> UsnJournalDataV0 {
    UsnJournalDataV0 {
        usn_journal_id: le64(b, 0),
        first_usn: le64(b, 8),
        next_usn: le64(b, 16),
        lowest_valid_usn: le64(b, 24),
        max_usn: le64(b, 32),
        maximum_size: le64(b, 40),
        allocation_delta: le64(b, 48),
    }
}

/// The V1 structure described by the first 60 bytes of `b`.
pub open spec fn spec_journal_v1(b: Seq<u8>) -> UsnJournalDataV1 {
    UsnJournalDataV1 {
        usn_journal_id: le64(b, 0),
        first_usn: le64(b, 8),
        next_usn: le64(b, 16),
        lowest_valid_usn: le64(b, 24),
        max_usn: le64(b, 32),
        maximum_size: le64(b, 40),
        allocation_delta: le64(b, 48),
        min_major_version: le16(b, 56),
        max_major_version: le16(b, 58),
    }
}

/// The V2 structure described by the first 80 bytes of `b`.
pub open spec fn spec_journal_v2(b: Seq<u8>) -> UsnJournalDataV2 {
    UsnJournalDataV2 {
        usn_journal_id: le64(b, 0),
        first_usn: le64(b, 8),
        next_usn: le64(b, 16),
        lowest_valid_usn: le64(b, 24),
        max_usn: le64(b, 32),
        maximum_size: le64(b, 40),
        allocation_delta: le64(b, 48),
        min_major_version: le16(b, 56),
        max_major_version: le16(b, 58),
        flags: le32(b, 60),
        range_track_chunk_size: le64(b, 64),
        range_track_file_size_threshold: le64_signed(b, 72),
    }
}

/// The decode of a journal-metadata buffer: the version is selected by the
/// exact byte length, and any other length is rejected.
pub open spec fn spec_decode_journal(b: Seq<u8>) -> Option<UsnJournalData> {
    if b.len() == 56 {
        Some(UsnJournalData::V0(spec_journal_v0(b)))
    } else if b.len() == 60 {
        Some(UsnJournalData::V1(spec_journal_v1(b)))
    } else if b.len() == 80 {
        Some(UsnJournalData::V2(spec_journal_v2(b)))
    } else {
        None
    }
}

impl UsnJournalData {
    /// Decodes a journal-metadata buffer, selecting the structure version by
    /// the buffer's length; any other length is an `InvalidUsnJournalData`
    /// error naming the length.
    pub fn new(buffer: &[u8]) -> (r: Result<UsnJournalData, WinThingError>)
        ensures
            match r {
                Ok(j) => spec_decode_journal(buffer@) == Some(j),
                Err(e) => {
                    &&& spec_decode_journal(buffer@) is None
                    &&& e.kind == ErrorType::InvalidUsnJournalData
                    &&& e.message@ == WinThingError::invalid_journal_message(buffer@.len() as int)
                },
            },
    {
        let n = buffer.len();
        if n == 56 {
            Ok(UsnJournalData::V0(UsnJournalDataV0 {
                usn_journal_id: read_le_u64(buffer, 0),
                first_usn: read_le_u64(buffer, 8),
                next_usn: read_le_u64(buffer, 16),
                lowest_valid_usn: read_le_u64(buffer, 24),
                max_usn: read_le_u64(buffer, 32),
                maximum_size: read_le_u64(buffer, 40),
                allocation_delta: read_le_u64(buffer, 48),
            }))
        } else if n == 60 {
            Ok(UsnJournalData::V1(UsnJournalDataV1 {
                usn_journal_id: read_le_u64(buffer, 0),
                first_usn: read_le_u64(buffer, 8),
                next_usn: read_le_u64(buffer, 16),
                lowest_valid_usn: read_le_u64(buffer, 24),
                max_usn: read_le_u64(buffer, 32),
                maximum_size: read_le_u64(buffer, 40),
                allocation_delta: read_le_u64(buffer, 48),
                min_major_version: read_le_u16(buffer, 56),
                max_major_version: read_le_u16(buffer, 58),
            }))
        } else if n == 80 {
            Ok(UsnJournalData::V2(UsnJournalDataV2 {
                usn_journal_id: read_le_u64(buffer, 0),
                first_usn: read_le_u64(buffer, 8),
                next_usn: read_le_u64(buffer, 16),
                lowest_valid_usn: read_le_u64(buffer, 24),
                max_usn: read_le_u64(buffer, 32),
                maximum_size: read_le_u64(buffer, 40),
                allocation_delta: read_le_u64(buffer, 48),
                min_major_version: read_le_u16(buffer, 56),
                max_major_version: read_le_u16(buffer, 58),
                flags: read_le_u32(buffer, 60),
                range_track_chunk_size: read_le_u64(buffer, 64),
                range_track_file_size_threshold: read_le_i64(buffer, 72),
            }))
        } else {
            Err(WinThingError::invalid_usn_journal_data(n))
        }
    }

    /// The journal's next USN, whatever the structure version.
    pub open spec fn spec_next_usn(&self) -> u64 {
        match self {
            UsnJournalData::V0(jd) => jd.next_usn,
            UsnJournalData::V1(jd) => jd.next_usn,
            UsnJournalData::V2(jd) => jd.next_usn,
        }
    }

    /// The journal's identifier, whatever the structure version.
    pub open spec fn spec_journal_id(&self) -> u64 {
        match self {
            UsnJournalData::V0(jd) => jd.usn_journal_id,
            UsnJournalData::V1(jd) => jd.usn_journal_id,
            UsnJournalData::V2(jd) => jd.usn_journal_id,
        }
    }

    pub fn get_next_usn(&self) -> (r: u64)
        ensures
            r == self.spec_next_usn(),
    {
        match self {
            UsnJournalData::V0(jd) => jd.next_usn,
            UsnJournalData::V1(jd) => jd.next_usn,
            UsnJournalData::V2(jd) => jd.next_usn,
        }
    }
}

/// A READ_USN_JOURNAL_DATA_V0 structure; 40 bytes in its native layout.
#[derive(Debug, Clone, Copy)]
pub struct ReadUsnJournalDataV0 {
    pub start_usn: u64,
    pub reason_mask: u32,
    pub return_only_on_close: u32,
    pub timeout: u64,
    pub bytes_to_wait_for: u64,
    pub usn_journal_id: u64,
}

/// A READ_USN_JOURNAL_DATA_V1 structure; 44 bytes in its native layout.
#[derive(Debug, Clone, Copy)]
pub struct ReadUsnJournalDataV1 {
    pub start_usn: u64,
    pub reason_mask: u32,
    pub return_only_on_close: u32,
    pub timeout: u64,
    pub bytes_to_wait_for: u64,
    pub usn_journal_id: u64,
    pub min_major_version: u16,
    pub max_major_version: u16,
}

/// Wrapper for the READ_USN_JOURNAL_DATA versions.
#[derive(Debug, Clone, Copy)]
pub enum ReadUsnJournalData {
    V0(ReadUsnJournalDataV0),
    V1(ReadUsnJournalDataV1),
}

impl ReadUsnJournalDataV0 {
    /// A fresh V0 read request: every-reason mask, no close filter, no
    /// timeout, no wait threshold.
    pub fn new(start_usn: u64, usn_journal_id: u64) -> (r: ReadUsnJournalDataV0)
        ensures
            r == (ReadUsnJournalDataV0 {
                start_usn,
                reason_mask: 0xffffffff,
                return_only_on_close: 0,
                timeout: 0,
                bytes_to_wait_for: 0,
                usn_journal_id,
            }),
    {
        ReadUsnJournalDataV0 {
            start_usn,
            reason_mask: 0xffffffff,
            return_only_on_close: 0,
            timeout: 0,
            bytes_to_wait_for: 0,
            usn_journal_id,
        }
    }
}

impl ReadUsnJournalDataV1 {
    /// A fresh V1 read request with the journal's supported record versions.
    pub fn new(start_usn: u64, usn_journal_id: u64, min_major_version: u16, max_major_version: u16)
        -> (r: ReadUsnJournalDataV1)
        ensures
            r == (ReadUsnJournalDataV1 {
                start_usn,
                reason_mask: 0xffffffff,
                return_only_on_close: 0,
                timeout: 0,
                bytes_to_wait_for: 0,
                usn_journal_id,
                min_major_version,
                max_major_version,
            }),
    {
        ReadUsnJournalDataV1 {
            start_usn,
            reason_mask: 0xffffffff,
            return_only_on_close: 0,
            timeout: 0,
            bytes_to_wait_for: 0,
            usn_journal_id,
            min_major_version,
            max_major_version,
        }
    }
}

/// The read request built from journal metadata: journal id and first USN are
/// copied, and V2 metadata degrades to a V1 request.
pub open spec fn spec_request_from_journal(journal_data: UsnJournalData) -> ReadUsnJournalData {
    match journal_data {
        UsnJournalData::V0(jd) => ReadUsnJournalData::V0(ReadUsnJournalDataV0 {
            start_usn: jd.first_usn,
            reason_mask: 0xffffffff,
            return_only_on_close: 0,
            timeout: 0,
            bytes_to_wait_for: 0,
            usn_journal_id: jd.usn_journal_id,
        }),
        UsnJournalData::V1(jd) => ReadUsnJournalData::V1(ReadUsnJournalDataV1 {
            start_usn: jd.first_usn,
            reason_mask: 0xffffffff,
            return_only_on_close: 0,
            timeout: 0,
            bytes_to_wait_for: 0,
            usn_journal_id: jd.usn_journal_id,
            min_major_version: jd.min_major_version,
            max_major_version: jd.max_major_version,
        }),
        UsnJournalData::V2(jd) => ReadUsnJournalData::V1(ReadUsnJournalDataV1 {
            start_usn: jd.first_usn,
            reason_mask: 0xffffffff,
            return_only_on_close: 0,
            timeout: 0,
            bytes_to_wait_for: 0,
            usn_journal_id: jd.usn_journal_id,
            min_major_version: jd.min_major_version,
            max_major_version: jd.max_major_version,
        }),
    }
}

/// `rr` with its reason mask replaced.
pub open spec fn spec_with_reason_mask(rr: ReadUsnJournalData, reason_mask: u32)
    -> ReadUsnJournalData {
    match rr {
        ReadUsnJournalData::V0(d) => ReadUsnJournalData::V0(
            ReadUsnJournalDataV0 { reason_mask, ..d },
        ),
        ReadUsnJournalData::V1(d) => ReadUsnJournalData::V1(
            ReadUsnJournalDataV1 { reason_mask, ..d },
        ),
    }
}

/// `rr` with its start USN replaced.
pub open spec fn spec_with_start_usn(rr: ReadUsnJournalData, start_usn: u64)
    -> ReadUsnJournalData {
    match rr {
        ReadUsnJournalData::V0(d) => ReadUsnJournalData::V0(ReadUsnJournalDataV0 { start_usn, ..d }),
        ReadUsnJournalData::V1(d) => ReadUsnJournalData::V1(ReadUsnJournalDataV1 { start_usn, ..d }),
    }
}

impl ReadUsnJournalData {
    pub fn from_usn_journal_data(journal_data: UsnJournalData) -> (r: ReadUsnJournalData)
        ensures
            r == spec_request_from_journal(journal_data),
    {
        match journal_data {
            UsnJournalData::V0(jd) => ReadUsnJournalData::V0(
                ReadUsnJournalDataV0::new(jd.first_usn, jd.usn_journal_id),
            ),
            UsnJournalData::V1(jd) => ReadUsnJournalData::V1(
                ReadUsnJournalDataV1::new(
                    jd.first_usn,
                    jd.usn_journal_id,
                    jd.min_major_version,
                    jd.max_major_version,
                ),
            ),
            UsnJournalData::V2(jd) => ReadUsnJournalData::V1(
                ReadUsnJournalDataV1::new(
                    jd.first_usn,
                    jd.usn_journal_id,
                    jd.min_major_version,
                    jd.max_major_version,
                ),
            ),
        }
    }

    pub fn with_reason_mask(self, reason_mask: u32) -> (r: Self)
        ensures
            r == spec_with_reason_mask(self, reason_mask),
    {
        match self {
            ReadUsnJournalData::V0(d) => ReadUsnJournalData::V0(
                ReadUsnJournalDataV0 { reason_mask, ..d },
            ),
            ReadUsnJournalData::V1(d) => ReadUsnJournalData::V1(
                ReadUsnJournalDataV1 { reason_mask, ..d },
            ),
        }
    }

    pub fn with_start_usn(self, start_usn: u64) -> (r: Self)
        ensures
            r == spec_with_start_usn(self, start_usn),
    {
        match self {
            ReadUsnJournalData::V0(d) => ReadUsnJournalData::V0(
                ReadUsnJournalDataV0 { start_usn, ..d },
            ),
            ReadUsnJournalData::V1(d) => ReadUsnJournalData::V1(
                ReadUsnJournalDataV1 { start_usn, ..d },
            ),
        }
    }

    /// The request's start USN, whatever the version.
    pub open spec fn spec_start_usn(&self) -> u64 {
        match self {
            ReadUsnJournalData::V0(d) => d.start_usn,
            ReadUsnJournalData::V1(d) => d.start_usn,
        }
    }

    /// The request's reason mask, whatever the version.
    pub open spec fn spec_reason_mask(&self) -> u32 {
        match self {
            ReadUsnJournalData::V0(d) => d.reason_mask,
            ReadUsnJournalData::V1(d) => d.reason_mask,
        }
    }

    /// The request's journal id, whatever the version.
    pub open spec fn spec_journal_id(&self) -> u64 {
        match self {
            ReadUsnJournalData::V0(d) => d.usn_journal_id,
            ReadUsnJournalData::V1(d) => d.usn_journal_id,
        }
    }
}

/// The native little-endian layout of a read request: 40 bytes for V0, 44 for
/// V1, field for field in declaration order.
pub open spec fn spec_encode_request(rr: ReadUsnJournalData) -> Seq<u8> {
    match rr {
        ReadUsnJournalData::V0(d) => enc64(d.start_usn) + enc32(d.reason_mask) + enc32(
            d.return_only_on_close,
        ) + enc64(d.timeout) + enc64(d.bytes_to_wait_for) + enc64(d.usn_journal_id),
        ReadUsnJournalData::V1(d) => enc64(d.start_usn) + enc32(d.reason_mask) + enc32(
            d.return_only_on_close,
        ) + enc64(d.timeout) + enc64(d.bytes_to_wait_for) + enc64(d.usn_journal_id) + enc16(
            d.min_major_version,
        ) + enc16(d.max_major_version),
    }
}

impl ReadUsnJournalData {
    /// Serializes the request into the byte layout the device call takes.
    pub fn to_bytes(&self) -> (r: Vec<u8>)
        ensures
            r@ == spec_encode_request(*self),
    {
        let mut out: Vec<u8> = Vec::new();
        match self {
            ReadUsnJournalData::V0(d) => {
                push_le_u64(&mut out, d.start_usn);
                push_le_u32(&mut out, d.reason_mask);
                push_le_u32(&mut out, d.return_only_on_close);
                push_le_u64(&mut out, d.timeout);
                push_le_u64(&mut out, d.bytes_to_wait_for);
                push_le_u64(&mut out, d.usn_journal_id);
            },
            ReadUsnJournalData::V1(d) => {
                push_le_u64(&mut out, d.start_usn);
                push_le_u32(&mut out, d.reason_mask);
                push_le_u32(&mut out, d.return_only_on_close);
                push_le_u64(&mut out, d.timeout);
                push_le_u64(&mut out, d.bytes_to_wait_for);
                push_le_u64(&mut out, d.usn_journal_id);
                push_le_u16(&mut out, d.min_major_version);
                push_le_u16(&mut out, d.max_major_version);
            },
        }
        assert(out@ =~= spec_encode_request(*self));
        out
    }
}

/// However a read request was built and in whatever order its start USN and
/// reason mask were overridden, the overrides land in the stated fields and
/// the journal id is the one the source metadata carried.
pub proof fn lemma_request_overrides_independent(
    journal_data: UsnJournalData,
    start_usn: u64,
    reason_mask: u32,
)
    ensures
        ({
            let rr = spec_with_reason_mask(
                spec_with_start_usn(spec_request_from_journal(journal_data), start_usn),
                reason_mask,
            );
            &&& rr.spec_start_usn() == start_usn
            &&& rr.spec_reason_mask() == reason_mask
            &&& rr.spec_journal_id() == journal_data.spec_journal_id()
        }),
        spec_with_reason_mask(
            spec_with_start_usn(spec_request_from_journal(journal_data), start_usn),
            reason_mask,
        ) == spec_with_start_usn(
            spec_with_reason_mask(spec_request_from_journal(journal_data), reason_mask),
            start_usn,
        ),
{
}

} // verus!

