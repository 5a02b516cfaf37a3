//! The record-stream parser: turns one raw journal read buffer into typed
//! change records plus the resumable cursor.
//!
//! A successful read's first 8 bytes carry the USN of the next record *not*
//! in the buffer; the records that follow are variable-length and
//! length-prefixed in the USN_RECORD layout.  The walk stops at the first
//! slot that no longer holds a whole well-formed record, so a truncated or
//! zero-padded tail simply ends the stream.

use vstd::prelude::*;

use crate::bytes::{le16, le32, le64, le64_signed, read_le_i64, read_le_u16, read_le_u32,
    read_le_u64};
use crate::reference::{spec_reference_of, EntryReference};

verus! {

/// One parsed USN journal entry.
#[derive(Debug, Clone)]
pub struct ChangeRecord {
    pub usn: u64,
    pub file_reference: EntryReference,
    pub parent_reference: EntryReference,
    pub reason: u32,
    pub file_attributes: u32,
    pub timestamp: i64,
    pub file_name: String,
}

/// The mathematical value of a parsed record; the name is the decoded
/// character sequence.
pub struct ChangeRecordView {
    pub usn: u64,
    pub file_reference: EntryReference,
    pub parent_reference: EntryReference,
    pub reason: u32,
    pub file_attributes: u32,
    pub timestamp: i64,
    pub file_name: Seq<char>,
}

impl View for ChangeRecord {
    type V = ChangeRecordView;

    open spec fn view(&self) -> ChangeRecordView {
        ChangeRecordView {
            usn: self.usn,
            file_reference: self.file_reference,
            parent_reference: self.parent_reference,
            reason: self.reason,
            file_attributes: self.file_attributes,
            timestamp: self.timestamp,
            file_name: self.file_name@,
        }
    }
}

/// What a sequence of UTF-16 code units decodes to.
pub uninterp spec fn utf16_of(units: Seq<u16>) -> Seq<char>;

/// Relies on `String::from_utf16_lossy`: the result is a function of the code
/// units alone, and no units decode to the empty string.
#[verifier::external_body]
fn utf16_string(units: &Vec<u16>) -> (r: String)
    ensures
        r@ == utf16_of(units@),
        units@.len() == 0 ==> r@.len() == 0,
{
    String::from_utf16_lossy(units)
}

/// The UTF-16 code units stored little-endian at offset `o`.
pub open spec fn spec_name_units(b: Seq<u8>, o: int, count: int) -> Seq<u16> {
    Seq::new(count as nat, |j: int| le16(b, o + 2 * j))
}

/// Whether offset `o` of `b` holds a whole well-formed record: at least a
/// 60-byte fixed header, a record length that keeps the record inside the
/// buffer, and a name region inside the record after the fixed header.
pub open spec fn spec_record_fits(b: Seq<u8>, o: int) -> bool {
    &&& o + 60 <= b.len()
    &&& le32(b, o) >= 60
    &&& o + le32(b, o) <= b.len()
    &&& le16(b, o + 58) >= 60
    &&& le16(b, o + 58) + le16(b, o + 56) <= le32(b, o)
}

/// The record stored at offset `o` of `b`.
pub open spec fn spec_record_at(b: Seq<u8>, o: int) -> ChangeRecordView {
    ChangeRecordView {
        usn: le64(b, o + 24),
        file_reference: spec_reference_of(le64(b, o + 8)),
        parent_reference: spec_reference_of(le64(b, o + 16)),
        reason: le32(b, o + 40),
        file_attributes: le32(b, o + 52),
        timestamp: le64_signed(b, o + 32),
        file_name: utf16_of(
            spec_name_units(b, o + le16(b, o + 58), le16(b, o + 56) as int / 2),
        ),
    }
}

/// The records laid out one after another from offset `o` to the first slot
/// that holds no whole record.
pub open spec fn spec_parse_records(b: Seq<u8>, o: int) -> Seq<ChangeRecordView>
    decreases b.len() - o,
{
    if !spec_record_fits(b, o) {
        Seq::empty()
    } else {
        seq![spec_record_at(b, o)] + spec_parse_records(b, o + le32(b, o) as int)
    }
}

/// Parses one journal read buffer: the leading 8 bytes are the next resume
/// cursor, and the rest is walked record by record in buffer order.  An empty
/// record list on a successful read means the journal is caught up, not an
/// error.
pub fn parse_record_stream(buffer: &[u8]) -> (r: (u64, Vec<ChangeRecord>))
    requires
        buffer@.len() >= 8,
    ensures
        r.0 == le64(buffer@, 0),
        r.1@.map_values(|c: ChangeRecord| c@) == spec_parse_records(buffer@, 8),
{
    let ghost b = buffer@;
    let buffer_len = buffer.len();
    let next_cursor = read_le_u64(buffer, 0);
    let mut records: Vec<ChangeRecord> = Vec::new();
    let mut o: usize = 8;
    loop
        invariant
            8 <= o <= b.len(),
            b == buffer@,
            buffer_len == b.len(),
            spec_parse_records(b, 8) == records@.map_values(|c: ChangeRecord| c@)
                + spec_parse_records(b, o as int),
        ensures
            spec_parse_records(b, 8) == records@.map_values(|c: ChangeRecord| c@),
        decreases b.len() - o,
    {
        if buffer.len() - o < 60 {
            assert(!spec_record_fits(b, o as int));
            proof {
                assert(records@.map_values(|c: ChangeRecord| c@) + spec_parse_records(b, o as int)
                    =~= records@.map_values(|c: ChangeRecord| c@));
            }
            break ;
        }
        let record_length = read_le_u32(buffer, o) as usize;
        if record_length < 60 || record_length > buffer.len() - o {
            assert(!spec_record_fits(b, o as int));
            proof {
                assert(records@.map_values(|c: ChangeRecord| c@) + spec_parse_records(b, o as int)
                    =~= records@.map_values(|c: ChangeRecord| c@));
            }
            break ;
        }
        let name_offset = read_le_u16(buffer, o + 58) as usize;
        let name_length = read_le_u16(buffer, o + 56) as usize;
        if name_offset < 60 || name_offset + name_length > record_length {
            assert(!spec_record_fits(b, o as int));
            proof {
                assert(records@.map_values(|c: ChangeRecord| c@) + spec_parse_records(b, o as int)
                    =~= records@.map_values(|c: ChangeRecord| c@));
            }
            break ;
        }
        assert(spec_record_fits(b, o as int));
        let unit_count = name_length / 2;
        assert(2 * unit_count <= name_length);
        let mut units: Vec<u16> = Vec::new();
        let mut j: usize = 0;
        while j < unit_count
            invariant
                j <= unit_count,
                unit_count == name_length / 2,
                b == buffer@,
                buffer_len == b.len(),
                o + name_offset + name_length <= buffer_len,
                name_length < 0x1_0000,
                name_offset < 0x1_0000,
                o + 60 <= b.len(),
                units@ == spec_name_units(b, o + name_offset, j as int),
            decreases unit_count - j,
        {
            units.push(read_le_u16(buffer, o + name_offset + 2 * j));
            proof {
                assert(units@ =~= spec_name_units(b, o + name_offset, j + 1));
            }
            j += 1;
        }
        let file_name = utf16_string(&units);
        let record = ChangeRecord {
            usn: read_le_u64(buffer, o + 24),
            file_reference: EntryReference::from_frn(read_le_u64(buffer, o + 8)),
            parent_reference: EntryReference::from_frn(read_le_u64(buffer, o + 16)),
            reason: read_le_u32(buffer, o + 40),
            file_attributes: read_le_u32(buffer, o + 52),
            timestamp: read_le_i64(buffer, o + 32),
            file_name,
        };
        proof {
            assert(record@ == spec_record_at(b, o as int));
        }
        let ghost before_push = records@;
        records.push(record);
        proof {
            assert(records@.map_values(|c: ChangeRecord| c@) =~= before_push.map_values(
                |c: ChangeRecord| c@,
            ) + seq![spec_record_at(b, o as int)]);
        }
        o += record_length;
    }
    (next_cursor, records)
}

} // verus!
