//! The USN volume listener's decision core.
//!
//! The listener is a polling loop: build a read request from the journal
//! metadata and the current cursor, read a batch, parse it, update the folder
//! mapping, and forward the records.  The loop's outside work — the device
//! read, the idle sleep, the consumer channel — stays with the caller; what
//! stands here is every decision the loop takes: where the cursor starts and
//! how it advances, when to idle, and how each record changes the folder
//! mapping and is enriched with a resolved path.

use vstd::prelude::*;
use vstd::string::StringExecFns;

use crate::bytes::le64;
use crate::journal::{spec_request_from_journal, spec_with_reason_mask, spec_with_start_usn,
    ReadUsnJournalData, UsnJournalData};
use crate::mapping::{spec_enumerate_post, spec_resolved_path, EntryMapping, FolderMapping};
use crate::records::{spec_parse_records, parse_record_stream, ChangeRecord, ChangeRecordView};
use crate::reference::spec_frn;

verus! {

/// Reason flag: a file or directory was created.
pub const USN_REASON_FILE_CREATE: u32 = 0x100;

/// Reason flag: a file or directory was deleted.
pub const USN_REASON_FILE_DELETE: u32 = 0x200;

/// Reason flag: a rename or move retired this name.
pub const USN_REASON_RENAME_OLD_NAME: u32 = 0x1000;

/// Reason flag: a rename or move produced this name.
pub const USN_REASON_RENAME_NEW_NAME: u32 = 0x2000;

/// File-attribute flag: the record's subject is a directory.
pub const FILE_ATTRIBUTE_DIRECTORY: u32 = 0x10;

/// What the loop does after forwarding a batch: read again at once, or idle
/// briefly first because the journal was caught up.
#[derive(Debug, Clone, Copy, PartialEq, Eq, Structural)]
pub enum PollAction {
    Continue,
    Idle,
}

/// The cursor state of one listening session.
#[derive(Debug, Clone, Copy)]
pub struct UsnListenerState {
    /// Replay the retained journal from its beginning before going live.
    pub historical: bool,
    /// The reason mask handed to every read request.
    pub reason_mask: u32,
    /// The journal's next USN captured once at start: the boundary between
    /// replayed history and live records.
    pub catch_up_usn: u64,
    /// Where the next read request starts.
    pub next_start_usn: u64,
}

impl UsnListenerState {
    /// Starts a session: a live listener begins at the journal's current next
    /// USN, a historical one at zero; either way the current next USN is
    /// captured as the catch-up boundary.  An absent reason mask means every
    /// reason.
    pub fn start(journal_data: &UsnJournalData, historical: bool, reason_mask: Option<u32>)
        -> (s: Self)
        ensures
            s.historical == historical,
            s.reason_mask == (match reason_mask {
                Some(m) => m,
                None => 0xffffffffu32,
            }),
            s.catch_up_usn == journal_data.spec_next_usn(),
            s.next_start_usn == if historical {
                0u64
            } else {
                journal_data.spec_next_usn()
            },
    {
        let next_usn = journal_data.get_next_usn();
        UsnListenerState {
            historical,
            reason_mask: match reason_mask {
                Some(m) => m,
                None => 0xffffffff,
            },
            catch_up_usn: next_usn,
            next_start_usn: if historical {
                0
            } else {
                next_usn
            },
        }
    }

    /// The read request for the next poll: built from the journal metadata,
    /// then overridden with the session's cursor and reason mask.
    pub fn build_read_request(&self, journal_data: &UsnJournalData) -> (r: ReadUsnJournalData)
        ensures
            r == spec_with_reason_mask(
                spec_with_start_usn(spec_request_from_journal(*journal_data), self.next_start_usn),
                self.reason_mask,
            ),
    {
        ReadUsnJournalData::from_usn_journal_data(*journal_data).with_start_usn(
            self.next_start_usn,
        ).with_reason_mask(self.reason_mask)
    }

    /// Consumes one successful read: the leading 8 bytes become the new
    /// cursor, the rest parses into records, and an empty batch asks the
    /// caller to idle before the next read.
    pub fn handle_read_buffer(&mut self, buffer: &[u8]) -> (r: (Vec<ChangeRecord>, PollAction))
        requires
            buffer@.len() >= 8,
        ensures
            final(self).next_start_usn == le64(buffer@, 0),
            final(self).historical == old(self).historical,
            final(self).reason_mask == old(self).reason_mask,
            final(self).catch_up_usn == old(self).catch_up_usn,
            r.0@.map_values(|c: ChangeRecord| c@) == spec_parse_records(buffer@, 8),
            r.1 == if spec_parse_records(buffer@, 8).len() == 0 {
                PollAction::Idle
            } else {
                PollAction::Continue
            },
    {
        let (next_cursor, records) = parse_record_stream(buffer);
        self.next_start_usn = next_cursor;
        proof {
            assert(records@.map_values(|c: ChangeRecord| c@).len() == records@.len());
        }
        let action = if records.len() == 0 {
            PollAction::Idle
        } else {
            PollAction::Continue
        };
        (records, action)
    }
}

/// How one change record affects the folder mapping table.
#[derive(Debug, Clone, Copy, PartialEq, Eq, Structural)]
pub enum MappingUpdate {
    RemoveEntry,
    AddEntry,
    NoChange,
}

/// Whether the record's subject is a directory.
pub open spec fn spec_is_directory(r: ChangeRecordView) -> bool {
    r.file_attributes & FILE_ATTRIBUTE_DIRECTORY != 0
}

/// The folder-mapping update a record calls for.  Only directory records
/// touch the table.  A retired name is removed; a deletion is removed too,
/// except during historical replay before the catch-up boundary, where the
/// mapping is added instead — the live API cannot re-query unallocated
/// entries, so replayed history is the only source for it; a new name or a
/// creation is added; anything else leaves the table alone.
pub open spec fn spec_mapping_update(r: ChangeRecordView, historical: bool, catch_up_usn: u64)
    -> MappingUpdate {
    if !spec_is_directory(r) {
        MappingUpdate::NoChange
    } else if r.reason & USN_REASON_RENAME_OLD_NAME != 0 {
        MappingUpdate::RemoveEntry
    } else if r.reason & USN_REASON_FILE_DELETE != 0 {
        if historical && r.usn < catch_up_usn {
            MappingUpdate::AddEntry
        } else {
            MappingUpdate::RemoveEntry
        }
    } else if r.reason & (USN_REASON_RENAME_NEW_NAME | USN_REASON_FILE_CREATE) != 0 {
        MappingUpdate::AddEntry
    } else {
        MappingUpdate::NoChange
    }
}

/// The mapping table after one record is applied.
pub open spec fn spec_applied_table(
    t: Map<u64, EntryMapping>,
    record: ChangeRecord,
    historical: bool,
    catch_up_usn: u64,
) -> Map<u64, EntryMapping> {
    match spec_mapping_update(record@, historical, catch_up_usn) {
        MappingUpdate::RemoveEntry => t.remove(spec_frn(record.file_reference)),
        MappingUpdate::AddEntry => t.insert(
            spec_frn(record.file_reference),
            (EntryMapping { name: record.file_name, parent: record.parent_reference }),
        ),
        MappingUpdate::NoChange => t,
    }
}

/// The path cache after one record is applied: any add or remove for a
/// reference evicts that reference's cached path.
pub open spec fn spec_applied_cache(
    c: Map<u64, Seq<char>>,
    record: ChangeRecord,
    historical: bool,
    catch_up_usn: u64,
) -> Map<u64, Seq<char>> {
    match spec_mapping_update(record@, historical, catch_up_usn) {
        MappingUpdate::RemoveEntry => c.remove(spec_frn(record.file_reference)),
        MappingUpdate::AddEntry => c.remove(spec_frn(record.file_reference)),
        MappingUpdate::NoChange => c,
    }
}

/// Applies one change record to the folder mapping, following
/// `spec_mapping_update`.
pub fn apply_change_record(
    fm: &mut FolderMapping,
    record: &ChangeRecord,
    historical: bool,
    catch_up_usn: u64,
)
    ensures
        final(fm).table() == spec_applied_table(old(fm).table(), *record, historical,
            catch_up_usn),
        final(fm).cached() == spec_applied_cache(old(fm).cached(), *record, historical,
            catch_up_usn),
        final(fm).lookup_count() == old(fm).lookup_count(),
{
    if record.file_attributes & FILE_ATTRIBUTE_DIRECTORY == 0 {
        return ;
    }
    if record.reason & USN_REASON_RENAME_OLD_NAME != 0 {
        fm.remove_mapping(record.file_reference);
    } else if record.reason & USN_REASON_FILE_DELETE != 0 {
        if historical && record.usn < catch_up_usn {
            fm.add_mapping(record.file_reference, record.file_name.clone(),
                record.parent_reference);
        } else {
            fm.remove_mapping(record.file_reference);
        }
    } else if record.reason & (USN_REASON_RENAME_NEW_NAME | USN_REASON_FILE_CREATE) != 0 {
        fm.add_mapping(record.file_reference, record.file_name.clone(), record.parent_reference);
    }
}

/// Applies one record to the folder mapping and then resolves the record's
/// full path: the parent directory's path, a slash, and the record's file
/// name.
pub fn process_change_record(
    fm: &mut FolderMapping,
    record: &ChangeRecord,
    historical: bool,
    catch_up_usn: u64,
) -> (full_path: Option<String>)
    ensures
        ({
            let t1 = spec_applied_table(old(fm).table(), *record, historical, catch_up_usn);
            let c1 = spec_applied_cache(old(fm).cached(), *record, historical, catch_up_usn);
            let parent_frn = spec_frn(record.parent_reference);
            &&& final(fm).table() == t1
            &&& full_path matches Some(p) && p@ == spec_resolved_path(t1, c1, parent_frn)
                + seq!['/'] + record.file_name@
            &&& spec_enumerate_post(
                t1,
                c1,
                final(fm).cached(),
                old(fm).lookup_count(),
                final(fm).lookup_count(),
                parent_frn,
                spec_resolved_path(t1, c1, parent_frn),
            )
        }),
{
    apply_change_record(fm, record, historical, catch_up_usn);
    let resolved = fm.enumerate_path(record.parent_reference.entry, record.parent_reference.sequence);
    match resolved {
        Some(mut p) => {
            p.append("/");
            p.append(record.file_name.as_str());
            proof {
                assert("/"@ =~= seq!['/']) by {
                    reveal_strlit("/");
                }
            }
            Some(p)
        },
        None => {
            proof {
                assert(false);
            }
            None
        },
    }
}

/// The name of one reason flag when set: a singleton for a set bit, nothing
/// for a clear one.
pub open spec fn spec_flag_name(reason: u32, bit: u32, name: Seq<char>) -> Seq<Seq<char>> {
    if reason & bit != 0 {
        seq![name]
    } else {
        Seq::empty()
    }
}

/// The names of the reason flags set on a record, in the fixed order of the
/// flag table.
pub open spec fn spec_reason_names(reason: u32) -> Seq<Seq<char>> {
    spec_flag_name(reason, 0x1, "USN_REASON_DATA_OVERWRITE"@) + spec_flag_name(
        reason,
        0x2,
        "USN_REASON_DATA_EXTEND"@,
    ) + spec_flag_name(reason, 0x4, "USN_REASON_DATA_TRUNCATION"@) + spec_flag_name(
        reason,
        0x10,
        "USN_REASON_NAMED_DATA_OVERWRITE"@,
    ) + spec_flag_name(reason, 0x20, "USN_REASON_NAMED_DATA_EXTEND"@) + spec_flag_name(
        reason,
        0x40,
        "USN_REASON_NAMED_DATA_TRUNCATION"@,
    ) + spec_flag_name(reason, 0x100, "USN_REASON_FILE_CREATE"@) + spec_flag_name(
        reason,
        0x200,
        "USN_REASON_FILE_DELETE"@,
    ) + spec_flag_name(reason, 0x400, "USN_REASON_EA_CHANGE"@) + spec_flag_name(
        reason,
        0x800,
        "USN_REASON_SECURITY_CHANGE"@,
    ) + spec_flag_name(reason, 0x1000, "USN_REASON_RENAME_OLD_NAME"@) + spec_flag_name(
        reason,
        0x2000,
        "USN_REASON_RENAME_NEW_NAME"@,
    ) + spec_flag_name(reason, 0x4000, "USN_REASON_INDEXABLE_CHANGE"@) + spec_flag_name(
        reason,
        0x8000,
        "USN_REASON_BASIC_INFO_CHANGE"@,
    ) + spec_flag_name(reason, 0x10000, "USN_REASON_HARD_LINK_CHANGE"@) + spec_flag_name(
        reason,
        0x20000,
        "USN_REASON_COMPRESSION_CHANGE"@,
    ) + spec_flag_name(reason, 0x40000, "USN_REASON_ENCRYPTION_CHANGE"@) + spec_flag_name(
        reason,
        0x80000,
        "USN_REASON_OBJECT_ID_CHANGE"@,
    ) + spec_flag_name(reason, 0x100000, "USN_REASON_REPARSE_POINT_CHANGE"@) + spec_flag_name(
        reason,
        0x200000,
        "USN_REASON_STREAM_CHANGE"@,
    ) + spec_flag_name(reason, 0x400000, "USN_REASON_TRANSACTED_CHANGE"@) + spec_flag_name(
        reason,
        0x800000,
        "USN_REASON_INTEGRITY_CHANGE"@,
    ) + spec_flag_name(reason, 0x80000000, "USN_REASON_CLOSE"@)
}

fn push_flag_name(out: &mut Vec<String>, reason: u32, bit: u32, name: &str)
    ensures
        final(out)@.map_values(|s: String| s@) == old(out)@.map_values(|s: String| s@)
            + spec_flag_name(reason, bit, name@),
{
    let ghost before = out@;
    if reason & bit != 0 {
        out.push(name.to_owned());
    }
    proof {
        assert(out@.map_values(|s: String| s@) =~= before.map_values(|s: String| s@)
            + spec_flag_name(reason, bit, name@));
    }
}

/// The names of the reason flags set on a record, for the emitted `reason`
/// field.
pub fn reason_flag_names(reason: u32) -> (r: Vec<String>)
    ensures
        r@.map_values(|s: String| s@) == spec_reason_names(reason),
{
    let mut names: Vec<String> = Vec::new();
    push_flag_name(&mut names, reason, 0x1, "USN_REASON_DATA_OVERWRITE");
    push_flag_name(&mut names, reason, 0x2, "USN_REASON_DATA_EXTEND");
    push_flag_name(&mut names, reason, 0x4, "USN_REASON_DATA_TRUNCATION");
    push_flag_name(&mut names, reason, 0x10, "USN_REASON_NAMED_DATA_OVERWRITE");
    push_flag_name(&mut names, reason, 0x20, "USN_REASON_NAMED_DATA_EXTEND");
    push_flag_name(&mut names, reason, 0x40, "USN_REASON_NAMED_DATA_TRUNCATION");
    push_flag_name(&mut names, reason, 0x100, "USN_REASON_FILE_CREATE");
    push_flag_name(&mut names, reason, 0x200, "USN_REASON_FILE_DELETE");
    push_flag_name(&mut names, reason, 0x400, "USN_REASON_EA_CHANGE");
    push_flag_name(&mut names, reason, 0x800, "USN_REASON_SECURITY_CHANGE");
    push_flag_name(&mut names, reason, 0x1000, "USN_REASON_RENAME_OLD_NAME");
    push_flag_name(&mut names, reason, 0x2000, "USN_REASON_RENAME_NEW_NAME");
    push_flag_name(&mut names, reason, 0x4000, "USN_REASON_INDEXABLE_CHANGE");
    push_flag_name(&mut names, reason, 0x8000, "USN_REASON_BASIC_INFO_CHANGE");
    push_flag_name(&mut names, reason, 0x10000, "USN_REASON_HARD_LINK_CHANGE");
    push_flag_name(&mut names, reason, 0x20000, "USN_REASON_COMPRESSION_CHANGE");
    push_flag_name(&mut names, reason, 0x40000, "USN_REASON_ENCRYPTION_CHANGE");
    push_flag_name(&mut names, reason, 0x80000, "USN_REASON_OBJECT_ID_CHANGE");
    push_flag_name(&mut names, reason, 0x100000, "USN_REASON_REPARSE_POINT_CHANGE");
    push_flag_name(&mut names, reason, 0x200000, "USN_REASON_STREAM_CHANGE");
    push_flag_name(&mut names, reason, 0x400000, "USN_REASON_TRANSACTED_CHANGE");
    push_flag_name(&mut names, reason, 0x800000, "USN_REASON_INTEGRITY_CHANGE");
    push_flag_name(&mut names, reason, 0x80000000, "USN_REASON_CLOSE");
    names
}

/// The historical delete rule: a directory deletion replayed from before the
/// catch-up boundary adds the mapping, the same deletion at or past the
/// boundary removes it, and a live listener always removes it.
pub proof fn lemma_historical_delete_rule(r: ChangeRecordView, catch_up_usn: u64)
    requires
        spec_is_directory(r),
        r.reason & USN_REASON_RENAME_OLD_NAME == 0,
        r.reason & USN_REASON_FILE_DELETE != 0,
    ensures
        r.usn < catch_up_usn ==> spec_mapping_update(r, true, catch_up_usn)
            == MappingUpdate::AddEntry,
        r.usn >= catch_up_usn ==> spec_mapping_update(r, true, catch_up_usn)
            == MappingUpdate::RemoveEntry,
        spec_mapping_update(r, false, catch_up_usn) == MappingUpdate::RemoveEntry,
{
}

} // verus!
