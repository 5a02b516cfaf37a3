use rswinthings::journal::{ReadUsnJournalData, UsnJournalData, UsnJournalDataV0};
use rswinthings::listener::{apply_change_record, process_change_record, reason_flag_names,
    PollAction, UsnListenerState, FILE_ATTRIBUTE_DIRECTORY, USN_REASON_FILE_CREATE,
    USN_REASON_FILE_DELETE, USN_REASON_RENAME_NEW_NAME, USN_REASON_RENAME_OLD_NAME};
use rswinthings::mapping::FolderMapping;
use rswinthings::records::ChangeRecord;
use rswinthings::reference::EntryReference;

fn journal() -> UsnJournalData {
    UsnJournalData::V0(UsnJournalDataV0 {
        usn_journal_id: 9,
        first_usn: 64,
        next_usn: 1000,
        lowest_valid_usn: 0,
        max_usn: 1 << 40,
        maximum_size: 1 << 25,
        allocation_delta: 1 << 22,
    })
}

fn directory_record(usn: u64, entry: u64, reason: u32, name: &str) -> ChangeRecord {
    ChangeRecord {
        usn,
        file_reference: EntryReference { entry, sequence: 1 },
        parent_reference: EntryReference { entry: 5, sequence: 5 },
        reason,
        file_attributes: FILE_ATTRIBUTE_DIRECTORY,
        timestamp: 0,
        file_name: name.to_string(),
    }
}

#[test]
fn live_listener_starts_at_next_usn() {
    let state = UsnListenerState::start(&journal(), false, None);
    assert_eq!(state.next_start_usn, 1000);
    assert_eq!(state.catch_up_usn, 1000);
    assert_eq!(state.reason_mask, 0xffffffff);
    assert!(!state.historical);
}

#[test]
fn historical_listener_starts_at_zero_and_captures_catch_up() {
    let state = UsnListenerState::start(&journal(), true, Some(0x0f));
    assert_eq!(state.next_start_usn, 0);
    assert_eq!(state.catch_up_usn, 1000);
    assert_eq!(state.reason_mask, 0x0f);
    assert!(state.historical);
}

#[test]
fn read_request_carries_cursor_and_mask() {
    let state = UsnListenerState::start(&journal(), true, Some(0x123));
    match state.build_read_request(&journal()) {
        ReadUsnJournalData::V0(d) => {
            assert_eq!(d.start_usn, 0);
            assert_eq!(d.reason_mask, 0x123);
            assert_eq!(d.usn_journal_id, 9);
        },
        other => panic!("V0 journal gives a V0 request: {:?}", other),
    }
}

#[test]
fn empty_read_asks_for_idle_and_advances_cursor() {
    let mut state = UsnListenerState::start(&journal(), false, None);
    let buffer: Vec<u8> = vec![0x10, 0x27, 0, 0, 0, 0, 0, 0];
    let (records, action) = state.handle_read_buffer(&buffer);
    assert_eq!(records.len(), 0);
    assert_eq!(action, PollAction::Idle);
    assert_eq!(state.next_start_usn, 10000);
}

#[test]
fn delete_replayed_before_catch_up_retains_the_mapping() {
    let mut fm = FolderMapping::new();
    let record = directory_record(500, 100, USN_REASON_FILE_DELETE, "gone");
    apply_change_record(&mut fm, &record, true, 1000);
    assert!(fm.contains_reference(&EntryReference { entry: 100, sequence: 1 }));
}

#[test]
fn delete_replayed_after_catch_up_removes_the_mapping() {
    let mut fm = FolderMapping::new();
    let create = directory_record(400, 100, USN_REASON_FILE_CREATE, "gone");
    apply_change_record(&mut fm, &create, true, 1000);
    assert!(fm.contains_reference(&EntryReference { entry: 100, sequence: 1 }));
    let record = directory_record(1500, 100, USN_REASON_FILE_DELETE, "gone");
    apply_change_record(&mut fm, &record, true, 1000);
    assert!(!fm.contains_reference(&EntryReference { entry: 100, sequence: 1 }));
}

#[test]
fn live_delete_always_removes_the_mapping() {
    let mut fm = FolderMapping::new();
    let create = directory_record(400, 100, USN_REASON_FILE_CREATE, "gone");
    apply_change_record(&mut fm, &create, false, 1000);
    let record = directory_record(500, 100, USN_REASON_FILE_DELETE, "gone");
    apply_change_record(&mut fm, &record, false, 1000);
    assert!(!fm.contains_reference(&EntryReference { entry: 100, sequence: 1 }));
}

#[test]
fn rename_old_name_retires_the_identity() {
    let mut fm = FolderMapping::new();
    let create = directory_record(400, 100, USN_REASON_FILE_CREATE, "old");
    apply_change_record(&mut fm, &create, false, 1000);
    let retire = directory_record(500, 100, USN_REASON_RENAME_OLD_NAME, "old");
    apply_change_record(&mut fm, &retire, false, 1000);
    assert!(!fm.contains_reference(&EntryReference { entry: 100, sequence: 1 }));
}

#[test]
fn rename_new_name_updates_the_mapping() {
    let mut fm = FolderMapping::new();
    let create = directory_record(400, 100, USN_REASON_FILE_CREATE, "old");
    apply_change_record(&mut fm, &create, false, 1000);
    let renew = directory_record(500, 100, USN_REASON_RENAME_NEW_NAME, "new");
    apply_change_record(&mut fm, &renew, false, 1000);
    let probe = fm.enumerate_path(100, 1).unwrap();
    assert_eq!(probe, "[root]/new");
}

#[test]
fn non_directory_records_leave_the_mapping_alone() {
    let mut fm = FolderMapping::new();
    let mut record = directory_record(400, 100, USN_REASON_FILE_CREATE, "plain");
    record.file_attributes = 0x20;
    apply_change_record(&mut fm, &record, false, 1000);
    assert!(!fm.contains_reference(&EntryReference { entry: 100, sequence: 1 }));
}

#[test]
fn processed_record_carries_the_resolved_full_path() {
    let mut fm = FolderMapping::new();
    let dir = directory_record(400, 100, USN_REASON_FILE_CREATE, "dir1");
    apply_change_record(&mut fm, &dir, false, 1000);
    let mut file = directory_record(500, 200, USN_REASON_FILE_CREATE, "notes.txt");
    file.file_attributes = 0x20;
    file.parent_reference = EntryReference { entry: 100, sequence: 1 };
    let full_path = process_change_record(&mut fm, &file, false, 1000).unwrap();
    assert_eq!(full_path, "[root]/dir1/notes.txt");
}

#[test]
fn reason_flags_decode_to_their_names() {
    let names = reason_flag_names(0x100 | 0x2000 | 0x80000000);
    assert_eq!(
        names,
        vec!["USN_REASON_FILE_CREATE", "USN_REASON_RENAME_NEW_NAME", "USN_REASON_CLOSE"]
    );
    assert_eq!(reason_flag_names(0).len(), 0);
}
