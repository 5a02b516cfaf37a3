use rswinthings::handler::{OutputFormat, WindowsHandler};
use rswinthings::json::JsonNode;
use rswinthings::records::ChangeRecord;
use rswinthings::reference::EntryReference;
use rswinthings::snapshot::{custom_entry_value, get_attr_name, AttributeKind, EntryListener};

fn s(v: &str) -> JsonNode {
    JsonNode::Str(v.to_string())
}

fn u(v: u64) -> JsonNode {
    JsonNode::UInt(v)
}

fn obj(entries: Vec<(&str, JsonNode)>) -> JsonNode {
    JsonNode::Obj(entries.into_iter().map(|(k, v)| (k.to_string(), v)).collect())
}

#[test]
fn attribute_names_match_the_snapshot_keys() {
    assert_eq!(get_attr_name(&AttributeKind::StandardInformation), "StandardInformation");
    assert_eq!(get_attr_name(&AttributeKind::AttributeList), "AttributeList");
    assert_eq!(get_attr_name(&AttributeKind::FileName), "FileName");
    assert_eq!(get_attr_name(&AttributeKind::ObjectId), "ObjectId");
    assert_eq!(get_attr_name(&AttributeKind::SecurityDescriptor), "SecurityDescriptor");
    assert_eq!(get_attr_name(&AttributeKind::VolumeName), "VolumeName");
    assert_eq!(get_attr_name(&AttributeKind::VolumeInformation), "VolumeInformation");
    assert_eq!(get_attr_name(&AttributeKind::Data), "DATA");
    assert_eq!(get_attr_name(&AttributeKind::IndexRoot), "IndexRoot");
    assert_eq!(get_attr_name(&AttributeKind::IndexAllocation), "IndexAllocation");
    assert_eq!(get_attr_name(&AttributeKind::Bitmap), "BITMAP");
    assert_eq!(get_attr_name(&AttributeKind::ReparsePoint), "ReparsePoint");
}

#[test]
fn snapshot_nests_attributes_by_name_and_instance() {
    let header = obj(vec![("record_number", u(6090))]);
    let attributes = vec![
        ("StandardInformation".to_string(), 0u16, obj(vec![("usn", u(57216))])),
        ("FileName".to_string(), 2u16, obj(vec![("name", s("channels.txt"))])),
    ];
    let snapshot = custom_entry_value(header, attributes);
    match &snapshot {
        JsonNode::Obj(top) => {
            assert_eq!(top.len(), 2);
            assert_eq!(top[0].0, "header");
            assert_eq!(top[0].1, obj(vec![("record_number", u(6090))]));
            assert_eq!(top[1].0, "attributes");
            match &top[1].1 {
                JsonNode::Obj(attrs) => {
                    assert_eq!(attrs.len(), 2);
                    let std_info = attrs.iter().find(|(k, _)| k == "StandardInformation");
                    assert_eq!(
                        std_info.unwrap().1,
                        obj(vec![("0", obj(vec![("usn", u(57216))]))])
                    );
                    let file_name = attrs.iter().find(|(k, _)| k == "FileName");
                    assert_eq!(
                        file_name.unwrap().1,
                        obj(vec![("2", obj(vec![("name", s("channels.txt"))]))])
                    );
                },
                other => panic!("attributes must be an object: {:?}", other),
            }
        },
        other => panic!("a snapshot is an object: {:?}", other),
    }
}

#[test]
fn later_attribute_of_the_same_type_wins() {
    let header = obj(vec![]);
    let attributes = vec![
        ("DATA".to_string(), 3u16, s("first")),
        ("DATA".to_string(), 4u16, s("second")),
    ];
    let snapshot = custom_entry_value(header, attributes);
    match snapshot {
        JsonNode::Obj(top) => match &top[1].1 {
            JsonNode::Obj(attrs) => {
                assert_eq!(attrs.len(), 1);
                assert_eq!(attrs[0].0, "DATA");
                assert_eq!(attrs[0].1, obj(vec![("4", s("second"))]));
            },
            other => panic!("attributes must be an object: {:?}", other),
        },
        other => panic!("a snapshot is an object: {:?}", other),
    }
}

fn change_record(entry: u64) -> ChangeRecord {
    ChangeRecord {
        usn: 1,
        file_reference: EntryReference { entry, sequence: 1 },
        parent_reference: EntryReference { entry: 5, sequence: 5 },
        reason: 0x100,
        file_attributes: 0x20,
        timestamp: 0,
        file_name: "watched.txt".to_string(),
    }
}

#[test]
fn watch_ignores_records_for_other_entries() {
    let listener = EntryListener::new("C:\\watched.txt".to_string(), 42);
    assert!(listener.wants_record(&change_record(42)));
    assert!(!listener.wants_record(&change_record(43)));
}

#[test]
fn first_snapshot_primes_without_emission() {
    let mut listener = EntryListener::new("C:\\watched.txt".to_string(), 42);
    let emitted = listener.observe_snapshot(obj(vec![("size", u(10))]));
    assert!(emitted.is_none());
}

#[test]
fn changed_snapshot_emits_the_difference() {
    let mut listener = EntryListener::new("C:\\watched.txt".to_string(), 42);
    listener.observe_snapshot(obj(vec![("size", u(10))]));
    let emitted = listener.observe_snapshot(obj(vec![("size", u(11))])).unwrap();
    assert_eq!(emitted, obj(vec![("size", obj(vec![("before", u(10)), ("after", u(11))]))]));
}

#[test]
fn unchanged_snapshot_is_suppressed() {
    let mut listener = EntryListener::new("C:\\watched.txt".to_string(), 42);
    listener.observe_snapshot(obj(vec![("size", u(10))]));
    let emitted = listener.observe_snapshot(obj(vec![("size", u(10))]));
    assert!(emitted.is_none());
}

#[test]
fn handler_and_format_exist_for_consumers() {
    let handler = WindowsHandler::new();
    let copy: WindowsHandler = handler;
    assert_eq!(format!("{:?}", copy), "WindowsHandler");
    assert!(matches!(OutputFormat::JsonFormat, OutputFormat::JsonFormat));
    assert!(matches!(OutputFormat::XmlFormat, OutputFormat::XmlFormat));
}
