use rswinthings::json::{get_difference_value, JsonNode};

fn s(v: &str) -> JsonNode {
    JsonNode::Str(v.to_string())
}

fn u(v: u64) -> JsonNode {
    JsonNode::UInt(v)
}

fn null() -> JsonNode {
    JsonNode::Null
}

fn obj(entries: Vec<(&str, JsonNode)>) -> JsonNode {
    JsonNode::Obj(entries.into_iter().map(|(k, v)| (k.to_string(), v)).collect())
}

fn arr(items: Vec<JsonNode>) -> JsonNode {
    JsonNode::Arr(items)
}

fn standard_information(accessed: &str, file_flags: &str, mft_modified: &str, usn: u64)
    -> JsonNode {
    obj(vec![
        (
            "data",
            obj(vec![
                ("accessed", s(accessed)),
                ("class_id", u(0)),
                ("created", s("2019-12-24T05:20:45.777951Z")),
                ("file_flags", s(file_flags)),
                ("max_version", u(0)),
                ("mft_modified", s(mft_modified)),
                ("modified", s("2020-01-05T19:10:58.349669Z")),
                ("owner_id", u(0)),
                ("quota", u(0)),
                ("security_id", u(4076)),
                ("usn", u(usn)),
                ("version", u(0)),
            ]),
        ),
        (
            "header",
            obj(vec![
                ("data_flags", s("(empty)")),
                ("form_code", u(0)),
                ("instance", u(0)),
                ("name", s("")),
                ("name_offset", null()),
                ("name_size", u(0)),
                ("record_length", u(96)),
                ("residential_header", obj(vec![("index_flag", u(0))])),
                ("type_code", s("StandardInformation")),
            ]),
        ),
    ])
}

fn file_name_attribute() -> JsonNode {
    obj(vec![
        (
            "data",
            obj(vec![
                ("accessed", s("2019-12-24T05:20:45.777951Z")),
                ("created", s("2019-12-24T05:20:45.777951Z")),
                ("flags", s("FILE_ATTRIBUTE_ARCHIVE | FILE_ATTRIBUTE_COMPRESSED")),
                ("logical_size", u(0)),
                ("mft_modified", s("2019-12-24T05:20:45.777951Z")),
                ("modified", s("2019-12-24T05:20:45.777951Z")),
                ("name", s("channels.txt")),
                ("name_length", u(12)),
                ("namespace", s("Win32AndDos")),
                ("parent", obj(vec![("entry", u(131252)), ("sequence", u(203))])),
                ("physical_size", u(0)),
                ("reparse_value", u(0)),
            ]),
        ),
        (
            "header",
            obj(vec![
                ("data_flags", s("(empty)")),
                ("form_code", u(0)),
                ("instance", u(2)),
                ("name", s("")),
                ("name_offset", null()),
                ("name_size", u(0)),
                ("record_length", u(120)),
                ("residential_header", obj(vec![("index_flag", u(1))])),
                ("type_code", s("FileName")),
            ]),
        ),
    ])
}

fn data_attribute() -> JsonNode {
    obj(vec![
        ("data", null()),
        (
            "header",
            obj(vec![
                ("data_flags", s("IS_COMPRESSED")),
                ("form_code", u(1)),
                ("instance", u(3)),
                ("name", s("")),
                ("name_offset", null()),
                ("name_size", u(0)),
                ("record_length", u(200)),
                (
                    "residential_header",
                    obj(vec![
                        ("allocated_length", u(1572864)),
                        ("file_size", u(1525662)),
                        ("total_allocated", u(475136)),
                        ("unit_compression_size", u(4)),
                        ("valid_data_length", u(1525662)),
                        ("vnc_first", u(0)),
                        ("vnc_last", u(383)),
                    ]),
                ),
                ("type_code", s("DATA")),
            ]),
        ),
    ])
}

fn header(metadata_transaction_journal: u64) -> JsonNode {
    obj(vec![
        ("base_reference", obj(vec![("entry", u(0)), ("sequence", u(0))])),
        ("first_attribute_id", u(4)),
        ("first_attribute_record_offset", u(56)),
        ("flags", s("ALLOCATED")),
        ("hard_link_count", u(1)),
        ("metadata_transaction_journal", u(metadata_transaction_journal)),
        ("record_number", u(6090)),
        ("sequence", u(71)),
        ("signature", arr(vec![u(70), u(73), u(76), u(69)])),
        ("total_entry_size", u(1024)),
        ("usa_offset", u(48)),
        ("usa_size", u(3)),
        ("used_entry_size", u(480)),
    ])
}

#[test]
fn json_test() {
    let json_value1 = obj(vec![
        (
            "attributes",
            arr(vec![
                standard_information(
                    "2020-01-05T19:12:13.854919Z",
                    "FILE_ATTRIBUTE_ARCHIVE | FILE_ATTRIBUTE_COMPRESSED",
                    "2020-01-05T19:14:33.933359Z",
                    57216,
                ),
                file_name_attribute(),
                data_attribute(),
            ]),
        ),
        ("header", header(35690)),
    ]);

    let json_value2 = obj(vec![
        (
            "attributes",
            arr(vec![
                standard_information(
                    "2020-01-05T19:14:34.350555Z",
                    "FILE_ATTRIBUTE_READONLY | FILE_ATTRIBUTE_HIDDEN | FILE_ATTRIBUTE_ARCHIVE | FILE_ATTRIBUTE_COMPRESSED",
                    "2020-01-05T19:38:34.618693Z",
                    84272,
                ),
                file_name_attribute(),
                data_attribute(),
            ]),
        ),
        ("header", header(111907)),
    ]);

    let new_value = get_difference_value(&json_value1, &json_value2);

    println!("{:?}", new_value);

    let entries = match new_value {
        JsonNode::Obj(entries) => entries,
        other => panic!("a diff is always an object: {:?}", other),
    };
    let paths: Vec<&str> = entries.iter().map(|(p, _)| p.as_str()).collect();
    assert_eq!(
        paths,
        vec![
            "attributes.0.data.accessed",
            "attributes.0.data.file_flags",
            "attributes.0.data.mft_modified",
            "attributes.0.data.usn",
            "header.metadata_transaction_journal",
        ]
    );
}
