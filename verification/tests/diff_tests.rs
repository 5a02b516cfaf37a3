use rswinthings::json::{get_difference_value, JsonNode};

fn s(v: &str) -> JsonNode {
    JsonNode::Str(v.to_string())
}

fn u(v: u64) -> JsonNode {
    JsonNode::UInt(v)
}

fn obj(entries: Vec<(&str, JsonNode)>) -> JsonNode {
    JsonNode::Obj(entries.into_iter().map(|(k, v)| (k.to_string(), v)).collect())
}

fn arr(items: Vec<JsonNode>) -> JsonNode {
    JsonNode::Arr(items)
}

fn diff_entries(diff: JsonNode) -> Vec<(String, JsonNode)> {
    match diff {
        JsonNode::Obj(entries) => entries,
        other => panic!("a diff is always an object: {:?}", other),
    }
}

/// The snapshot shape of the diff-engine scenario: one entry whose
/// standard-information attribute carries an access timestamp.
fn snapshot(accessed: &str) -> JsonNode {
    obj(vec![
        (
            "attributes",
            obj(vec![(
                "StandardInformation",
                obj(vec![(
                    "0",
                    obj(vec![(
                        "data",
                        obj(vec![
                            ("accessed", s(accessed)),
                            ("created", s("2019-12-24T05:20:45.777951Z")),
                            ("owner_id", u(0)),
                        ]),
                    )]),
                )]),
            )]),
        ),
        ("header", obj(vec![("record_number", u(6090)), ("sequence", u(71))])),
    ])
}

#[test]
fn single_modified_leaf_yields_exactly_one_entry() {
    let before = snapshot("2020-01-05T19:12:13.854919Z");
    let after = snapshot("2020-01-05T19:14:34.350555Z");
    let entries = diff_entries(get_difference_value(&before, &after));
    assert_eq!(entries.len(), 1);
    assert_eq!(entries[0].0, "attributes.StandardInformation.0.data.accessed");
    assert_eq!(
        entries[0].1,
        obj(vec![
            ("before", s("2020-01-05T19:12:13.854919Z")),
            ("after", s("2020-01-05T19:14:34.350555Z")),
        ])
    );
}

#[test]
fn equal_values_yield_an_empty_diff() {
    let a = snapshot("2020-01-05T19:12:13.854919Z");
    let b = snapshot("2020-01-05T19:12:13.854919Z");
    let entries = diff_entries(get_difference_value(&a, &b));
    assert_eq!(entries.len(), 0);
}

#[test]
fn added_field_is_reported_as_created() {
    let a = obj(vec![("kept", u(1))]);
    let b = obj(vec![("kept", u(1)), ("fresh", s("x"))]);
    let entries = diff_entries(get_difference_value(&a, &b));
    assert_eq!(entries.len(), 1);
    assert_eq!(entries[0].0, "fresh");
    assert_eq!(entries[0].1, obj(vec![("created", s("x"))]));
}

#[test]
fn dropped_field_is_reported_as_removed() {
    let a = obj(vec![("kept", u(1)), ("stale", s("x"))]);
    let b = obj(vec![("kept", u(1))]);
    let entries = diff_entries(get_difference_value(&a, &b));
    assert_eq!(entries.len(), 1);
    assert_eq!(entries[0].0, "stale");
    assert_eq!(entries[0].1, s("removed"));
}

#[test]
fn array_children_are_keyed_by_index() {
    let a = obj(vec![("list", arr(vec![u(1), u(2)]))]);
    let b = obj(vec![("list", arr(vec![u(1), u(3), u(4)]))]);
    let entries = diff_entries(get_difference_value(&a, &b));
    assert_eq!(entries.len(), 2);
    assert_eq!(entries[0].0, "list.1");
    assert_eq!(entries[0].1, obj(vec![("before", u(2)), ("after", u(3))]));
    assert_eq!(entries[1].0, "list.2");
    assert_eq!(entries[1].1, obj(vec![("created", u(4))]));
}

#[test]
fn scalar_against_container_is_a_modification() {
    let a = obj(vec![("field", u(7))]);
    let b = obj(vec![("field", obj(vec![("inner", u(7))]))]);
    let entries = diff_entries(get_difference_value(&a, &b));
    assert_eq!(entries.len(), 1);
    assert_eq!(entries[0].0, "field");
    assert_eq!(
        entries[0].1,
        obj(vec![("before", u(7)), ("after", obj(vec![("inner", u(7))]))])
    );
}

#[test]
fn root_scalars_diff_under_the_empty_path() {
    let entries = diff_entries(get_difference_value(&u(1), &u(2)));
    assert_eq!(entries.len(), 1);
    assert_eq!(entries[0].0, "");
    assert_eq!(entries[0].1, obj(vec![("before", u(1)), ("after", u(2))]));
}
