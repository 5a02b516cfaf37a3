//! The snapshot shape of one decoded MFT entry, and the single-entry watch
//! that diffs consecutive snapshots.
//!
//! A snapshot is a JSON value with the entry header under `header` and each
//! attribute under `attributes.<type name>.<instance>`.  Decoding the raw
//! attribute bytes is the MFT decoder's work; what stands here is the shape
//! of the emitted value and the diff-and-adopt step of the watch.

use vstd::prelude::*;
use vstd::string::StringExecFns;

use crate::errors::{decimal_string, spec_decimal};
use crate::json::{get_difference_value, lemma_entries_view, spec_diff, spec_diff_value,
    spec_entries_view, spec_node_view, spec_obj_has, spec_rendered, JsonNode, JsonValue,
    obj_lookup};
use crate::records::ChangeRecord;

verus! {

/// The attribute type codes an MFT entry can carry.
#[derive(Debug, Clone, Copy, PartialEq, Eq, Structural)]
pub enum AttributeKind {
    StandardInformation,
    AttributeList,
    FileName,
    ObjectId,
    SecurityDescriptor,
    VolumeName,
    VolumeInformation,
    Data,
    IndexRoot,
    IndexAllocation,
    Bitmap,
    ReparsePoint,
}

/// The name an attribute type appears under in a snapshot.
pub open spec fn spec_attr_name(attribute: AttributeKind) -> Seq<char> {
    match attribute {
        AttributeKind::StandardInformation => "StandardInformation"@,
        AttributeKind::AttributeList => "AttributeList"@,
        AttributeKind::FileName => "FileName"@,
        AttributeKind::ObjectId => "ObjectId"@,
        AttributeKind::SecurityDescriptor => "SecurityDescriptor"@,
        AttributeKind::VolumeName => "VolumeName"@,
        AttributeKind::VolumeInformation => "VolumeInformation"@,
        AttributeKind::Data => "DATA"@,
        AttributeKind::IndexRoot => "IndexRoot"@,
        AttributeKind::IndexAllocation => "IndexAllocation"@,
        AttributeKind::Bitmap => "BITMAP"@,
        AttributeKind::ReparsePoint => "ReparsePoint"@,
    }
}

pub fn get_attr_name(attribute: &AttributeKind) -> (r: String)
    ensures
        r@ == spec_attr_name(*attribute),
{
    match attribute {
        AttributeKind::StandardInformation => "StandardInformation".to_owned(),
        AttributeKind::AttributeList => "AttributeList".to_owned(),
        AttributeKind::FileName => "FileName".to_owned(),
        AttributeKind::ObjectId => "ObjectId".to_owned(),
        AttributeKind::SecurityDescriptor => "SecurityDescriptor".to_owned(),
        AttributeKind::VolumeName => "VolumeName".to_owned(),
        AttributeKind::VolumeInformation => "VolumeInformation".to_owned(),
        AttributeKind::Data => "DATA".to_owned(),
        AttributeKind::IndexRoot => "IndexRoot".to_owned(),
        AttributeKind::IndexAllocation => "IndexAllocation".to_owned(),
        AttributeKind::Bitmap => "BITMAP".to_owned(),
        AttributeKind::ReparsePoint => "ReparsePoint".to_owned(),
    }
}

/// The snapshot entry one attribute contributes: its type name mapped to an
/// object holding its value under its decimal instance number.
pub open spec fn spec_attr_pair(attribute: (String, u16, JsonNode)) -> (Seq<char>, JsonValue) {
    (
        attribute.0@,
        JsonValue::Obj(seq![(spec_decimal(attribute.1 as int), spec_node_view(attribute.2))]),
    )
}

/// The `attributes` object built from the attribute list taken from index
/// `j` to the end, walked from the end towards `j`: for each type name the
/// last attribute with it wins, as a map insert per attribute would have it.
pub open spec fn spec_attr_obj_from(attributes: Seq<(String, u16, JsonNode)>, j: int) -> Seq<
    (Seq<char>, JsonValue),
>
    decreases attributes.len() - j,
{
    if j < 0 || j >= attributes.len() {
        Seq::empty()
    } else {
        let rest = spec_attr_obj_from(attributes, j + 1);
        if spec_obj_has(rest, spec_attr_pair(attributes[j]).0) {
            rest
        } else {
            rest.push(spec_attr_pair(attributes[j]))
        }
    }
}

/// The snapshot of one decoded entry: the header under `header`, and each
/// attribute's value under `attributes.<type name>.<instance>`.
pub open spec fn spec_entry_snapshot(header: JsonNode, attributes: Seq<(String, u16, JsonNode)>)
    -> JsonValue {
    JsonValue::Obj(
        seq![
            ("header"@, spec_node_view(header)),
            ("attributes"@, JsonValue::Obj(spec_attr_obj_from(attributes, 0))),
        ],
    )
}

/// Builds the snapshot value of one decoded entry from its header value and
/// its attributes, each given as type name, instance number and value.
pub fn custom_entry_value(header: JsonNode, attributes: Vec<(String, u16, JsonNode)>) -> (r:
    JsonNode)
    ensures
        r@ == spec_entry_snapshot(header, attributes@),
{
    let ghost full = attributes@;
    let mut remaining = attributes;
    let mut acc: Vec<(String, JsonNode)> = Vec::new();
    proof {
        assert(full.take(full.len() as int) =~= full);
    }
    loop
        invariant_except_break
            remaining@.len() <= full.len(),
            remaining@ == full.take(remaining@.len() as int),
            spec_entries_view(acc@) == spec_attr_obj_from(full, remaining@.len() as int),
        ensures
            spec_entries_view(acc@) == spec_attr_obj_from(full, 0),
        decreases remaining@.len(),
    {
        proof {
            assert(full.take(remaining@.len() as int).len() == remaining@.len());
        }
        let popped = remaining.pop();
        match popped {
            None => {
                break ;
            },
            Some(attribute) => {
                let ghost j = remaining@.len() as int;
                proof {
                    assert(full.take(j + 1).len() == j + 1);
                    assert(attribute == full.take(j + 1)[j]);
                    assert(attribute == full[j]);
                    assert(remaining@ =~= full.take(j));
                }
                let found = obj_lookup(&acc, &attribute.0);
                match found {
                    None => {
                        let ghost acc_pre = acc@;
                        let instance = decimal_string(attribute.1 as u64);
                        let inner: Vec<(String, JsonNode)> = vec![(instance, attribute.2)];
                        proof {
                            lemma_entries_view(inner@);
                            assert(spec_entries_view(inner@) =~= seq![
                                (spec_decimal(attribute.1 as int), spec_node_view(inner@[0].1)),
                            ]);
                        }
                        acc.push((attribute.0, JsonNode::Obj(inner)));
                        proof {
                            lemma_entries_view(acc_pre);
                            lemma_entries_view(acc@);
                            assert(spec_entries_view(acc@) =~= spec_entries_view(acc_pre).push(
                                spec_attr_pair(full[j]),
                            ));
                        }
                    },
                    Some(_) => {
                    },
                }
            },
        }
    }
    let mut top: Vec<(String, JsonNode)> = Vec::new();
    top.push(("header".to_owned(), header));
    top.push(("attributes".to_owned(), JsonNode::Obj(acc)));
    proof {
        lemma_entries_view(top@);
        assert(spec_entries_view(top@) =~= seq![
            ("header"@, spec_node_view(top@[0].1)),
            ("attributes"@, spec_node_view(top@[1].1)),
        ]);
    }
    JsonNode::Obj(top)
}

/// A watch on one MFT entry: remembers the last adopted snapshot and emits
/// the structural difference when a newer snapshot differs.
pub struct EntryListener {
    /// The path the watch was created for.
    pub path_to_monitor: String,
    /// The MFT entry number that path resolved to.
    pub entry_to_monitor: i64,
    /// The last adopted snapshot.
    pub baseline: Option<JsonNode>,
}

impl EntryListener {
    /// A fresh watch with no snapshot adopted yet.
    pub fn new(path_to_monitor: String, entry_to_monitor: i64) -> (r: Self)
        ensures
            r.path_to_monitor == path_to_monitor,
            r.entry_to_monitor == entry_to_monitor,
            r.baseline is None,
    {
        EntryListener { path_to_monitor, entry_to_monitor, baseline: None }
    }

    /// Whether a change record concerns the watched entry; records for other
    /// entries are ignored.
    pub fn wants_record(&self, record: &ChangeRecord) -> (r: bool)
        ensures
            r == (self.entry_to_monitor >= 0 && record.file_reference.entry
                == self.entry_to_monitor as u64),
    {
        self.entry_to_monitor >= 0 && record.file_reference.entry == (self.entry_to_monitor as u64)
    }

    /// Adopts a freshly decoded snapshot.  The first snapshot only primes
    /// the baseline; afterwards the structural difference against the
    /// previous snapshot is handed back, and an empty difference is
    /// suppressed: nothing is emitted.
    pub fn observe_snapshot(&mut self, snapshot: JsonNode) -> (emit: Option<JsonNode>)
        ensures
            final(self).path_to_monitor == old(self).path_to_monitor,
            final(self).entry_to_monitor == old(self).entry_to_monitor,
            final(self).baseline matches Some(adopted) && adopted@ == snapshot@,
            match old(self).baseline {
                None => emit is None,
                Some(prev) => {
                    if spec_diff(prev@, snapshot@, Seq::empty()).len() == 0 {
                        emit is None
                    } else {
                        emit matches Some(d) && d@ == spec_diff_value(prev@, snapshot@)
                    }
                },
            },
    {
        let emit = match &self.baseline {
            None => None,
            Some(prev) => {
                let difference = get_difference_value(prev, &snapshot);
                let empty = match &difference {
                    JsonNode::Obj(entries) => entries.len() == 0,
                    _ => false,
                };
                proof {
                    match &difference {
                        JsonNode::Obj(entries) => {
                            lemma_entries_view(entries@);
                            assert(spec_rendered(
                                spec_diff(prev@, snapshot@, Seq::empty()),
                            ).len() == spec_diff(prev@, snapshot@, Seq::empty()).len());
                        },
                        _ => {},
                    }
                }
                if empty {
                    None
                } else {
                    Some(difference)
                }
            },
        };
        self.baseline = Some(snapshot);
        emit
    }
}

} // verus!
