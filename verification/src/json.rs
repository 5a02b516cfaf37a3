//! A plain model of JSON values and the structural diff of two snapshots.
//!
//! The diff walks both values together.  Containers are compared child by
//! child — arrays keyed by decimal index, objects by field name — and the
//! result maps each dotted field path to one of `{"before":…,"after":…}` for
//! a changed leaf, `{"created":…}` for a subtree only the right value has, or
//! the literal string `"removed"` for one only the left value has.  Children
//! present in both come first in left-to-right order of the left value, then
//! additions in right order, then removals in left order.

use vstd::prelude::*;
use vstd::string::StringExecFns;

use crate::errors::{decimal_string, spec_decimal};

verus! {

broadcast use vstd::std_specs::vec::group_vec_axioms;

/// A JSON value over plain data: numbers are 64-bit integers, objects keep
/// their fields in insertion order.
#[derive(Debug, PartialEq, Eq)]
pub enum JsonNode {
    Null,
    Bool(bool),
    Int(i64),
    UInt(u64),
    Str(String),
    Arr(Vec<JsonNode>),
    Obj(Vec<(String, JsonNode)>),
}

/// The mathematical value of a `JsonNode`.
pub enum JsonValue {
    Null,
    Bool(bool),
    Int(i64),
    UInt(u64),
    Str(Seq<char>),
    Arr(Seq<JsonValue>),
    Obj(Seq<(Seq<char>, JsonValue)>),
}

/// The values of a list of nodes.
pub open spec fn spec_nodes_view(items: Seq<JsonNode>) -> Seq<JsonValue>
    decreases items,
{
    if items.len() == 0 {
        Seq::empty()
    } else {
        seq![spec_node_view(items[0])] + spec_nodes_view(items.drop_first())
    }
}

/// The values of a list of keyed nodes.
pub open spec fn spec_entries_view(entries: Seq<(String, JsonNode)>) -> Seq<
    (Seq<char>, JsonValue),
>
    decreases entries,
{
    if entries.len() == 0 {
        Seq::empty()
    } else {
        seq![(entries[0].0@, spec_node_view(entries[0].1))] + spec_entries_view(
            entries.drop_first(),
        )
    }
}

/// The value of one node.
pub open spec fn spec_node_view(n: JsonNode) -> JsonValue
    decreases n,
{
    match n {
        JsonNode::Null => JsonValue::Null,
        JsonNode::Bool(v) => JsonValue::Bool(v),
        JsonNode::Int(v) => JsonValue::Int(v),
        JsonNode::UInt(v) => JsonValue::UInt(v),
        JsonNode::Str(v) => JsonValue::Str(v@),
        JsonNode::Arr(items) => JsonValue::Arr(spec_nodes_view(items@)),
        JsonNode::Obj(entries) => JsonValue::Obj(spec_entries_view(entries@)),
    }
}

impl View for JsonNode {
    type V = JsonValue;

    open spec fn view(&self) -> JsonValue {
        spec_node_view(*self)
    }
}

/// A node list's value is elementwise.
pub proof fn lemma_nodes_view(items: Seq<JsonNode>)
    ensures
        spec_nodes_view(items).len() == items.len(),
        forall|i: int|
            0 <= i < items.len() ==> #[trigger] spec_nodes_view(items)[i] == spec_node_view(
                items[i],
            ),
    decreases items.len(),
{
    if items.len() > 0 {
        lemma_nodes_view(items.drop_first());
    }
}

/// A keyed node list's value is elementwise.
pub proof fn lemma_entries_view(entries: Seq<(String, JsonNode)>)
    ensures
        spec_entries_view(entries).len() == entries.len(),
        forall|i: int|
            0 <= i < entries.len() ==> #[trigger] spec_entries_view(entries)[i] == (
                entries[i].0@,
                spec_node_view(entries[i].1),
            ),
    decreases entries.len(),
{
    if entries.len() > 0 {
        lemma_entries_view(entries.drop_first());
    }
}

/// One difference between two values at some path.
pub enum DiffChange {
    Modified(JsonValue, JsonValue),
    Created(JsonValue),
    Removed,
}

/// Whether two scalar values are the same; numbers compare by numeric value
/// whatever their signedness, and containers never compare equal here.
pub open spec fn spec_scalar_eq(a: JsonValue, b: JsonValue) -> bool {
    match (a, b) {
        (JsonValue::Null, JsonValue::Null) => true,
        (JsonValue::Bool(x), JsonValue::Bool(y)) => x == y,
        (JsonValue::Int(x), JsonValue::Int(y)) => x == y,
        (JsonValue::UInt(x), JsonValue::UInt(y)) => x == y,
        (JsonValue::Int(x), JsonValue::UInt(y)) => x >= 0 && x == y,
        (JsonValue::UInt(x), JsonValue::Int(y)) => y >= 0 && x == y,
        (JsonValue::Str(x), JsonValue::Str(y)) => x == y,
        _ => false,
    }
}

/// Whether an entry list holds the key.
pub open spec fn spec_obj_has(os: Seq<(Seq<char>, JsonValue)>, k: Seq<char>) -> bool
    decreases os.len(),
{
    if os.len() == 0 {
        false
    } else if os[0].0 == k {
        true
    } else {
        spec_obj_has(os.drop_first(), k)
    }
}

/// The value of the first entry with the key; `Null` when there is none.
pub open spec fn spec_obj_get(os: Seq<(Seq<char>, JsonValue)>, k: Seq<char>) -> JsonValue
    decreases os.len(),
{
    if os.len() == 0 {
        JsonValue::Null
    } else if os[0].0 == k {
        os[0].1
    } else {
        spec_obj_get(os.drop_first(), k)
    }
}

/// The keyed children of an array: each element under its decimal index.
pub open spec fn spec_arr_entries(xs: Seq<JsonValue>) -> Seq<(Seq<char>, JsonValue)> {
    Seq::new(xs.len(), |i: int| (spec_decimal(i), xs[i]))
}

/// Key segments joined with a dot.
pub open spec fn spec_join_dot(segments: Seq<Seq<char>>) -> Seq<char>
    decreases segments.len(),
{
    if segments.len() == 0 {
        Seq::empty()
    } else if segments.len() == 1 {
        segments[0]
    } else {
        spec_join_dot(segments.drop_last()) + seq!['.'] + segments.last()
    }
}

/// The additions from index `j` on: every right-hand child whose key the
/// left side lacks, in right-hand order, each carrying its whole subtree.
pub open spec fn spec_diff_added(
    ls: Seq<(Seq<char>, JsonValue)>,
    rs: Seq<(Seq<char>, JsonValue)>,
    keys: Seq<Seq<char>>,
    j: int,
) -> Seq<(Seq<char>, DiffChange)>
    decreases rs.len() - j,
{
    if j < 0 || j >= rs.len() {
        Seq::empty()
    } else {
        (if !spec_obj_has(ls, rs[j].0) {
            seq![(spec_join_dot(keys.push(rs[j].0)), DiffChange::Created(rs[j].1))]
        } else {
            Seq::empty()
        }) + spec_diff_added(ls, rs, keys, j + 1)
    }
}

/// The removals from index `i` on: every left-hand child whose key the right
/// side lacks, in left-hand order.
pub open spec fn spec_diff_removed(
    ls: Seq<(Seq<char>, JsonValue)>,
    rs: Seq<(Seq<char>, JsonValue)>,
    keys: Seq<Seq<char>>,
    i: int,
) -> Seq<(Seq<char>, DiffChange)>
    decreases ls.len() - i,
{
    if i < 0 || i >= ls.len() {
        Seq::empty()
    } else {
        (if !spec_obj_has(rs, ls[i].0) {
            seq![(spec_join_dot(keys.push(ls[i].0)), DiffChange::Removed)]
        } else {
            Seq::empty()
        }) + spec_diff_removed(ls, rs, keys, i + 1)
    }
}

/// The additions of an array pair from index `j` on: every index only the
/// right array has, in order, each carrying its whole subtree.
pub open spec fn spec_diff_arr_added(
    xs: Seq<JsonValue>,
    ys: Seq<JsonValue>,
    keys: Seq<Seq<char>>,
    j: int,
) -> Seq<(Seq<char>, DiffChange)>
    decreases ys.len() - j,
{
    if j < 0 || j >= ys.len() {
        Seq::empty()
    } else {
        (if j >= xs.len() {
            seq![(spec_join_dot(keys.push(spec_decimal(j))), DiffChange::Created(ys[j]))]
        } else {
            Seq::empty()
        }) + spec_diff_arr_added(xs, ys, keys, j + 1)
    }
}

/// The removals of an array pair from index `i` on: every index only the
/// left array has, in order.
pub open spec fn spec_diff_arr_removed(
    xs: Seq<JsonValue>,
    ys: Seq<JsonValue>,
    keys: Seq<Seq<char>>,
    i: int,
) -> Seq<(Seq<char>, DiffChange)>
    decreases xs.len() - i,
{
    if i < 0 || i >= xs.len() {
        Seq::empty()
    } else {
        (if i >= ys.len() {
            seq![(spec_join_dot(keys.push(spec_decimal(i))), DiffChange::Removed)]
        } else {
            Seq::empty()
        }) + spec_diff_arr_removed(xs, ys, keys, i + 1)
    }
}

/// Every entry from index `j` on as an addition; used when the two sides are
/// containers of different kinds, whose key spaces never meet.
pub open spec fn spec_diff_all_added(
    rs: Seq<(Seq<char>, JsonValue)>,
    keys: Seq<Seq<char>>,
    j: int,
) -> Seq<(Seq<char>, DiffChange)>
    decreases rs.len() - j,
{
    if j < 0 || j >= rs.len() {
        Seq::empty()
    } else {
        seq![(spec_join_dot(keys.push(rs[j].0)), DiffChange::Created(rs[j].1))]
            + spec_diff_all_added(rs, keys, j + 1)
    }
}

/// Every entry from index `i` on as a removal; the counterpart of
/// `spec_diff_all_added`.
pub open spec fn spec_diff_all_removed(
    ls: Seq<(Seq<char>, JsonValue)>,
    keys: Seq<Seq<char>>,
    i: int,
) -> Seq<(Seq<char>, DiffChange)>
    decreases ls.len() - i,
{
    if i < 0 || i >= ls.len() {
        Seq::empty()
    } else {
        seq![(spec_join_dot(keys.push(ls[i].0)), DiffChange::Removed)] + spec_diff_all_removed(
            ls,
            keys,
            i + 1,
        )
    }
}

/// The differences of the children both arrays have, from index `i` on.
pub open spec fn spec_diff_common_arr(
    xs: Seq<JsonValue>,
    ys: Seq<JsonValue>,
    keys: Seq<Seq<char>>,
    i: int,
) -> Seq<(Seq<char>, DiffChange)>
    decreases xs, xs.len() - i,
{
    if i < 0 || i >= xs.len() || i >= ys.len() {
        Seq::empty()
    } else {
        spec_diff(xs[i], ys[i], keys.push(spec_decimal(i))) + spec_diff_common_arr(
            xs,
            ys,
            keys,
            i + 1,
        )
    }
}

/// The differences of the children both objects have, from index `i` of the
/// left object on.
pub open spec fn spec_diff_common_obj(
    xs: Seq<(Seq<char>, JsonValue)>,
    ys: Seq<(Seq<char>, JsonValue)>,
    keys: Seq<Seq<char>>,
    i: int,
) -> Seq<(Seq<char>, DiffChange)>
    decreases xs, xs.len() - i,
{
    if i < 0 || i >= xs.len() {
        Seq::empty()
    } else {
        (if spec_obj_has(ys, xs[i].0) {
            spec_diff(xs[i].1, spec_obj_get(ys, xs[i].0), keys.push(xs[i].0))
        } else {
            Seq::empty()
        }) + spec_diff_common_obj(xs, ys, keys, i + 1)
    }
}

/// The differences between two values, as `(dotted path, change)` pairs;
/// `keys` is the key trail down to `a` and `b`.
pub open spec fn spec_diff(a: JsonValue, b: JsonValue, keys: Seq<Seq<char>>) -> Seq<
    (Seq<char>, DiffChange),
>
    decreases a, 0int,
{
    match (a, b) {
        (JsonValue::Arr(xs), JsonValue::Arr(ys)) => spec_diff_common_arr(xs, ys, keys, 0)
            + spec_diff_arr_added(xs, ys, keys, 0) + spec_diff_arr_removed(xs, ys, keys, 0),
        (JsonValue::Obj(xs), JsonValue::Obj(ys)) => spec_diff_common_obj(xs, ys, keys, 0)
            + spec_diff_added(xs, ys, keys, 0) + spec_diff_removed(xs, ys, keys, 0),
        (JsonValue::Arr(xs), JsonValue::Obj(ys)) => spec_diff_all_added(ys, keys, 0)
            + spec_diff_all_removed(spec_arr_entries(xs), keys, 0),
        (JsonValue::Obj(xs), JsonValue::Arr(ys)) => spec_diff_all_added(
            spec_arr_entries(ys),
            keys,
            0,
        ) + spec_diff_all_removed(xs, keys, 0),
        _ => {
            if spec_scalar_eq(a, b) {
                Seq::empty()
            } else {
                seq![(spec_join_dot(keys), DiffChange::Modified(a, b))]
            }
        },
    }
}

/// How one change renders in the emitted diff object.
pub open spec fn spec_render_change(c: DiffChange) -> JsonValue {
    match c {
        DiffChange::Modified(x, y) => JsonValue::Obj(seq![("before"@, x), ("after"@, y)]),
        DiffChange::Created(v) => JsonValue::Obj(seq![("created"@, v)]),
        DiffChange::Removed => JsonValue::Str("removed"@),
    }
}

/// A change list with each change rendered, paths kept.
pub open spec fn spec_rendered(s: Seq<(Seq<char>, DiffChange)>) -> Seq<(Seq<char>, JsonValue)> {
    s.map_values(|pc: (Seq<char>, DiffChange)| (pc.0, spec_render_change(pc.1)))
}

/// The emitted diff of two values: an object from dotted path to rendered
/// change.
pub open spec fn spec_diff_value(a: JsonValue, b: JsonValue) -> JsonValue {
    JsonValue::Obj(spec_rendered(spec_diff(a, b, Seq::empty())))
}

/// Rendering distributes over concatenation.
proof fn lemma_rendered_add(s1: Seq<(Seq<char>, DiffChange)>, s2: Seq<(Seq<char>, DiffChange)>)
    ensures
        spec_rendered(s1 + s2) == spec_rendered(s1) + spec_rendered(s2),
{
    assert(spec_rendered(s1 + s2) =~= spec_rendered(s1) + spec_rendered(s2));
}

/// The key strings of a key trail.
pub open spec fn spec_keys_view(keys: Seq<String>) -> Seq<Seq<char>> {
    keys.map_values(|s: String| s@)
}

/// A structurally equal owned copy of a node.
pub fn deep_copy(n: &JsonNode) -> (r: JsonNode)
    ensures
        r@ == n@,
    decreases *n,
{
    match n {
        JsonNode::Null => JsonNode::Null,
        JsonNode::Bool(v) => JsonNode::Bool(*v),
        JsonNode::Int(v) => JsonNode::Int(*v),
        JsonNode::UInt(v) => JsonNode::UInt(*v),
        JsonNode::Str(v) => JsonNode::Str(v.clone()),
        JsonNode::Arr(items) => {
            let mut copies: Vec<JsonNode> = Vec::new();
            let mut i: usize = 0;
            while i < items.len()
                invariant
                    *n == (JsonNode::Arr(*items)),
                    i <= items@.len(),
                    copies@.len() == i,
                    forall|k: int|
                        0 <= k < i ==> spec_node_view(#[trigger] copies@[k]) == spec_node_view(
                            items@[k],
                        ),
                decreases items@.len() - i,
            {
                proof {
                    assert(decreases_to!(*n => n->Arr_0));
                    assert(n->Arr_0 == *items);
                    assert(decreases_to!(*items => items@[i as int]));
                }
                copies.push(deep_copy(&items[i]));
                i += 1;
            }
            proof {
                lemma_nodes_view(copies@);
                lemma_nodes_view(items@);
                assert(spec_nodes_view(copies@) =~= spec_nodes_view(items@));
            }
            JsonNode::Arr(copies)
        },
        JsonNode::Obj(entries) => {
            let mut copies: Vec<(String, JsonNode)> = Vec::new();
            let mut i: usize = 0;
            while i < entries.len()
                invariant
                    *n == (JsonNode::Obj(*entries)),
                    i <= entries@.len(),
                    copies@.len() == i,
                    forall|k: int|
                        0 <= k < i ==> (#[trigger] copies@[k]).0@ == entries@[k].0@
                            && spec_node_view(copies@[k].1) == spec_node_view(entries@[k].1),
                decreases entries@.len() - i,
            {
                proof {
                    assert(decreases_to!(*n => n->Obj_0));
                    assert(n->Obj_0 == *entries);
                    assert(decreases_to!(*entries => entries@[i as int]));
                    assert(decreases_to!(entries@[i as int] => entries@[i as int].1));
                }
                let pair = (entries[i].0.clone(), deep_copy(&entries[i].1));
                copies.push(pair);
                i += 1;
            }
            proof {
                lemma_entries_view(copies@);
                lemma_entries_view(entries@);
                assert(spec_entries_view(copies@) =~= spec_entries_view(entries@));
            }
            JsonNode::Obj(copies)
        },
    }
}

/// Appends one rendered diff entry.
fn push_entry(out: &mut Vec<(String, JsonNode)>, path: String, value: JsonNode)
    ensures
        spec_entries_view(final(out)@) == spec_entries_view(old(out)@) + seq![(path@, value@)],
{
    let ghost pre = out@;
    out.push((path, value));
    proof {
        lemma_entries_view(pre);
        lemma_entries_view(out@);
        assert(spec_entries_view(out@) =~= spec_entries_view(pre) + seq![(path@, value@)]);
    }
}

/// The rendered form of a changed leaf.
fn render_modified(x: JsonNode, y: JsonNode) -> (r: JsonNode)
    ensures
        r@ == spec_render_change(DiffChange::Modified(x@, y@)),
{
    let entries: Vec<(String, JsonNode)> = vec![
        ("before".to_owned(), x),
        ("after".to_owned(), y),
    ];
    proof {
        lemma_entries_view(entries@);
        assert(spec_entries_view(entries@) =~= seq![
            ("before"@, entries@[0].1@),
            ("after"@, entries@[1].1@),
        ]);
    }
    JsonNode::Obj(entries)
}

/// The rendered form of an added subtree.
fn render_created(v: JsonNode) -> (r: JsonNode)
    ensures
        r@ == spec_render_change(DiffChange::Created(v@)),
{
    let entries: Vec<(String, JsonNode)> = vec![("created".to_owned(), v)];
    proof {
        lemma_entries_view(entries@);
        assert(spec_entries_view(entries@) =~= seq![("created"@, entries@[0].1@)]);
    }
    JsonNode::Obj(entries)
}

/// The rendered form of a removed subtree.
fn render_removed() -> (r: JsonNode)
    ensures
        r@ == spec_render_change(DiffChange::Removed),
{
    JsonNode::Str("removed".to_owned())
}

/// Joins a key trail into a dotted path string.
fn join_dotted(keys: &Vec<String>) -> (r: String)
    ensures
        r@ == spec_join_dot(spec_keys_view(keys@)),
{
    let ghost segments = spec_keys_view(keys@);
    if keys.len() == 0 {
        let r = String::new();
        proof {
            assert(r@ =~= spec_join_dot(segments));
        }
        return r;
    }
    let count = keys.len();
    let mut joined = keys[0].clone();
    let mut i: usize = 1;
    while i < count
        invariant
            1 <= i <= count,
            count == keys@.len(),
            segments == spec_keys_view(keys@),
            joined@ == spec_join_dot(segments.take(i as int)),
        decreases count - i,
    {
        joined.append(".");
        joined.append(keys[i].as_str());
        proof {
            let t = segments.take(i + 1);
            assert(t.drop_last() =~= segments.take(i as int));
            assert(t.last() == segments[i as int]);
            assert(spec_join_dot(t) == spec_join_dot(t.drop_last()) + seq!['.'] + t.last());
            assert("."@ =~= seq!['.']) by {
                reveal_strlit(".");
            }
        }
        i += 1;
    }
    proof {
        assert(segments.take(count as int) =~= segments);
    }
    joined
}

proof fn lemma_obj_scan_step(os: Seq<(Seq<char>, JsonValue)>, k: Seq<char>, i: int)
    requires
        0 <= i < os.len(),
    ensures
        spec_obj_has(os.skip(i), k) == ((os[i].0 == k) || spec_obj_has(os.skip(i + 1), k)),
        os[i].0 == k ==> spec_obj_get(os.skip(i), k) == os[i].1,
        os[i].0 != k ==> spec_obj_get(os.skip(i), k) == spec_obj_get(os.skip(i + 1), k),
{
    assert(os.skip(i)[0] == os[i]);
    assert(os.skip(i).drop_first() =~= os.skip(i + 1));
}

/// Finds the first entry with the key; the returned index pins the entry the
/// specification-level lookup speaks of.
pub(crate) fn obj_lookup(entries: &Vec<(String, JsonNode)>, key: &String) -> (r: Option<usize>)
    ensures
        match r {
            Some(i) => {
                &&& i < entries@.len()
                &&& entries@[i as int].0@ == key@
                &&& spec_obj_has(spec_entries_view(entries@), key@)
                &&& spec_obj_get(spec_entries_view(entries@), key@) == spec_node_view(
                    entries@[i as int].1,
                )
            },
            None => !spec_obj_has(spec_entries_view(entries@), key@),
        },
{
    let ghost os = spec_entries_view(entries@);
    proof {
        lemma_entries_view(entries@);
        assert(os.skip(0) =~= os);
    }
    let mut i: usize = 0;
    while i < entries.len()
        invariant
            i <= entries@.len(),
            os == spec_entries_view(entries@),
            os.len() == entries@.len(),
            forall|k: int|
                0 <= k < entries@.len() ==> #[trigger] os[k] == (
                    entries@[k].0@,
                    spec_node_view(entries@[k].1),
                ),
            spec_obj_has(os, key@) == spec_obj_has(os.skip(i as int), key@),
            spec_obj_get(os, key@) == spec_obj_get(os.skip(i as int), key@),
        decreases entries@.len() - i,
    {
        if entries[i].0 == *key {
            proof {
                lemma_obj_scan_step(os, key@, i as int);
            }
            return Some(i);
        }
        proof {
            lemma_obj_scan_step(os, key@, i as int);
        }
        i += 1;
    }
    proof {
        assert(os.skip(entries@.len() as int) =~= Seq::empty());
    }
    None
}

/// Walks `a` and `b` together, appending each difference to `out` as a
/// `(dotted path, rendered change)` entry; `keys` is the key trail down to
/// the pair and is handed back as it came.
fn diff_into(a: &JsonNode, b: &JsonNode, keys: &mut Vec<String>, out: &mut Vec<(String, JsonNode)>)
    ensures
        final(keys)@ == old(keys)@,
        spec_entries_view(final(out)@) == spec_entries_view(old(out)@) + spec_rendered(
            spec_diff(a@, b@, spec_keys_view(old(keys)@)),
        ),
    decreases *a,
{
    let ghost k0 = keys@;
    let ghost kv = spec_keys_view(k0);
    let ghost base = spec_entries_view(out@);
    match (a, b) {
        (JsonNode::Arr(xs), JsonNode::Arr(ys)) => {
            let ghost xv = spec_nodes_view(xs@);
            let ghost yv = spec_nodes_view(ys@);
            proof {
                lemma_nodes_view(xs@);
                lemma_nodes_view(ys@);
            }
            let common = if xs.len() <= ys.len() {
                xs.len()
            } else {
                ys.len()
            };
            let mut i: usize = 0;
            while i < common
                invariant
                    *a == (JsonNode::Arr(*xs)),
                    *b == (JsonNode::Arr(*ys)),
                    xv == spec_nodes_view(xs@),
                    yv == spec_nodes_view(ys@),
                    xv.len() == xs@.len(),
                    yv.len() == ys@.len(),
                    forall|k: int| 0 <= k < xs@.len() ==> #[trigger] xv[k] == spec_node_view(xs@[k]),
                    forall|k: int| 0 <= k < ys@.len() ==> #[trigger] yv[k] == spec_node_view(ys@[k]),
                    common == if xs@.len() <= ys@.len() {
                        xs@.len()
                    } else {
                        ys@.len()
                    },
                    i <= common,
                    keys@ == k0,
                    kv == spec_keys_view(k0),
                    base + spec_rendered(spec_diff_common_arr(xv, yv, kv, 0)) == spec_entries_view(
                        out@,
                    ) + spec_rendered(spec_diff_common_arr(xv, yv, kv, i as int)),
                decreases common - i,
            {
                let ghost out_pre = spec_entries_view(out@);
                keys.push(decimal_string(i as u64));
                proof {
                    assert(spec_keys_view(keys@) =~= kv.push(spec_decimal(i as int)));
                    assert(decreases_to!(*a => a->Arr_0));
                    assert(a->Arr_0 == *xs);
                    assert(decreases_to!(*xs => xs@[i as int]));
                }
                diff_into(&xs[i], &ys[i], keys, out);
                keys.pop();
                proof {
                    assert(keys@ =~= k0);
                    let head = spec_diff(xv[i as int], yv[i as int], kv.push(
                        spec_decimal(i as int),
                    ));
                    assert(spec_diff_common_arr(xv, yv, kv, i as int) == head
                        + spec_diff_common_arr(xv, yv, kv, i + 1));
                    lemma_rendered_add(head, spec_diff_common_arr(xv, yv, kv, i + 1));
                }
                i += 1;
            }
            proof {
                assert(spec_diff_common_arr(xv, yv, kv, common as int) == Seq::<
                    (Seq<char>, DiffChange),
                >::empty());
                assert(spec_rendered(Seq::<(Seq<char>, DiffChange)>::empty()) =~= Seq::<
                    (Seq<char>, JsonValue),
                >::empty());
                assert(spec_entries_view(out@) =~= base + spec_rendered(
                    spec_diff_common_arr(xv, yv, kv, 0),
                ));
            }
            let ghost base_added = spec_entries_view(out@);
            let mut j: usize = 0;
            while j < ys.len()
                invariant
                    *a == (JsonNode::Arr(*xs)),
                    *b == (JsonNode::Arr(*ys)),
                    xv == spec_nodes_view(xs@),
                    yv == spec_nodes_view(ys@),
                    xv.len() == xs@.len(),
                    yv.len() == ys@.len(),
                    forall|k: int| 0 <= k < ys@.len() ==> #[trigger] yv[k] == spec_node_view(ys@[k]),
                    j <= ys@.len(),
                    keys@ == k0,
                    kv == spec_keys_view(k0),
                    base_added + spec_rendered(spec_diff_arr_added(xv, yv, kv, 0))
                        == spec_entries_view(out@) + spec_rendered(
                        spec_diff_arr_added(xv, yv, kv, j as int),
                    ),
                decreases ys@.len() - j,
            {
                if j >= xs.len() {
                    keys.push(decimal_string(j as u64));
                    proof {
                        assert(spec_keys_view(keys@) =~= kv.push(spec_decimal(j as int)));
                    }
                    let path = join_dotted(keys);
                    keys.pop();
                    let created = render_created(deep_copy(&ys[j]));
                    push_entry(out, path, created);
                    proof {
                        assert(keys@ =~= k0);
                        let head = seq![
                            (
                                spec_join_dot(kv.push(spec_decimal(j as int))),
                                DiffChange::Created(yv[j as int]),
                            ),
                        ];
                        assert(spec_diff_arr_added(xv, yv, kv, j as int) == head
                            + spec_diff_arr_added(xv, yv, kv, j + 1));
                        lemma_rendered_add(head, spec_diff_arr_added(xv, yv, kv, j + 1));
                        assert(spec_rendered(head) =~= seq![
                            (path@, spec_render_change(DiffChange::Created(yv[j as int]))),
                        ]);
                    }
                } else {
                    proof {
                        assert(spec_diff_arr_added(xv, yv, kv, j as int) == Seq::<
                            (Seq<char>, DiffChange),
                        >::empty() + spec_diff_arr_added(xv, yv, kv, j + 1));
                        assert(Seq::<(Seq<char>, DiffChange)>::empty() + spec_diff_arr_added(
                            xv,
                            yv,
                            kv,
                            j + 1,
                        ) =~= spec_diff_arr_added(xv, yv, kv, j + 1));
                    }
                }
                j += 1;
            }
            proof {
                assert(spec_diff_arr_added(xv, yv, kv, ys@.len() as int) == Seq::<
                    (Seq<char>, DiffChange),
                >::empty());
                assert(spec_entries_view(out@) =~= base_added + spec_rendered(
                    spec_diff_arr_added(xv, yv, kv, 0),
                ));
            }
            let ghost base_removed = spec_entries_view(out@);
            let mut i2: usize = 0;
            while i2 < xs.len()
                invariant
                    *a == (JsonNode::Arr(*xs)),
                    *b == (JsonNode::Arr(*ys)),
                    xv == spec_nodes_view(xs@),
                    yv == spec_nodes_view(ys@),
                    xv.len() == xs@.len(),
                    yv.len() == ys@.len(),
                    i2 <= xs@.len(),
                    keys@ == k0,
                    kv == spec_keys_view(k0),
                    base_removed + spec_rendered(spec_diff_arr_removed(xv, yv, kv, 0))
                        == spec_entries_view(out@) + spec_rendered(
                        spec_diff_arr_removed(xv, yv, kv, i2 as int),
                    ),
                decreases xs@.len() - i2,
            {
                if i2 >= ys.len() {
                    keys.push(decimal_string(i2 as u64));
                    proof {
                        assert(spec_keys_view(keys@) =~= kv.push(spec_decimal(i2 as int)));
                    }
                    let path = join_dotted(keys);
                    keys.pop();
                    let removed = render_removed();
                    push_entry(out, path, removed);
                    proof {
                        assert(keys@ =~= k0);
                        let head = seq![
                            (spec_join_dot(kv.push(spec_decimal(i2 as int))), DiffChange::Removed),
                        ];
                        assert(spec_diff_arr_removed(xv, yv, kv, i2 as int) == head
                            + spec_diff_arr_removed(xv, yv, kv, i2 + 1));
                        lemma_rendered_add(head, spec_diff_arr_removed(xv, yv, kv, i2 + 1));
                        assert(spec_rendered(head) =~= seq![
                            (path@, spec_render_change(DiffChange::Removed)),
                        ]);
                    }
                } else {
                    proof {
                        assert(spec_diff_arr_removed(xv, yv, kv, i2 as int) == Seq::<
                            (Seq<char>, DiffChange),
                        >::empty() + spec_diff_arr_removed(xv, yv, kv, i2 + 1));
                        assert(Seq::<(Seq<char>, DiffChange)>::empty() + spec_diff_arr_removed(
                            xv,
                            yv,
                            kv,
                            i2 + 1,
                        ) =~= spec_diff_arr_removed(xv, yv, kv, i2 + 1));
                    }
                }
                i2 += 1;
            }
            proof {
                assert(spec_diff_arr_removed(xv, yv, kv, xs@.len() as int) == Seq::<
                    (Seq<char>, DiffChange),
                >::empty());
                assert(spec_entries_view(out@) =~= base_removed + spec_rendered(
                    spec_diff_arr_removed(xv, yv, kv, 0),
                ));
                let c = spec_diff_common_arr(xv, yv, kv, 0);
                let ad = spec_diff_arr_added(xv, yv, kv, 0);
                let rm = spec_diff_arr_removed(xv, yv, kv, 0);
                lemma_rendered_add(c, ad);
                lemma_rendered_add(c + ad, rm);
                assert(spec_diff(a@, b@, kv) == c + ad + rm);
                assert(spec_entries_view(out@) =~= base + spec_rendered(spec_diff(a@, b@, kv)));
            }
        },
        (JsonNode::Obj(xs), JsonNode::Obj(ys)) => {
            let ghost xe = spec_entries_view(xs@);
            let ghost ye = spec_entries_view(ys@);
            proof {
                lemma_entries_view(xs@);
                lemma_entries_view(ys@);
            }
            let mut i: usize = 0;
            while i < xs.len()
                invariant
                    *a == (JsonNode::Obj(*xs)),
                    *b == (JsonNode::Obj(*ys)),
                    xe == spec_entries_view(xs@),
                    ye == spec_entries_view(ys@),
                    xe.len() == xs@.len(),
                    ye.len() == ys@.len(),
                    forall|k: int|
                        0 <= k < xs@.len() ==> #[trigger] xe[k] == (
                            xs@[k].0@,
                            spec_node_view(xs@[k].1),
                        ),
                    i <= xs@.len(),
                    keys@ == k0,
                    kv == spec_keys_view(k0),
                    base + spec_rendered(spec_diff_common_obj(xe, ye, kv, 0)) == spec_entries_view(
                        out@,
                    ) + spec_rendered(spec_diff_common_obj(xe, ye, kv, i as int)),
                decreases xs@.len() - i,
            {
                let ghost rest = spec_diff_common_obj(xe, ye, kv, i + 1);
                let found = obj_lookup(ys, &xs[i].0);
                match found {
                    Some(jdx) => {
                        keys.push(xs[i].0.clone());
                        proof {
                            assert(spec_keys_view(keys@) =~= kv.push(xe[i as int].0));
                            assert(decreases_to!(*a => a->Obj_0));
                            assert(a->Obj_0 == *xs);
                            assert(decreases_to!(*xs => xs@[i as int]));
                            assert(decreases_to!(xs@[i as int] => xs@[i as int].1));
                        }
                        diff_into(&xs[i].1, &ys[jdx].1, keys, out);
                        keys.pop();
                        proof {
                            assert(keys@ =~= k0);
                            let head = spec_diff(xe[i as int].1, spec_obj_get(ye, xe[i as int].0),
                                kv.push(xe[i as int].0));
                            assert(spec_obj_has(ye, xe[i as int].0));
                            assert(spec_diff_common_obj(xe, ye, kv, i as int) == head + rest);
                            lemma_rendered_add(head, rest);
                        }
                    },
                    None => {
                        proof {
                            assert(!spec_obj_has(ye, xe[i as int].0));
                            assert(spec_diff_common_obj(xe, ye, kv, i as int) == Seq::<
                                (Seq<char>, DiffChange),
                            >::empty() + rest);
                            assert(Seq::<(Seq<char>, DiffChange)>::empty() + rest =~= rest);
                        }
                    },
                }
                i += 1;
            }
            proof {
                assert(spec_diff_common_obj(xe, ye, kv, xs@.len() as int) == Seq::<
                    (Seq<char>, DiffChange),
                >::empty());
                assert(spec_entries_view(out@) =~= base + spec_rendered(
                    spec_diff_common_obj(xe, ye, kv, 0),
                ));
            }
            let ghost base_added = spec_entries_view(out@);
            let mut j: usize = 0;
            while j < ys.len()
                invariant
                    *a == (JsonNode::Obj(*xs)),
                    *b == (JsonNode::Obj(*ys)),
                    xe == spec_entries_view(xs@),
                    ye == spec_entries_view(ys@),
                    xe.len() == xs@.len(),
                    ye.len() == ys@.len(),
                    forall|k: int|
                        0 <= k < ys@.len() ==> #[trigger] ye[k] == (
                            ys@[k].0@,
                            spec_node_view(ys@[k].1),
                        ),
                    j <= ys@.len(),
                    keys@ == k0,
                    kv == spec_keys_view(k0),
                    base_added + spec_rendered(spec_diff_added(xe, ye, kv, 0)) == spec_entries_view(
                        out@,
                    ) + spec_rendered(spec_diff_added(xe, ye, kv, j as int)),
                decreases ys@.len() - j,
            {
                let ghost rest = spec_diff_added(xe, ye, kv, j + 1);
                let found = obj_lookup(xs, &ys[j].0);
                match found {
                    None => {
                        keys.push(ys[j].0.clone());
                        proof {
                            assert(spec_keys_view(keys@) =~= kv.push(ye[j as int].0));
                        }
                        let path = join_dotted(keys);
                        keys.pop();
                        let created = render_created(deep_copy(&ys[j].1));
                        push_entry(out, path, created);
                        proof {
                            assert(keys@ =~= k0);
                            let head = seq![
                                (
                                    spec_join_dot(kv.push(ye[j as int].0)),
                                    DiffChange::Created(ye[j as int].1),
                                ),
                            ];
                            assert(!spec_obj_has(xe, ye[j as int].0));
                            assert(spec_diff_added(xe, ye, kv, j as int) == head + rest);
                            lemma_rendered_add(head, rest);
                            assert(spec_rendered(head) =~= seq![
                                (path@, spec_render_change(DiffChange::Created(ye[j as int].1))),
                            ]);
                        }
                    },
                    Some(_) => {
                        proof {
                            assert(spec_obj_has(xe, ye[j as int].0));
                            assert(spec_diff_added(xe, ye, kv, j as int) == Seq::<
                                (Seq<char>, DiffChange),
                            >::empty() + rest);
                            assert(Seq::<(Seq<char>, DiffChange)>::empty() + rest =~= rest);
                        }
                    },
                }
                j += 1;
            }
            proof {
                assert(spec_diff_added(xe, ye, kv, ys@.len() as int) == Seq::<
                    (Seq<char>, DiffChange),
                >::empty());
                assert(spec_entries_view(out@) =~= base_added + spec_rendered(
                    spec_diff_added(xe, ye, kv, 0),
                ));
            }
            let ghost base_removed = spec_entries_view(out@);
            let mut i2: usize = 0;
            while i2 < xs.len()
                invariant
                    *a == (JsonNode::Obj(*xs)),
                    *b == (JsonNode::Obj(*ys)),
                    xe == spec_entries_view(xs@),
                    ye == spec_entries_view(ys@),
                    xe.len() == xs@.len(),
                    ye.len() == ys@.len(),
                    forall|k: int|
                        0 <= k < xs@.len() ==> #[trigger] xe[k] == (
                            xs@[k].0@,
                            spec_node_view(xs@[k].1),
                        ),
                    i2 <= xs@.len(),
                    keys@ == k0,
                    kv == spec_keys_view(k0),
                    base_removed + spec_rendered(spec_diff_removed(xe, ye, kv, 0))
                        == spec_entries_view(out@) + spec_rendered(
                        spec_diff_removed(xe, ye, kv, i2 as int),
                    ),
                decreases xs@.len() - i2,
            {
                let ghost rest = spec_diff_removed(xe, ye, kv, i2 + 1);
                let found = obj_lookup(ys, &xs[i2].0);
                match found {
                    None => {
                        keys.push(xs[i2].0.clone());
                        proof {
                            assert(spec_keys_view(keys@) =~= kv.push(xe[i2 as int].0));
                        }
                        let path = join_dotted(keys);
                        keys.pop();
                        let removed = render_removed();
                        push_entry(out, path, removed);
                        proof {
                            assert(keys@ =~= k0);
                            let head = seq![
                                (spec_join_dot(kv.push(xe[i2 as int].0)), DiffChange::Removed),
                            ];
                            assert(!spec_obj_has(ye, xe[i2 as int].0));
                            assert(spec_diff_removed(xe, ye, kv, i2 as int) == head + rest);
                            lemma_rendered_add(head, rest);
                            assert(spec_rendered(head) =~= seq![
                                (path@, spec_render_change(DiffChange::Removed)),
                            ]);
                        }
                    },
                    Some(_) => {
                        proof {
                            assert(spec_obj_has(ye, xe[i2 as int].0));
                            assert(spec_diff_removed(xe, ye, kv, i2 as int) == Seq::<
                                (Seq<char>, DiffChange),
                            >::empty() + rest);
                            assert(Seq::<(Seq<char>, DiffChange)>::empty() + rest =~= rest);
                        }
                    },
                }
                i2 += 1;
            }
            proof {
                assert(spec_diff_removed(xe, ye, kv, xs@.len() as int) == Seq::<
                    (Seq<char>, DiffChange),
                >::empty());
                assert(spec_entries_view(out@) =~= base_removed + spec_rendered(
                    spec_diff_removed(xe, ye, kv, 0),
                ));
                let c = spec_diff_common_obj(xe, ye, kv, 0);
                let ad = spec_diff_added(xe, ye, kv, 0);
                let rm = spec_diff_removed(xe, ye, kv, 0);
                lemma_rendered_add(c, ad);
                lemma_rendered_add(c + ad, rm);
                assert(spec_diff(a@, b@, kv) == c + ad + rm);
                assert(spec_entries_view(out@) =~= base + spec_rendered(spec_diff(a@, b@, kv)));
            }
        },
        (JsonNode::Arr(xs), JsonNode::Obj(ys)) => {
            let ghost xv = spec_nodes_view(xs@);
            let ghost ye = spec_entries_view(ys@);
            proof {
                lemma_nodes_view(xs@);
                lemma_entries_view(ys@);
            }
            let mut j: usize = 0;
            while j < ys.len()
                invariant
                    *a == (JsonNode::Arr(*xs)),
                    *b == (JsonNode::Obj(*ys)),
                    xv == spec_nodes_view(xs@),
                    ye == spec_entries_view(ys@),
                    xv.len() == xs@.len(),
                    ye.len() == ys@.len(),
                    forall|k: int|
                        0 <= k < ys@.len() ==> #[trigger] ye[k] == (
                            ys@[k].0@,
                            spec_node_view(ys@[k].1),
                        ),
                    j <= ys@.len(),
                    keys@ == k0,
                    kv == spec_keys_view(k0),
                    base + spec_rendered(spec_diff_all_added(ye, kv, 0)) == spec_entries_view(out@)
                        + spec_rendered(spec_diff_all_added(ye, kv, j as int)),
                decreases ys@.len() - j,
            {
                let ghost rest = spec_diff_all_added(ye, kv, j + 1);
                keys.push(ys[j].0.clone());
                proof {
                    assert(spec_keys_view(keys@) =~= kv.push(ye[j as int].0));
                }
                let path = join_dotted(keys);
                keys.pop();
                let created = render_created(deep_copy(&ys[j].1));
                push_entry(out, path, created);
                proof {
                    assert(keys@ =~= k0);
                    let head = seq![
                        (
                            spec_join_dot(kv.push(ye[j as int].0)),
                            DiffChange::Created(ye[j as int].1),
                        ),
                    ];
                    assert(spec_diff_all_added(ye, kv, j as int) == head + rest);
                    lemma_rendered_add(head, rest);
                    assert(spec_rendered(head) =~= seq![
                        (path@, spec_render_change(DiffChange::Created(ye[j as int].1))),
                    ]);
                }
                j += 1;
            }
            proof {
                assert(spec_diff_all_added(ye, kv, ys@.len() as int) == Seq::<
                    (Seq<char>, DiffChange),
                >::empty());
                assert(spec_entries_view(out@) =~= base + spec_rendered(
                    spec_diff_all_added(ye, kv, 0),
                ));
            }
            let ghost base_removed = spec_entries_view(out@);
            let ghost ls = spec_arr_entries(xv);
            let mut i: usize = 0;
            while i < xs.len()
                invariant
                    *a == (JsonNode::Arr(*xs)),
                    *b == (JsonNode::Obj(*ys)),
                    xv == spec_nodes_view(xs@),
                    ye == spec_entries_view(ys@),
                    xv.len() == xs@.len(),
                    ls == spec_arr_entries(xv),
                    i <= xs@.len(),
                    keys@ == k0,
                    kv == spec_keys_view(k0),
                    base_removed + spec_rendered(spec_diff_all_removed(ls, kv, 0))
                        == spec_entries_view(out@) + spec_rendered(
                        spec_diff_all_removed(ls, kv, i as int),
                    ),
                decreases xs@.len() - i,
            {
                let ghost rest = spec_diff_all_removed(ls, kv, i + 1);
                keys.push(decimal_string(i as u64));
                proof {
                    assert(ls[i as int].0 == spec_decimal(i as int));
                    assert(spec_keys_view(keys@) =~= kv.push(ls[i as int].0));
                }
                let path = join_dotted(keys);
                keys.pop();
                let removed = render_removed();
                push_entry(out, path, removed);
                proof {
                    assert(keys@ =~= k0);
                    let head = seq![(spec_join_dot(kv.push(ls[i as int].0)), DiffChange::Removed)];
                    assert(spec_diff_all_removed(ls, kv, i as int) == head + rest);
                    lemma_rendered_add(head, rest);
                    assert(spec_rendered(head) =~= seq![
                        (path@, spec_render_change(DiffChange::Removed)),
                    ]);
                }
                i += 1;
            }
            proof {
                assert(spec_diff_all_removed(ls, kv, xs@.len() as int) == Seq::<
                    (Seq<char>, DiffChange),
                >::empty());
                assert(spec_entries_view(out@) =~= base_removed + spec_rendered(
                    spec_diff_all_removed(ls, kv, 0),
                ));
                lemma_rendered_add(spec_diff_all_added(ye, kv, 0), spec_diff_all_removed(ls, kv, 0));
                assert(spec_diff(a@, b@, kv) == spec_diff_all_added(ye, kv, 0)
                    + spec_diff_all_removed(ls, kv, 0));
                assert(spec_entries_view(out@) =~= base + spec_rendered(spec_diff(a@, b@, kv)));
            }
        },
        (JsonNode::Obj(xs), JsonNode::Arr(ys)) => {
            let ghost xe = spec_entries_view(xs@);
            let ghost yv = spec_nodes_view(ys@);
            proof {
                lemma_entries_view(xs@);
                lemma_nodes_view(ys@);
            }
            let ghost rs = spec_arr_entries(yv);
            let mut j: usize = 0;
            while j < ys.len()
                invariant
                    *a == (JsonNode::Obj(*xs)),
                    *b == (JsonNode::Arr(*ys)),
                    xe == spec_entries_view(xs@),
                    yv == spec_nodes_view(ys@),
                    yv.len() == ys@.len(),
                    forall|k: int| 0 <= k < ys@.len() ==> #[trigger] yv[k] == spec_node_view(ys@[k]),
                    rs == spec_arr_entries(yv),
                    j <= ys@.len(),
                    keys@ == k0,
                    kv == spec_keys_view(k0),
                    base + spec_rendered(spec_diff_all_added(rs, kv, 0)) == spec_entries_view(out@)
                        + spec_rendered(spec_diff_all_added(rs, kv, j as int)),
                decreases ys@.len() - j,
            {
                let ghost rest = spec_diff_all_added(rs, kv, j + 1);
                keys.push(decimal_string(j as u64));
                proof {
                    assert(rs[j as int].0 == spec_decimal(j as int));
                    assert(spec_keys_view(keys@) =~= kv.push(rs[j as int].0));
                }
                let path = join_dotted(keys);
                keys.pop();
                let created = render_created(deep_copy(&ys[j]));
                push_entry(out, path, created);
                proof {
                    assert(keys@ =~= k0);
                    let head = seq![
                        (spec_join_dot(kv.push(rs[j as int].0)), DiffChange::Created(rs[j as int].1)),
                    ];
                    assert(spec_diff_all_added(rs, kv, j as int) == head + rest);
                    lemma_rendered_add(head, rest);
                    assert(rs[j as int].1 == yv[j as int]);
                    assert(spec_rendered(head) =~= seq![
                        (path@, spec_render_change(DiffChange::Created(rs[j as int].1))),
                    ]);
                }
                j += 1;
            }
            proof {
                assert(spec_diff_all_added(rs, kv, ys@.len() as int) == Seq::<
                    (Seq<char>, DiffChange),
                >::empty());
                assert(spec_entries_view(out@) =~= base + spec_rendered(
                    spec_diff_all_added(rs, kv, 0),
                ));
            }
            let ghost base_removed = spec_entries_view(out@);
            let mut i: usize = 0;
            while i < xs.len()
                invariant
                    *a == (JsonNode::Obj(*xs)),
                    *b == (JsonNode::Arr(*ys)),
                    xe == spec_entries_view(xs@),
                    yv == spec_nodes_view(ys@),
                    xe.len() == xs@.len(),
                    forall|k: int|
                        0 <= k < xs@.len() ==> #[trigger] xe[k] == (
                            xs@[k].0@,
                            spec_node_view(xs@[k].1),
                        ),
                    i <= xs@.len(),
                    keys@ == k0,
                    kv == spec_keys_view(k0),
                    base_removed + spec_rendered(spec_diff_all_removed(xe, kv, 0))
                        == spec_entries_view(out@) + spec_rendered(
                        spec_diff_all_removed(xe, kv, i as int),
                    ),
                decreases xs@.len() - i,
            {
                let ghost rest = spec_diff_all_removed(xe, kv, i + 1);
                keys.push(xs[i].0.clone());
                proof {
                    assert(spec_keys_view(keys@) =~= kv.push(xe[i as int].0));
                }
                let path = join_dotted(keys);
                keys.pop();
                let removed = render_removed();
                push_entry(out, path, removed);
                proof {
                    assert(keys@ =~= k0);
                    let head = seq![(spec_join_dot(kv.push(xe[i as int].0)), DiffChange::Removed)];
                    assert(spec_diff_all_removed(xe, kv, i as int) == head + rest);
                    lemma_rendered_add(head, rest);
                    assert(spec_rendered(head) =~= seq![
                        (path@, spec_render_change(DiffChange::Removed)),
                    ]);
                }
                i += 1;
            }
            proof {
                assert(spec_diff_all_removed(xe, kv, xs@.len() as int) == Seq::<
                    (Seq<char>, DiffChange),
                >::empty());
                assert(spec_entries_view(out@) =~= base_removed + spec_rendered(
                    spec_diff_all_removed(xe, kv, 0),
                ));
                lemma_rendered_add(spec_diff_all_added(rs, kv, 0), spec_diff_all_removed(xe, kv, 0));
                assert(spec_diff(a@, b@, kv) == spec_diff_all_added(rs, kv, 0)
                    + spec_diff_all_removed(xe, kv, 0));
                assert(spec_entries_view(out@) =~= base + spec_rendered(spec_diff(a@, b@, kv)));
            }
        },
        _ => {
            let equal = match (a, b) {
                (JsonNode::Null, JsonNode::Null) => true,
                (JsonNode::Bool(x), JsonNode::Bool(y)) => *x == *y,
                (JsonNode::Int(x), JsonNode::Int(y)) => *x == *y,
                (JsonNode::UInt(x), JsonNode::UInt(y)) => *x == *y,
                (JsonNode::Int(x), JsonNode::UInt(y)) => *x >= 0 && (*x as u64) == *y,
                (JsonNode::UInt(x), JsonNode::Int(y)) => *y >= 0 && *x == (*y as u64),
                (JsonNode::Str(x), JsonNode::Str(y)) => *x == *y,
                _ => false,
            };
            proof {
                assert(equal == spec_scalar_eq(a@, b@));
            }
            if !equal {
                let path = join_dotted(keys);
                let modified = render_modified(deep_copy(a), deep_copy(b));
                push_entry(out, path, modified);
                proof {
                    assert(spec_diff(a@, b@, kv) == seq![
                        (spec_join_dot(kv), DiffChange::Modified(a@, b@)),
                    ]);
                    assert(spec_rendered(spec_diff(a@, b@, kv)) =~= seq![
                        (path@, spec_render_change(DiffChange::Modified(a@, b@))),
                    ]);
                }
            } else {
                proof {
                    assert(spec_diff(a@, b@, kv) == Seq::<(Seq<char>, DiffChange)>::empty());
                    assert(spec_rendered(Seq::<(Seq<char>, DiffChange)>::empty()) =~= Seq::<
                        (Seq<char>, JsonValue),
                    >::empty());
                    assert(base + spec_rendered(spec_diff(a@, b@, kv)) =~= base);
                }
            }
        },
    }
}

/// Whether an entry list's keys are pairwise distinct.
pub open spec fn spec_unique_keys(os: Seq<(Seq<char>, JsonValue)>) -> bool {
    forall|p: int, q: int| 0 <= p < q < os.len() ==> os[p].0 != os[q].0
}

/// Whether every element of `xs` from index `i` on is well formed.
pub open spec fn spec_wf_arr(xs: Seq<JsonValue>, i: int) -> bool
    decreases xs, xs.len() - i,
{
    if i < 0 || i >= xs.len() {
        true
    } else {
        spec_wf(xs[i]) && spec_wf_arr(xs, i + 1)
    }
}

/// Whether every entry value of `os` from index `i` on is well formed.
pub open spec fn spec_wf_obj(os: Seq<(Seq<char>, JsonValue)>, i: int) -> bool
    decreases os, os.len() - i,
{
    if i < 0 || i >= os.len() {
        true
    } else {
        spec_wf(os[i].1) && spec_wf_obj(os, i + 1)
    }
}

/// Whether a value is well formed: every object in it keeps its keys
/// pairwise distinct, as JSON objects do.
pub open spec fn spec_wf(v: JsonValue) -> bool
    decreases v, 1int,
{
    match v {
        JsonValue::Arr(xs) => spec_wf_arr(xs, 0),
        JsonValue::Obj(os) => spec_unique_keys(os) && spec_wf_obj(os, 0),
        _ => true,
    }
}

proof fn lemma_wf_arr_element(xs: Seq<JsonValue>, i: int, j: int)
    requires
        spec_wf_arr(xs, i),
        0 <= i <= j < xs.len(),
    ensures
        spec_wf(xs[j]),
    decreases j - i,
{
    if i < j {
        lemma_wf_arr_element(xs, i + 1, j);
    }
}

proof fn lemma_wf_obj_element(os: Seq<(Seq<char>, JsonValue)>, i: int, j: int)
    requires
        spec_wf_obj(os, i),
        0 <= i <= j < os.len(),
    ensures
        spec_wf(os[j].1),
    decreases j - i,
{
    if i < j {
        lemma_wf_obj_element(os, i + 1, j);
    }
}

/// An entry list holds each of its own keys.
proof fn lemma_obj_has_own_key(os: Seq<(Seq<char>, JsonValue)>, i: int)
    requires
        0 <= i < os.len(),
    ensures
        spec_obj_has(os, os[i].0),
    decreases i,
{
    if os[0].0 != os[i].0 {
        lemma_obj_has_own_key(os.drop_first(), i - 1);
        assert(os.drop_first()[i - 1] == os[i]);
    }
}

/// Under pairwise-distinct keys, looking an entry's own key up yields that
/// entry's value.
proof fn lemma_obj_get_unique(os: Seq<(Seq<char>, JsonValue)>, i: int)
    requires
        spec_unique_keys(os),
        0 <= i < os.len(),
    ensures
        spec_obj_get(os, os[i].0) == os[i].1,
    decreases i,
{
    if i > 0 {
        assert(os[0].0 != os[i].0);
        let rest = os.drop_first();
        assert(forall|p: int, q: int|
            0 <= p < q < rest.len() ==> rest[p] == os[p + 1] && rest[q] == os[q + 1]);
        lemma_obj_get_unique(rest, i - 1);
        assert(rest[i - 1] == os[i]);
    }
}

proof fn lemma_arr_added_self(xs: Seq<JsonValue>, keys: Seq<Seq<char>>, j: int)
    ensures
        spec_diff_arr_added(xs, xs, keys, j) == Seq::<(Seq<char>, DiffChange)>::empty(),
    decreases xs.len() - j,
{
    if 0 <= j < xs.len() {
        lemma_arr_added_self(xs, keys, j + 1);
        assert(spec_diff_arr_added(xs, xs, keys, j) =~= Seq::<(Seq<char>, DiffChange)>::empty());
    }
}

proof fn lemma_arr_removed_self(xs: Seq<JsonValue>, keys: Seq<Seq<char>>, i: int)
    ensures
        spec_diff_arr_removed(xs, xs, keys, i) == Seq::<(Seq<char>, DiffChange)>::empty(),
    decreases xs.len() - i,
{
    if 0 <= i < xs.len() {
        lemma_arr_removed_self(xs, keys, i + 1);
        assert(spec_diff_arr_removed(xs, xs, keys, i) =~= Seq::<(Seq<char>, DiffChange)>::empty());
    }
}

proof fn lemma_obj_added_self(os: Seq<(Seq<char>, JsonValue)>, keys: Seq<Seq<char>>, j: int)
    ensures
        spec_diff_added(os, os, keys, j) == Seq::<(Seq<char>, DiffChange)>::empty(),
    decreases os.len() - j,
{
    if 0 <= j < os.len() {
        lemma_obj_has_own_key(os, j);
        lemma_obj_added_self(os, keys, j + 1);
        assert(spec_diff_added(os, os, keys, j) =~= Seq::<(Seq<char>, DiffChange)>::empty());
    }
}

proof fn lemma_obj_removed_self(os: Seq<(Seq<char>, JsonValue)>, keys: Seq<Seq<char>>, i: int)
    ensures
        spec_diff_removed(os, os, keys, i) == Seq::<(Seq<char>, DiffChange)>::empty(),
    decreases os.len() - i,
{
    if 0 <= i < os.len() {
        lemma_obj_has_own_key(os, i);
        lemma_obj_removed_self(os, keys, i + 1);
        assert(spec_diff_removed(os, os, keys, i) =~= Seq::<(Seq<char>, DiffChange)>::empty());
    }
}

proof fn lemma_common_arr_self(xs: Seq<JsonValue>, keys: Seq<Seq<char>>, i: int)
    requires
        spec_wf_arr(xs, 0),
        0 <= i,
    ensures
        spec_diff_common_arr(xs, xs, keys, i) == Seq::<(Seq<char>, DiffChange)>::empty(),
    decreases xs, xs.len() - i,
{
    if i < xs.len() {
        lemma_wf_arr_element(xs, 0, i);
        lemma_diff_self(xs[i], keys.push(spec_decimal(i)));
        lemma_common_arr_self(xs, keys, i + 1);
        assert(spec_diff_common_arr(xs, xs, keys, i) =~= Seq::<(Seq<char>, DiffChange)>::empty());
    }
}

proof fn lemma_common_obj_self(os: Seq<(Seq<char>, JsonValue)>, keys: Seq<Seq<char>>, i: int)
    requires
        spec_unique_keys(os),
        spec_wf_obj(os, 0),
        0 <= i,
    ensures
        spec_diff_common_obj(os, os, keys, i) == Seq::<(Seq<char>, DiffChange)>::empty(),
    decreases os, os.len() - i,
{
    if i < os.len() {
        lemma_obj_has_own_key(os, i);
        lemma_obj_get_unique(os, i);
        lemma_wf_obj_element(os, 0, i);
        lemma_diff_self(os[i].1, keys.push(os[i].0));
        lemma_common_obj_self(os, keys, i + 1);
        assert(spec_diff_common_obj(os, os, keys, i) =~= Seq::<(Seq<char>, DiffChange)>::empty());
    }
}

/// The structural difference of a well-formed value with itself is empty:
/// an unchanged snapshot is never re-emitted.
pub proof fn lemma_diff_self(v: JsonValue, keys: Seq<Seq<char>>)
    requires
        spec_wf(v),
    ensures
        spec_diff(v, v, keys) == Seq::<(Seq<char>, DiffChange)>::empty(),
    decreases v, 2int,
{
    match v {
        JsonValue::Arr(xs) => {
            lemma_common_arr_self(xs, keys, 0);
            lemma_arr_added_self(xs, keys, 0);
            lemma_arr_removed_self(xs, keys, 0);
            assert(spec_diff(v, v, keys) =~= Seq::<(Seq<char>, DiffChange)>::empty());
        },
        JsonValue::Obj(os) => {
            lemma_common_obj_self(os, keys, 0);
            lemma_obj_added_self(os, keys, 0);
            lemma_obj_removed_self(os, keys, 0);
            assert(spec_diff(v, v, keys) =~= Seq::<(Seq<char>, DiffChange)>::empty());
        },
        _ => {
        },
    }
}

/// The structural difference of two values: an object mapping each differing
/// dotted field path to `{"before":…,"after":…}`, `{"created":…}`, or the
/// string `"removed"`.
pub fn get_difference_value(cmp1: &JsonNode, cmp2: &JsonNode) -> (r: JsonNode)
    ensures
        r@ == spec_diff_value(cmp1@, cmp2@),
{
    let mut keys: Vec<String> = Vec::new();
    let mut entries: Vec<(String, JsonNode)> = Vec::new();
    diff_into(cmp1, cmp2, &mut keys, &mut entries);
    proof {
        assert(spec_keys_view(Seq::empty()) =~= Seq::<Seq<char>>::empty());
        assert(spec_entries_view(Seq::empty()) =~= Seq::<(Seq<char>, JsonValue)>::empty());
        assert(spec_entries_view(entries@) =~= spec_rendered(
            spec_diff(cmp1@, cmp2@, Seq::empty()),
        ));
    }
    JsonNode::Obj(entries)
}

} // verus!
