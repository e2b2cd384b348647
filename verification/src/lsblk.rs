//! Reading `lsblk --bytes --json` output: the JSON document, the block
//! devices it describes, and the install-target disks among them.
//!
//! lsblk writes some numbers as JSON numbers and others as decimal strings,
//! and flags as booleans or as 0/1, depending on its version; each field
//! reader accepts both forms and falls back to an empty or zero value.

use vstd::prelude::*;
use crate::storage::{
    devices_view, disks_from_lsblk, disks_view, empty_device_view, lemma_children_view,
    BlockDevice, BlockDeviceView, DiskSnapshot, DiskSnapshotView, disks_upto,
};
use crate::text::{parse_u64, parsed_u64, str_eq, to_owned_string};

verus! {

/// A JSON value. A number keeps its value when it is a non-negative integer
/// below 2^64 and is `Number(None)` otherwise; an object keeps its entries in order.
pub enum Json {
    Null,
    Bool(bool),
    Number(Option<u64>),
    Text(String),
    Array(Vec<Json>),
    Object(Vec<(String, Json)>),
}

/// The model of a JSON value.
pub enum JsonView {
    Null,
    Bool(bool),
    Number(Option<u64>),
    Text(Seq<char>),
    Array(Seq<JsonView>),
    Object(Seq<(Seq<char>, JsonView)>),
}

impl View for Json {
    type V = JsonView;

    open spec fn view(&self) -> JsonView
        decreases self,
    {
        match self {
            Json::Null => JsonView::Null,
            Json::Bool(b) => JsonView::Bool(*b),
            Json::Number(n) => JsonView::Number(*n),
            Json::Text(s) => JsonView::Text(s@),
            Json::Array(items) => JsonView::Array(Seq::new(items@.len(), |i: int| if 0 <= i < items@.len() {
                proof {
                    assert(decreases_to!(items => items@));
                }
                items@[i].view()
            } else {
                JsonView::Null
            })),
            Json::Object(entries) => JsonView::Object(Seq::new(entries@.len(), |i: int| if 0 <= i < entries@.len() {
                proof {
                    assert(decreases_to!(entries => entries@));
                    assert(decreases_to!(entries@ => entries@[i]));
                }
                (entries@[i].0@, entries@[i].1.view())
            } else {
                (Seq::empty(), JsonView::Null)
            })),
        }
    }
}

/// An array's model lists its items' models; an object's, its entries'.
pub proof fn lemma_json_view(j: Json)
    ensures
        j matches Json::Array(items) ==> (j@ matches JsonView::Array(v) && v.len() == items@.len()
            && forall|i: int| 0 <= i < items@.len() ==> #[trigger] v[i] == items@[i]@),
        j matches Json::Object(entries) ==> (j@ matches JsonView::Object(v) && v.len() == entries@.len()
            && forall|i: int| 0 <= i < entries@.len() ==> #[trigger] v[i] == (entries@[i].0@, entries@[i].1@)),
{
    reveal_with_fuel(<Json as View>::view, 2);
}

#[verifier::external_type_specification]
#[verifier::external_body]
pub struct ExJsonValue(serde_json::Value);

/// `serde_json::from_slice::<serde_json::Value>`: the JSON document that
/// `bytes` hold, as a `Json`, or `None` where they hold none (invalid UTF-8,
/// bad syntax, trailing data, nesting deeper than serde_json's limit).
/// Objects come with their entries in serde_json's map order (sorted by key,
/// a repeated key keeping its last value). The document depends on the bytes
/// alone, so it is given the name `parsed_json`; what the parse accepts is
/// not written out here.
pub uninterp spec fn parsed_json(bytes: Seq<u8>) -> Option<JsonView>;

/// `serde_json::from_slice::<serde_json::Value>` on `bytes`, converted to a
/// `Json` by `json_of_value`: `Ok` with the document `parsed_json` names, or
/// `Err` with serde_json's description of why the bytes are not one JSON
/// document. The text of that description is not stated.
#[verifier::external_body]
pub fn parse_json(bytes: &[u8]) -> (r: Result<Json, String>)
    ensures
        match r {
            Ok(j) => parsed_json(bytes@) == Some(j@),
            Err(_) => parsed_json(bytes@) is None,
        },
{
    match serde_json::from_slice::<serde_json::Value>(bytes) {
        Ok(v) => Ok(json_of_value(v)),
        Err(e) => Err(e.to_string()),
    }
}

/// The conversion `parse_json` applies to serde_json's value: variant by
/// variant, a number by `serde_json::Number::as_u64`, arrays and objects item
/// by item in serde_json's order. It carries no contract of its own; what it
/// yields is stated by `parse_json`.
#[verifier::external_body]
fn json_of_value(v: serde_json::Value) -> Json {
    match v {
        serde_json::Value::Null => Json::Null,
        serde_json::Value::Bool(b) => Json::Bool(b),
        serde_json::Value::Number(n) => Json::Number(n.as_u64()),
        serde_json::Value::String(s) => Json::Text(s),
        serde_json::Value::Array(a) => Json::Array(a.into_iter().map(json_of_value).collect()),
        serde_json::Value::Object(o) => Json::Object(o.into_iter().map(|(k, v)| (k, json_of_value(v))).collect()),
    }
}

// ---------------------------------------------------------------------------
// Reading fields
// ---------------------------------------------------------------------------

/// The index of the first entry among `entries[0..k]` under `key`, or -1.
pub open spec fn entry_index(entries: Seq<(Seq<char>, JsonView)>, key: Seq<char>, k: int) -> int
    decreases k,
{
    if k <= 0 {
        -1
    } else {
        let j = entry_index(entries, key, k - 1);
        if j >= 0 {
            j
        } else if entries[k - 1].0 == key {
            k - 1
        } else {
            -1
        }
    }
}

pub proof fn lemma_entry_index(entries: Seq<(Seq<char>, JsonView)>, key: Seq<char>, k: int)
    requires
        0 <= k <= entries.len(),
    ensures
        -1 <= entry_index(entries, key, k) < k,
        entry_index(entries, key, k) >= 0 ==> entries[entry_index(entries, key, k)].0 == key,
        entry_index(entries, key, k) >= 0 ==> forall|i: int| 0 <= i < entry_index(entries, key, k)
            ==> (#[trigger] entries[i]).0 != key,
        entry_index(entries, key, k) == -1 ==> forall|i: int| 0 <= i < k ==> (#[trigger] entries[i]).0 != key,
    decreases k,
{
    if k > 0 {
        lemma_entry_index(entries, key, k - 1);
    }
}

/// The value under `key` in an object: its first entry with that key; `Null`
/// when there is none or `node` is no object (as indexing a `serde_json::Value` gives).
pub open spec fn field(node: JsonView, key: Seq<char>) -> JsonView {
    match node {
        JsonView::Object(entries) => {
            let j = entry_index(entries, key, entries.len() as int);
            if 0 <= j < entries.len() { entries[j].1 } else { JsonView::Null }
        },
        _ => JsonView::Null,
    }
}

/// A text field's value; empty for anything else.
pub open spec fn text_of(v: JsonView) -> Seq<char> {
    match v {
        JsonView::Text(s) => s,
        _ => Seq::empty(),
    }
}

/// A number field's value, written as a number or as a decimal string; 0 for anything else.
pub open spec fn number_of(v: JsonView) -> u64 {
    match v {
        JsonView::Number(Some(n)) => n,
        JsonView::Text(s) => match parsed_u64(s) {
            Some(n) => n,
            None => 0,
        },
        _ => 0,
    }
}

/// A flag's value, written as a boolean or as a number (nonzero is set); unset otherwise.
pub open spec fn flag_of(v: JsonView) -> bool {
    match v {
        JsonView::Bool(b) => b,
        JsonView::Number(Some(n)) => n != 0,
        _ => false,
    }
}

/// An array's items; none for anything else.
pub open spec fn items_of(v: JsonView) -> Seq<JsonView> {
    match v {
        JsonView::Array(items) => items,
        _ => Seq::empty(),
    }
}

/// The text items among `items[0..k]`, in order; other items are skipped.
pub open spec fn texts_upto(items: Seq<JsonView>, k: int) -> Seq<Seq<char>>
    decreases k,
{
    if k <= 0 {
        Seq::empty()
    } else {
        match items[k - 1] {
            JsonView::Text(s) => texts_upto(items, k - 1).push(s),
            _ => texts_upto(items, k - 1),
        }
    }
}

/// The text items of an array field.
pub open spec fn texts_of(v: JsonView) -> Seq<Seq<char>> {
    texts_upto(items_of(v), items_of(v).len() as int)
}

/// An item of an array field lies below the object holding the field.
pub proof fn lemma_item_below(node: JsonView, key: Seq<char>, i: int)
    requires
        0 <= i < items_of(field(node, key)).len(),
    ensures
        decreases_to!(node => items_of(field(node, key))[i]),
{
    let entries = node->Object_0;
    lemma_entry_index(entries, key, entries.len() as int);
    let j = entry_index(entries, key, entries.len() as int);
    let f = entries[j].1;
    assert(decreases_to!(node => node->Object_0));
    assert(decreases_to!(node->Object_0 => node->Object_0[j]));
    assert(decreases_to!(node->Object_0[j] => node->Object_0[j].1));
    assert(decreases_to!(f => f->Array_0));
    assert(decreases_to!(f->Array_0 => f->Array_0[i]));
}

/// The block device an lsblk JSON node describes: each field read from the
/// key lsblk writes it under, its children from the `children` array.
pub open spec fn block_device_of(node: JsonView) -> BlockDeviceView
    decreases node,
{
    let kids = items_of(field(node, "children"@));
    BlockDeviceView {
        path: text_of(field(node, "path"@)),
        device_type: text_of(field(node, "type"@)),
        size_bytes: number_of(field(node, "size"@)),
        start_sectors: number_of(field(node, "start"@)),
        fstype: text_of(field(node, "fstype"@)),
        label: text_of(field(node, "label"@)),
        mountpoints: texts_of(field(node, "mountpoints"@)),
        parttype: text_of(field(node, "parttype"@)),
        partuuid: text_of(field(node, "partuuid"@)),
        model: text_of(field(node, "model"@)),
        pttype: text_of(field(node, "pttype"@)),
        read_only: flag_of(field(node, "ro"@)),
        logical_sector_size: number_of(field(node, "log-sec"@)),
        children: Seq::new(kids.len(), |i: int| if 0 <= i < kids.len() {
            proof {
                lemma_item_below(node, "children"@, i);
            }
            block_device_of(kids[i])
        } else {
            empty_device_view()
        }),
    }
}

/// The devices an lsblk document lists under `blockdevices`.
pub open spec fn devices_of(root: JsonView) -> Seq<BlockDeviceView> {
    let items = items_of(field(root, "blockdevices"@));
    Seq::new(items.len(), |i: int| block_device_of(items[i]))
}

/// The install-target disks an lsblk document describes.
pub open spec fn lsblk_disks(root: JsonView) -> Seq<DiskSnapshotView> {
    disks_upto(devices_of(root), devices_of(root).len() as int)
}

/// The value under `key` in `node` (`None` where that value is `Null` because
/// the key or the object is missing); it lies below `node`.
pub fn field_of<'a>(node: &'a Json, key: &str) -> (r: Option<&'a Json>)
    ensures
        match r {
            Some(v) => v@ == field(node@, key@) && decreases_to!(*node => *v),
            None => field(node@, key@) == JsonView::Null,
        },
{
    match node {
        Json::Object(entries) => {
            proof {
                lemma_json_view(*node);
                lemma_entry_index(node@->Object_0, key@, entries@.len() as int);
            }
            let ghost es = node@->Object_0;
            let mut i: usize = 0;
            while i < entries.len()
                invariant
                    *node == Json::Object(*entries),
                    es == node@->Object_0,
                    es.len() == entries@.len(),
                    forall|k: int| 0 <= k < entries@.len() ==> #[trigger] es[k] == (entries@[k].0@, entries@[k].1@),
                    i <= entries@.len(),
                    forall|k: int| 0 <= k < i ==> (#[trigger] es[k]).0 != key@,
                decreases entries@.len() - i,
            {
                if str_eq(entries[i].0.as_str(), key) {
                    proof {
                        lemma_entry_index(es, key@, es.len() as int);
                        let j = entry_index(es, key@, es.len() as int);
                        assert(es[i as int].0 == key@);
                        assert(j == i);
                        assert(decreases_to!(*node => (*node)->Object_0));
                        assert(decreases_to!((*node)->Object_0 => (*node)->Object_0@));
                        assert(decreases_to!((*node)->Object_0@ => (*node)->Object_0@[i as int]));
                        assert(decreases_to!((*node)->Object_0@[i as int] => (*node)->Object_0@[i as int].1));
                    }
                    return Some(&entries[i].1);
                }
                i = i + 1;
            }
            None
        },
        _ => None,
    }
}

/// The text under `key`; empty when it is missing or no text.
pub fn text_field(node: &Json, key: &str) -> (s: String)
    ensures
        s@ == text_of(field(node@, key@)),
{
    match field_of(node, key) {
        Some(Json::Text(t)) => to_owned_string(t.as_str()),
        _ => String::new(),
    }
}

/// The number under `key`, written as a number or a decimal string; 0 otherwise.
pub fn number_field(node: &Json, key: &str) -> (n: u64)
    ensures
        n == number_of(field(node@, key@)),
{
    match field_of(node, key) {
        Some(Json::Number(Some(n))) => *n,
        Some(Json::Text(t)) => match parse_u64(t.as_str()) {
            Some(n) => n,
            None => 0,
        },
        _ => 0,
    }
}

/// The flag under `key`, written as a boolean or a number; unset otherwise.
pub fn flag_field(node: &Json, key: &str) -> (b: bool)
    ensures
        b == flag_of(field(node@, key@)),
{
    match field_of(node, key) {
        Some(Json::Bool(b)) => *b,
        Some(Json::Number(Some(n))) => *n != 0,
        _ => false,
    }
}

/// The text items of the array under `key`, in order.
pub fn text_items(node: &Json, key: &str) -> (r: Vec<String>)
    ensures
        r.deep_view() == texts_of(field(node@, key@)),
{
    let mut r: Vec<String> = Vec::new();
    match field_of(node, key) {
        Some(Json::Array(items)) => {
            let ghost v = items_of(field(node@, key@));
            proof {
                lemma_json_view(Json::Array(*items));
            }
            let mut i: usize = 0;
            while i < items.len()
                invariant
                    v.len() == items@.len(),
                    forall|k: int| 0 <= k < items@.len() ==> #[trigger] v[k] == items@[k]@,
                    i <= items@.len(),
                    r.deep_view() == texts_upto(v, i as int),
                decreases items@.len() - i,
            {
                let ghost before = r.deep_view();
                assert(v[i as int] == items@[i as int]@);
                match &items[i] {
                    Json::Text(t) => {
                        r.push(to_owned_string(t.as_str()));
                        assert(r.deep_view() =~= before.push(t@));
                    },
                    _ => {},
                }
                i = i + 1;
            }
        },
        _ => {},
    }
    r
}

/// The block device an lsblk JSON node describes, with its children.
pub fn block_device_from_json(node: &Json) -> (d: BlockDevice)
    ensures
        d@ == block_device_of(node@),
    decreases node,
{
    let mut children: Vec<BlockDevice> = Vec::new();
    let ghost kids = items_of(field(node@, "children"@));
    proof {
        reveal_strlit("children");
    }
    match field_of(node, "children") {
        Some(kid_node) => match kid_node {
            Json::Array(items) => {
                proof {
                    lemma_json_view(*kid_node);
                }
                let mut i: usize = 0;
                while i < items.len()
                    invariant
                        decreases_to!(*node => *kid_node),
                        *kid_node == Json::Array(*items),
                        kids.len() == items@.len(),
                        forall|k: int| 0 <= k < items@.len() ==> #[trigger] kids[k] == items@[k]@,
                        i <= items@.len(),
                        children@.len() == i,
                        forall|k: int| 0 <= k < i ==> #[trigger] children@[k]@ == block_device_of(kids[k]),
                    decreases items@.len() - i,
                {
                    proof {
                        assert(decreases_to!(*kid_node => (*kid_node)->Array_0));
                        assert(decreases_to!((*kid_node)->Array_0 => (*kid_node)->Array_0@));
                        assert(decreases_to!((*kid_node)->Array_0@ => items@[i as int]));
                    }
                    let child = block_device_from_json(&items[i]);
                    children.push(child);
                    i = i + 1;
                }
            },
            _ => {},
        },
        None => {},
    }
    let d = BlockDevice {
        path: text_field(node, "path"),
        device_type: text_field(node, "type"),
        size_bytes: number_field(node, "size"),
        start_sectors: number_field(node, "start"),
        fstype: text_field(node, "fstype"),
        label: text_field(node, "label"),
        mountpoints: text_items(node, "mountpoints"),
        parttype: text_field(node, "parttype"),
        partuuid: text_field(node, "partuuid"),
        model: text_field(node, "model"),
        pttype: text_field(node, "pttype"),
        read_only: flag_field(node, "ro"),
        logical_sector_size: number_field(node, "log-sec"),
        children,
    };
    proof {
        lemma_children_view(d);
        assert(d@.children =~= block_device_of(node@).children);
    }
    d
}

/// The install-target disks an lsblk JSON document describes: the devices
/// listed under `blockdevices` (none when that is missing or no array), each
/// read with its children, and the disks among them with their partitions
/// and free space.
pub fn disks_from_json(root: &Json) -> (ds: Vec<DiskSnapshot>)
    ensures
        disks_view(ds@) == lsblk_disks(root@),
{
    let ghost items = items_of(field(root@, "blockdevices"@));
    let mut devices: Vec<BlockDevice> = Vec::new();
    proof {
        reveal_strlit("blockdevices");
    }
    match field_of(root, "blockdevices") {
        Some(list) => match list {
            Json::Array(nodes) => {
                proof {
                    lemma_json_view(*list);
                }
                let mut i: usize = 0;
                while i < nodes.len()
                    invariant
                        items.len() == nodes@.len(),
                        forall|k: int| 0 <= k < nodes@.len() ==> #[trigger] items[k] == nodes@[k]@,
                        i <= nodes@.len(),
                        devices@.len() == i,
                        forall|k: int| 0 <= k < i ==> #[trigger] devices@[k]@ == block_device_of(items[k]),
                    decreases nodes@.len() - i,
                {
                    devices.push(block_device_from_json(&nodes[i]));
                    i = i + 1;
                }
            },
            _ => {},
        },
        None => {},
    }
    assert(devices_view(devices@) =~= devices_of(root@));
    disks_from_lsblk(&devices)
}

/// The install-target disks in `lsblk --bytes --json` output: an error when
/// the output is not a JSON document, else `disks_from_json` of it.
pub fn disks_from_lsblk_json(stdout: &[u8]) -> (r: Result<Vec<DiskSnapshot>, String>)
    ensures
        parsed_json(stdout@) is None <==> r is Err,
        r matches Err(m) ==> m@.subrange(0, 22) == "invalid lsblk output: "@,
        parsed_json(stdout@) matches Some(root) ==> (r matches Ok(ds) && disks_view(ds@) == lsblk_disks(root)),
{
    match parse_json(stdout) {
        Ok(root) => Ok(disks_from_json(&root)),
        Err(e) => {
            let mut m = to_owned_string("invalid lsblk output: ");
            m.append(e.as_str());
            proof {
                reveal_strlit("invalid lsblk output: ");
                assert(m@.subrange(0, 22) =~= "invalid lsblk output: "@);
            }
            Err(m)
        },
    }
}

} // verus!
