//! Structured values as wire trees, and back.

use crate::convert::gathered;
use crate::convert::lemma_gathered_ascending;
use crate::convert::lemma_present_all;
use crate::convert::present;
use crate::rpc::cbor::lemma_tree_view;
use crate::rpc::cbor::pairs_view;
use crate::rpc::cbor::tree_view;
use crate::rpc::cbor::trees_view;
use crate::rpc::cbor::Cbor;
use crate::rpc::cbor::CborView;
use crate::value::fields_view;
use crate::value::items_view;
use crate::value::lemma_array_view;
use crate::value::lemma_object_view;
use crate::value::object_put;
use crate::value::well_formed;
use crate::value::Bound;
use crate::value::BoundView;
use crate::value::Number;
use crate::value::Structured;
use crate::value::StructuredView;
use vstd::prelude::*;

verus! {

/// Tag of the absent value.
pub const TAG_ABSENT: u64 = 6;

/// Tag of a table name.
pub const TAG_TABLE: u64 = 7;

/// Tag of a record or a range of records.
pub const TAG_RECORD: u64 = 8;

/// Tag of an instant, in milliseconds from the Unix epoch.
pub const TAG_DATETIME: u64 = 12;

/// Tag of an identifier of sixteen bytes.
pub const TAG_UUID: u64 = 37;

/// Tag of the two bounds of a range.
pub const TAG_RANGE: u64 = 49;

/// Tag of a bound that belongs to its range.
pub const TAG_INCLUDED: u64 = 50;

/// Tag of a bound that does not belong to its range.
pub const TAG_EXCLUDED: u64 = 51;

/// The tree of one bound of a range.
pub open spec fn wire_bound(b: BoundView) -> CborView {
    match b {
        BoundView::Unbounded => CborView::Null,
        BoundView::Included(k) => CborView::Tag(TAG_INCLUDED, Box::new(CborView::Text(k))),
        BoundView::Excluded(k) => CborView::Tag(TAG_EXCLUDED, Box::new(CborView::Text(k))),
    }
}

/// The trees of the items of an array; empty for any other value.
pub open spec fn wire_items(v: StructuredView) -> Seq<CborView>
    decreases v, 0nat,
{
    match v {
        StructuredView::Array(items) => Seq::new(
            items.len(),
            |i: int|
                if 0 <= i < items.len() {
                    wire_of(items[i])
                } else {
                    CborView::Null
                },
        ),
        _ => Seq::empty(),
    }
}

/// The pairs of trees of the entries of an object, in the object's order;
/// empty for any other value.
pub open spec fn wire_fields(v: StructuredView) -> Seq<(CborView, CborView)>
    decreases v, 0nat,
{
    match v {
        StructuredView::Object(fields) => Seq::new(
            fields.len(),
            |i: int|
                if 0 <= i < fields.len() {
                    (CborView::Text(fields[i].0), wire_of(fields[i].1))
                } else {
                    (CborView::Null, CborView::Null)
                },
        ),
        _ => Seq::empty(),
    }
}

/// The tree that carries a structured value over the wire.
///
/// Integers and doubles stay apart. An object is a map whose pairs stand in
/// the order of the object's keys, so that one value has one tree. What the
/// encoding has no item of its own for travels under a tag.
pub open spec fn wire_of(v: StructuredView) -> CborView
    decreases v, 1nat,
{
    match v {
        StructuredView::Absent => CborView::Tag(TAG_ABSENT, Box::new(CborView::Null)),
        StructuredView::Null => CborView::Null,
        StructuredView::Bool(b) => CborView::Bool(b),
        StructuredView::Number(Number::Int(i)) => CborView::Integer(i as i128),
        StructuredView::Number(Number::Float(bits)) => CborView::Float(bits),
        StructuredView::Strand(s) => CborView::Text(s),
        StructuredView::Datetime(ms) => CborView::Tag(
            TAG_DATETIME,
            Box::new(CborView::Integer(ms as i128)),
        ),
        StructuredView::Uuid(id) => CborView::Tag(TAG_UUID, Box::new(CborView::Bytes(id))),
        StructuredView::Array(_) => CborView::Array(wire_items(v)),
        StructuredView::Object(_) => CborView::Entries(wire_fields(v)),
        StructuredView::Table(t) => CborView::Tag(TAG_TABLE, Box::new(CborView::Text(t))),
        StructuredView::Thing { tb, id } => CborView::Tag(
            TAG_RECORD,
            Box::new(CborView::Array(seq![CborView::Text(tb), CborView::Text(id)])),
        ),
        StructuredView::Range { tb, beg, end } => CborView::Tag(
            TAG_RECORD,
            Box::new(
                CborView::Array(
                    seq![
                        CborView::Text(tb),
                        CborView::Tag(
                            TAG_RANGE,
                            Box::new(CborView::Array(seq![wire_bound(beg), wire_bound(end)])),
                        ),
                    ],
                ),
            ),
        ),
    }
}

/// The bound that a tree stands for, if it stands for one.
pub open spec fn read_bound(c: CborView) -> Option<BoundView> {
    match c {
        CborView::Null => Some(BoundView::Unbounded),
        CborView::Tag(tag, inner) => match *inner {
            CborView::Text(k) => if tag == TAG_INCLUDED {
                Some(BoundView::Included(k))
            } else if tag == TAG_EXCLUDED {
                Some(BoundView::Excluded(k))
            } else {
                None
            },
            _ => None,
        },
        _ => None,
    }
}

/// The record or range that the content of a record tag stands for.
pub open spec fn read_record(inner: CborView) -> Option<StructuredView> {
    match inner {
        CborView::Array(parts) => if parts.len() == 2 {
            match (parts[0], parts[1]) {
                (CborView::Text(tb), CborView::Text(id)) => Some(StructuredView::Thing { tb, id }),
                (CborView::Text(tb), CborView::Tag(tag, bounds)) => match *bounds {
                    CborView::Array(pair) => if tag == TAG_RANGE && pair.len() == 2 {
                        match (read_bound(pair[0]), read_bound(pair[1])) {
                            (Some(beg), Some(end)) => Some(
                                StructuredView::Range { tb, beg, end },
                            ),
                            _ => None,
                        }
                    } else {
                        None
                    },
                    _ => None,
                },
                _ => None,
            }
        } else {
            None
        },
        _ => None,
    }
}

/// The value that a tagged tree stands for, if the tag is known and its
/// content has the shape the tag asks for.
pub open spec fn read_tagged(tag: u64, inner: CborView) -> Option<StructuredView> {
    if tag == TAG_ABSENT {
        if inner is Null {
            Some(StructuredView::Absent)
        } else {
            None
        }
    } else if tag == TAG_DATETIME {
        match inner {
            CborView::Integer(ms) => if i64::MIN <= ms <= i64::MAX {
                Some(StructuredView::Datetime(ms as i64))
            } else {
                None
            },
            _ => None,
        }
    } else if tag == TAG_UUID {
        match inner {
            CborView::Bytes(id) => if id.len() == 16 {
                Some(StructuredView::Uuid(id))
            } else {
                None
            },
            _ => None,
        }
    } else if tag == TAG_TABLE {
        match inner {
            CborView::Text(t) => Some(StructuredView::Table(t)),
            _ => None,
        }
    } else if tag == TAG_RECORD {
        read_record(inner)
    } else {
        None
    }
}

/// What each item of an array tree stands for.
pub open spec fn read_items(c: CborView) -> Seq<Option<StructuredView>>
    decreases c, 0nat,
{
    match c {
        CborView::Array(items) => Seq::new(
            items.len(),
            |i: int|
                if 0 <= i < items.len() {
                    value_of(items[i])
                } else {
                    None
                },
        ),
        _ => Seq::empty(),
    }
}

/// What each pair of a map tree stands for: a key and a value where the
/// key is text and the value stands for something.
pub open spec fn read_fields(c: CborView) -> Seq<Option<(Seq<char>, StructuredView)>>
    decreases c, 0nat,
{
    match c {
        CborView::Entries(pairs) => Seq::new(
            pairs.len(),
            |i: int|
                if 0 <= i < pairs.len() {
                    match (pairs[i].0, value_of(pairs[i].1)) {
                        (CborView::Text(k), Some(v)) => Some((k, v)),
                        _ => None,
                    }
                } else {
                    None
                },
        ),
        _ => Seq::empty(),
    }
}

/// No entry is missing.
pub open spec fn complete<T>(entries: Seq<Option<T>>) -> bool {
    forall|i: int| 0 <= i < entries.len() ==> (#[trigger] entries[i]) is Some
}

/// The structured value that a tree stands for; nothing where the tree
/// holds an item that stands for no value: bytes outside a tag, an integer
/// beyond sixty-four bits, an unknown tag, a map key that is no text.
pub open spec fn value_of(c: CborView) -> Option<StructuredView>
    decreases c, 1nat,
{
    match c {
        CborView::Null => Some(StructuredView::Null),
        CborView::Bool(b) => Some(StructuredView::Bool(b)),
        CborView::Integer(i) => if i64::MIN <= i <= i64::MAX {
            Some(StructuredView::Number(Number::Int(i as i64)))
        } else {
            None
        },
        CborView::Float(bits) => Some(StructuredView::Number(Number::Float(bits))),
        CborView::Text(s) => Some(StructuredView::Strand(s)),
        CborView::Bytes(_) => None,
        CborView::Tag(tag, inner) => read_tagged(tag, *inner),
        CborView::Array(_) => if complete(read_items(c)) {
            Some(StructuredView::Array(present(read_items(c))))
        } else {
            None
        },
        CborView::Entries(_) => if complete(read_fields(c)) {
            Some(StructuredView::Object(gathered(read_fields(c))))
        } else {
            None
        },
    }
}

/// `wire_items`, `wire_fields`, `read_items` and `read_fields` entry by
/// entry.
pub proof fn lemma_entrywise(v: StructuredView, c: CborView)
    ensures
        v matches StructuredView::Array(items) ==> wire_items(v) == items.map_values(
            |x: StructuredView| wire_of(x),
        ),
        v matches StructuredView::Object(fields) ==> wire_fields(v) == fields.map_values(
            |e: (Seq<char>, StructuredView)| (CborView::Text(e.0), wire_of(e.1)),
        ),
        c matches CborView::Array(items) ==> read_items(c) == items.map_values(
            |x: CborView| value_of(x),
        ),
        c matches CborView::Entries(pairs) ==> read_fields(c) == pairs.map_values(
            |e: (CborView, CborView)| read_field(e),
        ),
{
    match v {
        StructuredView::Array(items) => {
            assert(wire_items(v) =~= items.map_values(|x: StructuredView| wire_of(x)));
        },
        StructuredView::Object(fields) => {
            assert(wire_fields(v) =~= fields.map_values(
                |e: (Seq<char>, StructuredView)| (CborView::Text(e.0), wire_of(e.1)),
            ));
        },
        _ => {},
    }
    match c {
        CborView::Array(items) => {
            assert(read_items(c) =~= items.map_values(|x: CborView| value_of(x)));
        },
        CborView::Entries(pairs) => {
            assert(read_fields(c) =~= pairs.map_values(
                |e: (CborView, CborView)| read_field(e),
            ));
        },
        _ => {},
    }
}

/// What one pair of a map tree stands for.
pub open spec fn read_field(e: (CborView, CborView)) -> Option<(Seq<char>, StructuredView)> {
    match (e.0, value_of(e.1)) {
        (CborView::Text(k), Some(v)) => Some((k, v)),
        _ => None,
    }
}

/// Every identifier inside `v`, at any depth, has sixteen bytes.
pub open spec fn sound(v: StructuredView) -> bool
    decreases v,
{
    match v {
        StructuredView::Uuid(id) => id.len() == 16,
        StructuredView::Array(items) => forall|i: int|
            0 <= i < items.len() ==> sound(#[trigger] items[i]),
        StructuredView::Object(fields) => forall|i: int|
            0 <= i < fields.len() ==> sound((#[trigger] fields[i]).1),
        _ => true,
    }
}

/// A well-formed value read back from its own tree is the same value: the
/// wire loses nothing, and integers and doubles stay what they were.
pub proof fn lemma_wire_round_trip(v: StructuredView)
    requires
        well_formed(v),
        sound(v),
    ensures
        value_of(wire_of(v)) == Some(v),
    decreases v,
{
    lemma_entrywise(v, wire_of(v));
    match v {
        StructuredView::Array(items) => {
            let trees = items.map_values(|x: StructuredView| wire_of(x));
            let back = trees.map_values(|x: CborView| value_of(x));
            assert forall|i: int| 0 <= i < items.len() implies #[trigger] back[i] == Some(
                items[i],
            ) by {
                lemma_wire_round_trip(items[i]);
            }
            lemma_present_all(back, items);
        },
        StructuredView::Object(fields) => {
            let pairs = fields.map_values(
                |e: (Seq<char>, StructuredView)| (CborView::Text(e.0), wire_of(e.1)),
            );
            let back = pairs.map_values(|e: (CborView, CborView)| read_field(e));
            assert forall|i: int| 0 <= i < fields.len() implies #[trigger] back[i] == Some(
                fields[i],
            ) by {
                lemma_wire_round_trip(fields[i].1);
            }
            lemma_gathered_ascending(back, fields);
        },
        StructuredView::Thing { tb, id } => {
            let parts = seq![CborView::Text(tb), CborView::Text(id)];
            assert(parts.len() == 2);
        },
        StructuredView::Range { tb, beg, end } => {
            let pair = seq![wire_bound(beg), wire_bound(end)];
            assert(pair.len() == 2);
            assert(read_bound(pair[0]) == Some(beg));
            assert(read_bound(pair[1]) == Some(end));
        },
        _ => {},
    }
}

/// Builds the tree of one bound of a range.
fn bound_to_cbor(b: &Bound) -> (c: Cbor)
    ensures
        c@ == wire_bound(b@),
{
    proof {
        reveal_with_fuel(tree_view, 3);
    }
    match b {
        Bound::Unbounded => Cbor::Null,
        Bound::Included(k) => Cbor::Tag(TAG_INCLUDED, Box::new(Cbor::Text(k.clone()))),
        Bound::Excluded(k) => Cbor::Tag(TAG_EXCLUDED, Box::new(Cbor::Text(k.clone()))),
    }
}

/// Builds the array tree of two trees.
fn pair_tree(first: Cbor, second: Cbor) -> (c: Cbor)
    ensures
        c@ == CborView::Array(seq![first@, second@]),
{
    let mut parts: Vec<Cbor> = Vec::new();
    parts.push(first);
    parts.push(second);
    proof {
        lemma_tree_view(Cbor::Array(parts));
        assert(trees_view(parts@) =~= seq![first@, second@]);
    }
    Cbor::Array(parts)
}

/// Builds the tree that carries a structured value over the wire.
pub fn to_cbor(v: &Structured) -> (c: Cbor)
    ensures
        c@ == wire_of(v@),
    decreases v,
{
    proof {
        lemma_entrywise(v@, CborView::Null);
        reveal_with_fuel(tree_view, 3);
    }
    match v {
        Structured::Absent => Cbor::Tag(TAG_ABSENT, Box::new(Cbor::Null)),
        Structured::Null => Cbor::Null,
        Structured::Bool(b) => Cbor::Bool(*b),
        Structured::Number(Number::Int(i)) => Cbor::Integer(*i as i128),
        Structured::Number(Number::Float(bits)) => Cbor::Float(*bits),
        Structured::Strand(s) => Cbor::Text(s.clone()),
        Structured::Datetime(ms) => Cbor::Tag(TAG_DATETIME, Box::new(Cbor::Integer(*ms as i128))),
        Structured::Uuid(id) => {
            let mut bytes: Vec<u8> = Vec::new();
            let mut i: usize = 0;
            while i < 16
                invariant
                    i <= 16,
                    bytes@.len() == i,
                    forall|j: int| 0 <= j < i ==> bytes@[j] == id@[j],
                decreases 16 - i,
            {
                bytes.push(id[i]);
                i = i + 1;
            }
            assert(bytes@ =~= id@);
            Cbor::Tag(TAG_UUID, Box::new(Cbor::Bytes(bytes)))
        },
        Structured::Array(items) => {
            let mut out: Vec<Cbor> = Vec::new();
            let mut i: usize = 0;
            while i < items.len()
                invariant
                    i <= items.len(),
                    decreases_to!(v => items),
                    out@.len() == i,
                    forall|j: int| 0 <= j < i ==> out@[j]@ == wire_of(items@[j]@),
                decreases items.len() - i,
            {
                proof {
                    vstd::std_specs::vec::axiom_vec_index_decreases(*items, i as int);
                }
                let tree = to_cbor(&items[i]);
                out.push(tree);
                i = i + 1;
            }
            proof {
                lemma_array_view(*items);
                lemma_tree_view(Cbor::Array(out));
                assert(trees_view(out@) =~= items_view(items@).map_values(
                    |x: StructuredView| wire_of(x),
                ));
            }
            Cbor::Array(out)
        },
        Structured::Object(entries) => {
            let mut out: Vec<(Cbor, Cbor)> = Vec::new();
            let mut i: usize = 0;
            while i < entries.len()
                invariant
                    i <= entries.len(),
                    decreases_to!(v => entries),
                    out@.len() == i,
                    forall|j: int|
                        0 <= j < i ==> out@[j].0@ == CborView::Text(entries@[j].0@) && out@[j].1@
                            == wire_of(entries@[j].1@),
                decreases entries.len() - i,
            {
                proof {
                    vstd::std_specs::vec::axiom_vec_index_decreases(*entries, i as int);
                }
                let tree = to_cbor(&entries[i].1);
                out.push((Cbor::Text(entries[i].0.clone()), tree));
                i = i + 1;
            }
            proof {
                lemma_object_view(*entries);
                lemma_tree_view(Cbor::Entries(out));
                assert(pairs_view(out@) =~= fields_view(entries@).map_values(
                    |e: (Seq<char>, StructuredView)| (CborView::Text(e.0), wire_of(e.1)),
                ));
            }
            Cbor::Entries(out)
        },
        Structured::Table(t) => Cbor::Tag(TAG_TABLE, Box::new(Cbor::Text(t.clone()))),
        Structured::Thing { tb, id } => Cbor::Tag(
            TAG_RECORD,
            Box::new(pair_tree(Cbor::Text(tb.clone()), Cbor::Text(id.clone()))),
        ),
        Structured::Range { tb, beg, end } => {
            let bounds = pair_tree(bound_to_cbor(beg), bound_to_cbor(end));
            Cbor::Tag(
                TAG_RECORD,
                Box::new(pair_tree(Cbor::Text(tb.clone()), Cbor::Tag(TAG_RANGE, Box::new(bounds)))),
            )
        },
    }
}

/// Reads one bound of a range from its tree.
fn bound_from_cbor(c: &Cbor) -> (r: Option<Bound>)
    ensures
        r is Some <==> read_bound(c@) is Some,
        r matches Some(b) ==> Some(b@) == read_bound(c@),
{
    proof {
        reveal_with_fuel(tree_view, 3);
    }
    match c {
        Cbor::Null => Some(Bound::Unbounded),
        Cbor::Tag(tag, inner) => match &**inner {
            Cbor::Text(k) => if *tag == TAG_INCLUDED {
                Some(Bound::Included(k.clone()))
            } else if *tag == TAG_EXCLUDED {
                Some(Bound::Excluded(k.clone()))
            } else {
                None
            },
            _ => None,
        },
        _ => None,
    }
}

/// Reads a record or a range from the content of a record tag.
fn record_from_cbor(inner: &Cbor) -> (r: Option<Structured>)
    ensures
        r is Some <==> read_record(inner@) is Some,
        r matches Some(v) ==> Some(v@) == read_record(inner@),
{
    proof {
        lemma_tree_view(*inner);
        reveal_with_fuel(tree_view, 3);
    }
    match inner {
        Cbor::Array(parts) => {
            if parts.len() != 2 {
                return None;
            }
            assert(inner@->Array_0[0] == parts@[0]@);
            assert(inner@->Array_0[1] == parts@[1]@);
            match (&parts[0], &parts[1]) {
                (Cbor::Text(tb), Cbor::Text(id)) => Some(
                    Structured::Thing { tb: tb.clone(), id: id.clone() },
                ),
                (Cbor::Text(tb), Cbor::Tag(tag, bounds)) => {
                    proof {
                        lemma_tree_view(**bounds);
                    }
                    match &**bounds {
                        Cbor::Array(pair) => {
                            if *tag != TAG_RANGE || pair.len() != 2 {
                                return None;
                            }
                            assert(bounds@->Array_0[0] == pair@[0]@);
                            assert(bounds@->Array_0[1] == pair@[1]@);
                            match (bound_from_cbor(&pair[0]), bound_from_cbor(&pair[1])) {
                                (Some(beg), Some(end)) => Some(
                                    Structured::Range { tb: tb.clone(), beg, end },
                                ),
                                _ => None,
                            }
                        },
                        _ => None,
                    }
                },
                _ => None,
            }
        },
        _ => None,
    }
}

/// Reads the value of a tagged tree.
fn tagged_from_cbor(tag: u64, inner: &Cbor) -> (r: Option<Structured>)
    ensures
        r is Some <==> read_tagged(tag, inner@) is Some,
        r matches Some(v) ==> Some(v@) == read_tagged(tag, inner@),
{
    proof {
        reveal_with_fuel(tree_view, 3);
    }
    if tag == TAG_ABSENT {
        match inner {
            Cbor::Null => Some(Structured::Absent),
            _ => None,
        }
    } else if tag == TAG_DATETIME {
        match inner {
            Cbor::Integer(ms) => if -0x8000_0000_0000_0000 <= *ms && *ms <= 0x7fff_ffff_ffff_ffff {
                Some(Structured::Datetime(*ms as i64))
            } else {
                None
            },
            _ => None,
        }
    } else if tag == TAG_UUID {
        match inner {
            Cbor::Bytes(b) => if b.len() == 16 {
                let id: [u8; 16] = [
                    b[0],
                    b[1],
                    b[2],
                    b[3],
                    b[4],
                    b[5],
                    b[6],
                    b[7],
                    b[8],
                    b[9],
                    b[10],
                    b[11],
                    b[12],
                    b[13],
                    b[14],
                    b[15],
                ];
                assert(id@ =~= b@);
                Some(Structured::Uuid(id))
            } else {
                None
            },
            _ => None,
        }
    } else if tag == TAG_TABLE {
        match inner {
            Cbor::Text(t) => Some(Structured::Table(t.clone())),
            _ => None,
        }
    } else if tag == TAG_RECORD {
        record_from_cbor(inner)
    } else {
        None
    }
}

/// Reads the structured value that a tree stands for.
pub fn from_cbor(c: &Cbor) -> (r: Option<Structured>)
    ensures
        r is Some <==> value_of(c@) is Some,
        r matches Some(v) ==> Some(v@) == value_of(c@),
    decreases c,
{
    proof {
        lemma_tree_view(*c);
        lemma_entrywise(StructuredView::Null, c@);
    }
    match c {
        Cbor::Null => Some(Structured::Null),
        Cbor::Bool(b) => Some(Structured::Bool(*b)),
        Cbor::Integer(i) => if -0x8000_0000_0000_0000 <= *i && *i <= 0x7fff_ffff_ffff_ffff {
            Some(Structured::Number(Number::Int(*i as i64)))
        } else {
            None
        },
        Cbor::Float(bits) => Some(Structured::Number(Number::Float(*bits))),
        Cbor::Text(s) => Some(Structured::Strand(s.clone())),
        Cbor::Bytes(_) => None,
        Cbor::Tag(tag, inner) => tagged_from_cbor(*tag, &**inner),
        Cbor::Array(items) => {
            let ghost mapped = trees_view(items@).map_values(|x: CborView| value_of(x));
            let mut out: Vec<Structured> = Vec::new();
            let mut i: usize = 0;
            assert(mapped.take(0) =~= Seq::empty());
            assert(items_view(out@) =~= Seq::empty());
            while i < items.len()
                invariant
                    i <= items.len(),
                    decreases_to!(c => items),
                    mapped == trees_view(items@).map_values(|x: CborView| value_of(x)),
                    value_of(c@) is Some ==> complete(mapped),
                    forall|j: int| 0 <= j < i ==> (#[trigger] mapped[j]) is Some,
                    items_view(out@) == present(mapped.take(i as int)),
                decreases items.len() - i,
            {
                proof {
                    vstd::std_specs::vec::axiom_vec_index_decreases(*items, i as int);
                    assert(mapped.take(i + 1).drop_last() =~= mapped.take(i as int));
                    assert(mapped.take(i + 1).last() == value_of(items@[i as int]@));
                }
                let ghost before = items_view(out@);
                match from_cbor(&items[i]) {
                    Some(value) => {
                        out.push(value);
                        assert(items_view(out@) =~= before.push(value@));
                    },
                    None => {
                        assert(mapped[i as int] is None);
                        return None;
                    },
                }
                i = i + 1;
            }
            proof {
                assert(mapped.take(items.len() as int) =~= mapped);
                lemma_array_view(out);
            }
            Some(Structured::Array(out))
        },
        Cbor::Entries(entries) => {
            let ghost mapped = pairs_view(entries@).map_values(
                |e: (CborView, CborView)| read_field(e),
            );
            let mut out: Vec<(String, Structured)> = Vec::new();
            let mut i: usize = 0;
            assert(mapped.take(0) =~= Seq::empty());
            assert(fields_view(out@) =~= Seq::empty());
            while i < entries.len()
                invariant
                    i <= entries.len(),
                    decreases_to!(c => entries),
                    mapped == pairs_view(entries@).map_values(
                        |e: (CborView, CborView)| read_field(e),
                    ),
                    value_of(c@) is Some ==> complete(mapped),
                    forall|j: int| 0 <= j < i ==> (#[trigger] mapped[j]) is Some,
                    fields_view(out@) == gathered(mapped.take(i as int)),
                decreases entries.len() - i,
            {
                proof {
                    vstd::std_specs::vec::axiom_vec_index_decreases(*entries, i as int);
                    assert(mapped.take(i + 1).drop_last() =~= mapped.take(i as int));
                    assert(mapped.take(i + 1).last() == read_field(
                        (entries@[i as int].0@, entries@[i as int].1@),
                    ));
                }
                match &entries[i].0 {
                    Cbor::Text(key) => {
                        match from_cbor(&entries[i].1) {
                            Some(value) => {
                                object_put(&mut out, key.clone(), value);
                            },
                            None => {
                                assert(mapped[i as int] is None);
                                return None;
                            },
                        }
                    },
                    _ => {
                        assert(mapped[i as int] is None);
                        return None;
                    },
                }
                i = i + 1;
            }
            proof {
                assert(mapped.take(entries.len() as int) =~= mapped);
                lemma_object_view(out);
            }
            Some(Structured::Object(out))
        },
    }
}

/// Whatever a tree stands for is well formed and sound: reading never
/// yields an object with keys out of order or an identifier of the wrong
/// length.
pub proof fn lemma_read_well_formed(c: CborView)
    ensures
        value_of(c) matches Some(v) ==> (well_formed(v) && sound(v)),
    decreases c,
{
    lemma_entrywise(StructuredView::Null, c);
    match c {
        CborView::Array(items) => {
            let read = items.map_values(|x: CborView| value_of(x));
            if complete(read) {
                assert forall|i: int| 0 <= i < read.len() implies (#[trigger] read[i]) is Some
                    && well_formed(read[i]->0) && sound(read[i]->0) by {
                    lemma_read_well_formed(items[i]);
                }
                lemma_present_keeps(read);
            }
        },
        CborView::Entries(pairs) => {
            let read = pairs.map_values(|e: (CborView, CborView)| read_field(e));
            if complete(read) {
                assert forall|i: int| 0 <= i < read.len() implies (#[trigger] read[i]) is Some
                    && well_formed((read[i]->0).1) && sound((read[i]->0).1) by {
                    lemma_read_well_formed(pairs[i].1);
                }
                lemma_gathered_keeps(read);
                crate::convert::lemma_gathered_ascends(read);
            }
        },
        _ => {},
    }
}

/// Where every entry is present, well formed and sound, so is every item
/// that `present` keeps.
pub proof fn lemma_present_keeps(entries: Seq<Option<StructuredView>>)
    requires
        forall|i: int|
            0 <= i < entries.len() ==> (#[trigger] entries[i]) is Some && well_formed(
                entries[i]->0,
            ) && sound(entries[i]->0),
    ensures
        forall|i: int|
            0 <= i < present(entries).len() ==> well_formed(#[trigger] present(entries)[i])
                && sound(present(entries)[i]),
    decreases entries.len(),
{
    if entries.len() > 0 {
        let rest = entries.drop_last();
        assert forall|i: int| 0 <= i < rest.len() implies (#[trigger] rest[i]) is Some
            && well_formed(rest[i]->0) && sound(rest[i]->0) by {
            assert(rest[i] == entries[i]);
        }
        lemma_present_keeps(rest);
        assert forall|i: int| 0 <= i < present(entries).len() implies well_formed(
            #[trigger] present(entries)[i],
        ) && sound(present(entries)[i]) by {
            if i < present(rest).len() {
                assert(present(entries)[i] == present(rest)[i]);
            } else {
                assert(entries[entries.len() - 1] is Some);
            }
        }
    }
}

/// Where every entry is present and holds a well-formed and sound value,
/// so does every field that `gathered` keeps.
pub proof fn lemma_gathered_keeps(entries: Seq<Option<(Seq<char>, StructuredView)>>)
    requires
        forall|i: int|
            0 <= i < entries.len() ==> (#[trigger] entries[i]) is Some && well_formed(
                (entries[i]->0).1,
            ) && sound((entries[i]->0).1),
    ensures
        forall|i: int|
            0 <= i < gathered(entries).len() ==> well_formed((#[trigger] gathered(entries)[i]).1)
                && sound(gathered(entries)[i].1),
    decreases entries.len(),
{
    if entries.len() > 0 {
        let rest = entries.drop_last();
        assert forall|i: int| 0 <= i < rest.len() implies (#[trigger] rest[i]) is Some
            && well_formed((rest[i]->0).1) && sound((rest[i]->0).1) by {
            assert(rest[i] == entries[i]);
        }
        lemma_gathered_keeps(rest);
        assert(entries[entries.len() - 1] is Some);
        crate::value::lemma_rank(gathered(rest), (entries.last()->0).0);
    }
}

} // verus!
