//! Trees of the self-describing binary encoding, and their bytes.

use ciborium::Value as Raw;
use vstd::prelude::*;

verus! {

/// One item of the binary encoding. A `Float` is a double kept as its bit
/// pattern.
#[derive(Debug, PartialEq, Eq)]
pub enum Cbor {
    Integer(i128),
    Bytes(Vec<u8>),
    Float(u64),
    Text(String),
    Bool(bool),
    Null,
    Tag(u64, Box<Cbor>),
    Array(Vec<Cbor>),
    Entries(Vec<(Cbor, Cbor)>),
}

/// Mathematical form of a [`Cbor`] tree.
pub enum CborView {
    Integer(i128),
    Bytes(Seq<u8>),
    Float(u64),
    Text(Seq<char>),
    Bool(bool),
    Null,
    Tag(u64, Box<CborView>),
    Array(Seq<CborView>),
    Entries(Seq<(CborView, CborView)>),
}

/// The views of the items of an array; empty for any other tree.
pub open spec fn array_items(c: Cbor) -> Seq<CborView>
    decreases c, 0nat,
{
    match c {
        Cbor::Array(items) => Seq::new(
            items@.len(),
            |i: int|
                if 0 <= i < items@.len() {
                    tree_view(items@[i])
                } else {
                    CborView::Null
                },
        ),
        _ => Seq::empty(),
    }
}

/// The views of the pairs of a map; empty for any other tree.
pub open spec fn map_pairs(c: Cbor) -> Seq<(CborView, CborView)>
    decreases c, 0nat,
{
    match c {
        Cbor::Entries(entries) => Seq::new(
            entries@.len(),
            |i: int|
                if 0 <= i < entries@.len() {
                    (tree_view(entries@[i].0), tree_view(entries@[i].1))
                } else {
                    (CborView::Null, CborView::Null)
                },
        ),
        _ => Seq::empty(),
    }
}

/// Mathematical form of a tree.
pub open spec fn tree_view(c: Cbor) -> CborView
    decreases c, 1nat,
{
    match c {
        Cbor::Integer(i) => CborView::Integer(i),
        Cbor::Bytes(b) => CborView::Bytes(b@),
        Cbor::Float(bits) => CborView::Float(bits),
        Cbor::Text(s) => CborView::Text(s@),
        Cbor::Bool(b) => CborView::Bool(b),
        Cbor::Null => CborView::Null,
        Cbor::Tag(tag, inner) => CborView::Tag(tag, Box::new(tree_view(*inner))),
        Cbor::Array(_) => CborView::Array(array_items(c)),
        Cbor::Entries(_) => CborView::Entries(map_pairs(c)),
    }
}

impl View for Cbor {
    type V = CborView;

    open spec fn view(&self) -> CborView {
        tree_view(*self)
    }
}

/// Mathematical form of a list of trees.
pub open spec fn trees_view(items: Seq<Cbor>) -> Seq<CborView> {
    Seq::new(items.len(), |i: int| items[i]@)
}

/// Mathematical form of a list of pairs of trees.
pub open spec fn pairs_view(entries: Seq<(Cbor, Cbor)>) -> Seq<(CborView, CborView)> {
    Seq::new(entries.len(), |i: int| (entries[i].0@, entries[i].1@))
}

/// The views of arrays and maps are the views of what they hold.
pub proof fn lemma_tree_view(c: Cbor)
    ensures
        c matches Cbor::Array(items) ==> c@ == CborView::Array(trees_view(items@)),
        c matches Cbor::Entries(entries) ==> c@ == CborView::Entries(pairs_view(entries@)),
{
    match c {
        Cbor::Array(items) => {
            assert(array_items(c) =~= trees_view(items@));
        },
        Cbor::Entries(entries) => {
            assert(map_pairs(c) =~= pairs_view(entries@));
        },
        _ => {},
    }
}

/// The tree that the decoder reads from the front of `bytes`; nothing where
/// the bytes do not start with a well-formed item.
pub uninterp spec fn tree_of(bytes: Seq<u8>) -> Option<CborView>;

/// The bytes that the encoder writes for a tree.
pub uninterp spec fn bytes_of(tree: CborView) -> Seq<u8>;

/// The value type of the ciborium crate, handed between the wrappers below
/// and never looked into by verified code.
#[verifier::external_type_specification]
#[verifier::external_body]
pub struct ExWireValue(ciborium::Value);

/// Copies a decoded `ciborium::Value` into a tree, variant by variant. The
/// decoder of this version yields no other variants than the nine named
/// here.
#[verifier::external_body]
fn lift(raw: ciborium::Value) -> Cbor {
    match raw {
        Raw::Integer(i) => Cbor::Integer(i.into()),
        Raw::Bytes(b) => Cbor::Bytes(b),
        Raw::Float(x) => Cbor::Float(x.to_bits()),
        Raw::Text(s) => Cbor::Text(s),
        Raw::Bool(b) => Cbor::Bool(b),
        Raw::Tag(t, inner) => Cbor::Tag(t, Box::new(lift(*inner))),
        Raw::Array(a) => Cbor::Array(a.into_iter().map(lift).collect()),
        Raw::Map(m) => Cbor::Entries(m.into_iter().map(|(k, v)| (lift(k), lift(v))).collect()),
        _ => Cbor::Null,
    }
}

/// Reads one item with `ciborium::from_reader`, which fails on bytes that do
/// not start with a well-formed item. What it reads is left to [`tree_of`].
#[verifier::external_body]
pub(crate) fn decode_tree(bytes: &[u8]) -> (r: Option<Cbor>)
    ensures
        r is Some <==> tree_of(bytes@) is Some,
        r matches Some(tree) ==> Some(tree@) == tree_of(bytes@),
{
    ciborium::from_reader::<Raw, _>(bytes).ok().map(lift)
}

/// Makes the float item with the given bit pattern by having
/// `ciborium::from_reader` read its nine-byte encoding.
#[verifier::external_body]
fn float_item(bits: u64) -> ciborium::Value {
    let b = bits.to_be_bytes();
    let wire = [0xfb_u8, b[0], b[1], b[2], b[3], b[4], b[5], b[6], b[7]];
    ciborium::from_reader(&wire[..]).unwrap_or(Raw::Null)
}

/// Copies a tree into a `ciborium::Value`, variant by variant. An integer
/// goes through `Value::from`, which takes every 128-bit integer.
#[verifier::external_body]
fn lower(tree: &Cbor) -> ciborium::Value {
    match tree {
        Cbor::Integer(i) => Raw::from(*i),
        Cbor::Bytes(b) => Raw::Bytes(b.clone()),
        Cbor::Float(bits) => float_item(*bits),
        Cbor::Text(s) => Raw::Text(s.clone()),
        Cbor::Bool(b) => Raw::Bool(*b),
        Cbor::Null => Raw::Null,
        Cbor::Tag(t, inner) => Raw::Tag(*t, Box::new(lower(inner))),
        Cbor::Array(a) => Raw::Array(a.iter().map(lower).collect()),
        Cbor::Entries(m) => Raw::Map(m.iter().map(|e| (lower(&e.0), lower(&e.1))).collect()),
    }
}

/// Writes a tree with `ciborium::into_writer`. Writing into a vector does
/// not fail; the bytes written are left to [`bytes_of`].
#[verifier::external_body]
pub(crate) fn encode_tree(tree: &Cbor) -> (r: Vec<u8>)
    ensures
        r@ == bytes_of(tree@),
{
    let mut out = Vec::new();
    let _ = ciborium::into_writer(&lower(tree), &mut out);
    out
}

} // verus!
