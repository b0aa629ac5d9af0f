//! The structured value model that the bridge shares with the engine.

use crate::text::lemma_lex_irreflexive;
use crate::text::lemma_lex_total;
use crate::text::lemma_lex_transitive;
use crate::text::lex_lt;
use crate::text::str_lt;
use vstd::prelude::*;

verus! {

/// A number: an integer, or a double kept as its IEEE 754 bit pattern so
/// that it crosses every boundary unchanged.
#[derive(Clone, Copy, Debug, PartialEq, Eq, Structural)]
pub enum Number {
    Int(i64),
    Float(u64),
}

/// One end of a range of record keys.
#[derive(Debug, PartialEq, Eq)]
pub enum Bound {
    Unbounded,
    Included(String),
    Excluded(String),
}

/// Mathematical form of a [`Bound`].
pub enum BoundView {
    Unbounded,
    Included(Seq<char>),
    Excluded(Seq<char>),
}

impl View for Bound {
    type V = BoundView;

    open spec fn view(&self) -> BoundView {
        match self {
            Bound::Unbounded => BoundView::Unbounded,
            Bound::Included(k) => BoundView::Included(k@),
            Bound::Excluded(k) => BoundView::Excluded(k@),
        }
    }
}

impl Clone for Bound {
    fn clone(&self) -> (r: Self)
        ensures
            r@ == self@,
    {
        match self {
            Bound::Unbounded => Bound::Unbounded,
            Bound::Included(k) => Bound::Included(k.clone()),
            Bound::Excluded(k) => Bound::Excluded(k.clone()),
        }
    }
}

/// A structured value. `Absent` and `Null` are different values. The
/// entries of an `Object` are kept in ascending order of their keys, each
/// key once; a `Datetime` counts milliseconds from the Unix epoch in UTC; a
/// `Uuid` holds the sixteen bytes of an identifier, highest first.
#[derive(Debug, PartialEq, Eq)]
pub enum Structured {
    Absent,
    Null,
    Bool(bool),
    Number(Number),
    Strand(String),
    Datetime(i64),
    Uuid([u8; 16]),
    Array(Vec<Structured>),
    Object(Vec<(String, Structured)>),
    Table(String),
    Thing { tb: String, id: String },
    Range { tb: String, beg: Bound, end: Bound },
}

/// Mathematical form of a [`Structured`].
pub enum StructuredView {
    Absent,
    Null,
    Bool(bool),
    Number(Number),
    Strand(Seq<char>),
    Datetime(i64),
    Uuid(Seq<u8>),
    Array(Seq<StructuredView>),
    Object(Seq<(Seq<char>, StructuredView)>),
    Table(Seq<char>),
    Thing { tb: Seq<char>, id: Seq<char> },
    Range { tb: Seq<char>, beg: BoundView, end: BoundView },
}

/// Entries of an object in mathematical form.
pub type Fields = Seq<(Seq<char>, StructuredView)>;

impl View for Structured {
    type V = StructuredView;

    open spec fn view(&self) -> StructuredView
        decreases self,
    {
        match self {
            Structured::Absent => StructuredView::Absent,
            Structured::Null => StructuredView::Null,
            Structured::Bool(b) => StructuredView::Bool(*b),
            Structured::Number(n) => StructuredView::Number(*n),
            Structured::Strand(s) => StructuredView::Strand(s@),
            Structured::Datetime(ms) => StructuredView::Datetime(*ms),
            Structured::Uuid(id) => StructuredView::Uuid(id@),
            Structured::Array(items) => StructuredView::Array(
                Seq::new(
                    items@.len(),
                    |i: int|
                        if 0 <= i < items@.len() {
                            items@[i]@
                        } else {
                            StructuredView::Absent
                        },
                ),
            ),
            Structured::Object(entries) => StructuredView::Object(
                Seq::new(
                    entries@.len(),
                    |i: int|
                        if 0 <= i < entries@.len() {
                            (entries@[i].0@, entries@[i].1@)
                        } else {
                            (Seq::empty(), StructuredView::Absent)
                        },
                ),
            ),
            Structured::Table(t) => StructuredView::Table(t@),
            Structured::Thing { tb, id } => StructuredView::Thing { tb: tb@, id: id@ },
            Structured::Range { tb, beg, end } => StructuredView::Range { tb: tb@, beg: beg@, end: end@ },
        }
    }
}

/// Mathematical form of a list of values.
pub open spec fn items_view(items: Seq<Structured>) -> Seq<StructuredView> {
    Seq::new(items.len(), |i: int| items[i]@)
}

/// Mathematical form of a list of object entries.
pub open spec fn fields_view(entries: Seq<(String, Structured)>) -> Fields {
    Seq::new(entries.len(), |i: int| (entries[i].0@, entries[i].1@))
}

/// The view of an array is the view of its items.
pub proof fn lemma_array_view(items: Vec<Structured>)
    ensures
        Structured::Array(items)@ == StructuredView::Array(items_view(items@)),
{
    reveal_with_fuel(<Structured as View>::view, 2);
    assert(Structured::Array(items)@->Array_0 =~= items_view(items@));
}

/// The view of an object is the view of its entries.
pub proof fn lemma_object_view(entries: Vec<(String, Structured)>)
    ensures
        Structured::Object(entries)@ == StructuredView::Object(fields_view(entries@)),
{
    reveal_with_fuel(<Structured as View>::view, 2);
    assert(Structured::Object(entries)@->Object_0 =~= fields_view(entries@));
}

/// Keys in strictly ascending order, which also means each key once.
pub open spec fn keys_ascend(fields: Fields) -> bool {
    forall|i: int, j: int|
        0 <= i < j < fields.len() ==> lex_lt(#[trigger] fields[i].0, #[trigger] fields[j].0)
}

/// Every object inside `v`, at any depth, has its keys in ascending order.
pub open spec fn well_formed(v: StructuredView) -> bool
    decreases v,
{
    match v {
        StructuredView::Array(items) => forall|i: int|
            0 <= i < items.len() ==> well_formed(#[trigger] items[i]),
        StructuredView::Object(fields) => keys_ascend(fields) && forall|i: int|
            0 <= i < fields.len() ==> well_formed((#[trigger] fields[i]).1),
        _ => true,
    }
}

/// Number of leading entries whose key is below `key`.
pub open spec fn rank(fields: Fields, key: Seq<char>) -> int
    decreases fields.len(),
{
    if fields.len() == 0 {
        0
    } else if lex_lt(fields[0].0, key) {
        1 + rank(fields.skip(1), key)
    } else {
        0
    }
}

/// The value stored under `key`, if any.
pub open spec fn lookup(fields: Fields, key: Seq<char>) -> Option<StructuredView> {
    let at = rank(fields, key);
    if at < fields.len() && fields[at].0 == key {
        Some(fields[at].1)
    } else {
        None
    }
}

/// `fields` with `value` stored under `key`: in place of the value that was
/// there, or else at the place that keeps the keys in order.
pub open spec fn put(fields: Fields, key: Seq<char>, value: StructuredView) -> Fields {
    let at = rank(fields, key);
    if at < fields.len() && fields[at].0 == key {
        fields.update(at, (key, value))
    } else {
        fields.insert(at, (key, value))
    }
}

/// `rank` stays inside the sequence and splits it at `key`.
pub proof fn lemma_rank(fields: Fields, key: Seq<char>)
    ensures
        0 <= rank(fields, key) <= fields.len(),
        forall|i: int| 0 <= i < rank(fields, key) ==> lex_lt(#[trigger] fields[i].0, key),
        rank(fields, key) < fields.len() ==> !lex_lt(fields[rank(fields, key)].0, key),
    decreases fields.len(),
{
    if fields.len() > 0 && lex_lt(fields[0].0, key) {
        let rest = fields.skip(1);
        lemma_rank(rest, key);
        assert forall|i: int| 0 <= i < rank(fields, key) implies lex_lt(
            #[trigger] fields[i].0,
            key,
        ) by {
            if i > 0 {
                assert(rest[i - 1] == fields[i]);
            }
        }
    }
}

/// A position that splits `fields` at `key` is its rank.
pub proof fn lemma_rank_is(fields: Fields, key: Seq<char>, at: int)
    requires
        0 <= at <= fields.len(),
        forall|i: int| 0 <= i < at ==> lex_lt(#[trigger] fields[i].0, key),
        at < fields.len() ==> !lex_lt(fields[at].0, key),
    ensures
        rank(fields, key) == at,
    decreases fields.len(),
{
    if at > 0 {
        assert(lex_lt(fields[0].0, key));
        let rest = fields.skip(1);
        assert forall|i: int| 0 <= i < at - 1 implies lex_lt(#[trigger] rest[i].0, key) by {
            assert(rest[i] == fields[i + 1]);
        }
        lemma_rank_is(rest, key, at - 1);
    }
}

/// Storing a value keeps the keys in order, and afterwards `lookup` finds
/// that value under `key` and what it found before under any other key.
pub proof fn lemma_put(fields: Fields, key: Seq<char>, value: StructuredView)
    requires
        keys_ascend(fields),
    ensures
        keys_ascend(put(fields, key, value)),
        lookup(put(fields, key, value), key) == Some(value),
        forall|other: Seq<char>|
            other != key ==> #[trigger] lookup(put(fields, key, value), other) == lookup(
                fields,
                other,
            ),
{
    let at = rank(fields, key);
    let after = put(fields, key, value);
    lemma_rank(fields, key);
    let replaced = at < fields.len() && fields[at].0 == key;
    assert forall|i: int, j: int| 0 <= i < j < after.len() implies lex_lt(
        #[trigger] after[i].0,
        #[trigger] after[j].0,
    ) by {
        if replaced {
            assert(after[i].0 == fields[i].0);
            assert(after[j].0 == fields[j].0);
        } else {
            let fi = if i < at { i } else { i - 1 };
            let fj = if j < at { j } else { j - 1 };
            if i == at {
                // the new key against a later old key
                assert(after[j] == fields[fj]);
                lemma_lex_total(fields[at].0, key);
                if fj > at {
                    lemma_lex_transitive(key, fields[at].0, fields[fj].0);
                }
            } else if j == at {
                assert(after[i] == fields[fi]);
            } else {
                assert(after[i] == fields[fi]);
                assert(after[j] == fields[fj]);
            }
        }
    }
    lemma_lex_irreflexive(key);
    lemma_rank_is(after, key, at);
    assert forall|other: Seq<char>| other != key implies #[trigger] lookup(after, other)
        == lookup(fields, other) by {
        let r = rank(fields, other);
        lemma_rank(fields, other);
        lemma_lex_total(other, key);
        if replaced {
            assert forall|i: int| 0 <= i < r implies lex_lt(#[trigger] after[i].0, other) by {
                assert(after[i].0 == fields[i].0);
            }
            if r < fields.len() {
                assert(after[r].0 == fields[r].0);
            }
            lemma_rank_is(after, other, r);
            if r < fields.len() && fields[r].0 == other {
                assert(r != at);
            }
        } else if lex_lt(other, key) {
            // everything below `other` is below `key`: the split is untouched
            if r < at {
            } else {
                if at < fields.len() {
                    lemma_lex_total(fields[at].0, key);
                }
                if r > at {
                    assert(lex_lt(fields[at].0, other));
                    lemma_lex_transitive(fields[at].0, other, key);
                }
            }
            assert(r <= at);
            assert forall|i: int| 0 <= i < r implies lex_lt(#[trigger] after[i].0, other) by {
                assert(after[i] == fields[i]);
            }
            if r < at {
                assert(after[r] == fields[r]);
            }
            lemma_rank_is(after, other, r);
        } else {
            // `key` is below `other`: the split moves one place up
            assert(lex_lt(key, other));
            if r < at {
                assert(lex_lt(fields[r].0, key));
                lemma_lex_transitive(fields[r].0, key, other);
            }
            assert(r >= at);
            assert forall|i: int| 0 <= i < r + 1 implies lex_lt(
                #[trigger] after[i].0,
                other,
            ) by {
                if i < at {
                    assert(after[i] == fields[i]);
                } else if i > at {
                    assert(after[i] == fields[i - 1]);
                }
            }
            if r < fields.len() {
                assert(after[r + 1] == fields[r]);
            }
            lemma_rank_is(after, other, r + 1);
        }
    }
}

/// Appending a key above all others is what `put` does with it.
pub proof fn lemma_put_last(fields: Fields, key: Seq<char>, value: StructuredView)
    requires
        forall|i: int| 0 <= i < fields.len() ==> lex_lt(#[trigger] fields[i].0, key),
    ensures
        put(fields, key, value) == fields.push((key, value)),
{
    lemma_rank_is(fields, key, fields.len() as int);
    assert(fields.insert(fields.len() as int, (key, value)) =~= fields.push((key, value)));
}

impl Clone for Structured {
    fn clone(&self) -> (r: Self)
        ensures
            r@ == self@,
        decreases self,
    {
        match self {
            Structured::Absent => Structured::Absent,
            Structured::Null => Structured::Null,
            Structured::Bool(b) => Structured::Bool(*b),
            Structured::Number(n) => Structured::Number(*n),
            Structured::Strand(s) => Structured::Strand(s.clone()),
            Structured::Datetime(ms) => Structured::Datetime(*ms),
            Structured::Uuid(id) => Structured::Uuid(*id),
            Structured::Array(items) => {
                let mut out: Vec<Structured> = Vec::new();
                let mut i: usize = 0;
                while i < items.len()
                    invariant
                        i <= items.len(),
                        decreases_to!(self => items),
                        out@.len() == i,
                        forall|j: int| 0 <= j < i ==> out@[j]@ == items@[j]@,
                    decreases items.len() - i,
                {
                    proof {
                        vstd::std_specs::vec::axiom_vec_index_decreases(*items, i as int);
                    }
                    let item = items[i].clone();
                    out.push(item);
                    i = i + 1;
                }
                proof {
                    lemma_array_view(out);
                    lemma_array_view(*items);
                    assert(items_view(out@) =~= items_view(items@));
                }
                Structured::Array(out)
            },
            Structured::Object(entries) => {
                let mut out: Vec<(String, Structured)> = Vec::new();
                let mut i: usize = 0;
                while i < entries.len()
                    invariant
                        i <= entries.len(),
                        decreases_to!(self => entries),
                        out@.len() == i,
                        forall|j: int|
                            0 <= j < i ==> out@[j].0@ == entries@[j].0@ && out@[j].1@
                                == entries@[j].1@,
                    decreases entries.len() - i,
                {
                    proof {
                        vstd::std_specs::vec::axiom_vec_index_decreases(*entries, i as int);
                    }
                    let value = entries[i].1.clone();
                    out.push((entries[i].0.clone(), value));
                    i = i + 1;
                }
                proof {
                    lemma_object_view(out);
                    lemma_object_view(*entries);
                    assert(fields_view(out@) =~= fields_view(entries@));
                }
                Structured::Object(out)
            },
            Structured::Table(t) => Structured::Table(t.clone()),
            Structured::Thing { tb, id } => Structured::Thing { tb: tb.clone(), id: id.clone() },
            Structured::Range { tb, beg, end } => Structured::Range {
                tb: tb.clone(),
                beg: beg.clone(),
                end: end.clone(),
            },
        }
    }
}

/// Stores `value` under `key` among the entries of an object.
pub fn object_put(entries: &mut Vec<(String, Structured)>, key: String, value: Structured)
    ensures
        fields_view(final(entries)@) == put(fields_view(old(entries)@), key@, value@),
{
    let ghost before = fields_view(entries@);
    let mut at: usize = 0;
    while at < entries.len() && str_lt(entries[at].0.as_str(), key.as_str())
        invariant
            at <= entries.len(),
            fields_view(entries@) == before,
            forall|i: int| 0 <= i < at ==> lex_lt(#[trigger] before[i].0, key@),
        decreases entries.len() - at,
    {
        at = at + 1;
    }
    proof {
        lemma_rank_is(before, key@, at as int);
    }
    if at < entries.len() && !str_lt(key.as_str(), entries[at].0.as_str()) {
        proof {
            lemma_lex_total(key@, before[at as int].0);
        }
        entries.set(at, (key, value));
        assert(fields_view(entries@) =~= before.update(at as int, (key@, value@)));
    } else {
        proof {
            if at < entries.len() {
                lemma_lex_total(key@, before[at as int].0);
            }
        }
        entries.insert(at, (key, value));
        assert(fields_view(entries@) =~= before.insert(at as int, (key@, value@)));
    }
}

/// Finds the value stored under `key` among the entries of an object.
pub fn object_get<'a>(entries: &'a Vec<(String, Structured)>, key: &str) -> (r: Option<&'a Structured>)
    ensures
        r is Some <==> lookup(fields_view(entries@), key@) is Some,
        r matches Some(v) ==> Some(v@) == lookup(fields_view(entries@), key@),
{
    let ghost fields = fields_view(entries@);
    let mut at: usize = 0;
    while at < entries.len() && str_lt(entries[at].0.as_str(), key)
        invariant
            at <= entries.len(),
            fields == fields_view(entries@),
            forall|i: int| 0 <= i < at ==> lex_lt(#[trigger] fields[i].0, key@),
        decreases entries.len() - at,
    {
        at = at + 1;
    }
    proof {
        lemma_rank_is(fields, key@, at as int);
    }
    if at < entries.len() && !str_lt(key, entries[at].0.as_str()) {
        proof {
            lemma_lex_total(key@, fields[at as int].0);
        }
        Some(&entries[at].1)
    } else {
        proof {
            if at < entries.len() {
                lemma_lex_total(key@, fields[at as int].0);
            }
        }
        None
    }
}

/// `fields` without the entry stored under `key`, if there is one.
pub open spec fn without(fields: Fields, key: Seq<char>) -> Fields {
    let at = rank(fields, key);
    if at < fields.len() && fields[at].0 == key {
        fields.remove(at)
    } else {
        fields
    }
}

/// Taking an entry away keeps the keys in order; afterwards `lookup`
/// finds nothing under `key` and what it found before under any other key.
/// Where nothing was stored under `key`, nothing changes.
pub proof fn lemma_without(fields: Fields, key: Seq<char>)
    requires
        keys_ascend(fields),
    ensures
        keys_ascend(without(fields, key)),
        lookup(without(fields, key), key) is None,
        lookup(fields, key) is None ==> without(fields, key) == fields,
        forall|other: Seq<char>|
            other != key ==> #[trigger] lookup(without(fields, key), other) == lookup(
                fields,
                other,
            ),
{
    let at = rank(fields, key);
    let after = without(fields, key);
    lemma_rank(fields, key);
    lemma_lex_irreflexive(key);
    if at < fields.len() && fields[at].0 == key {
        assert forall|i: int, j: int| 0 <= i < j < after.len() implies lex_lt(
            #[trigger] after[i].0,
            #[trigger] after[j].0,
        ) by {
            let fi = if i < at { i } else { i + 1 };
            let fj = if j < at { j } else { j + 1 };
            assert(after[i] == fields[fi]);
            assert(after[j] == fields[fj]);
        }
        assert forall|i: int| 0 <= i < at implies lex_lt(#[trigger] after[i].0, key) by {
            assert(after[i] == fields[i]);
        }
        if at < after.len() {
            assert(after[at] == fields[at + 1]);
            lemma_lex_total(after[at].0, key);
        }
        lemma_rank_is(after, key, at);
        assert forall|other: Seq<char>| other != key implies #[trigger] lookup(after, other)
            == lookup(fields, other) by {
            let r = rank(fields, other);
            lemma_rank(fields, other);
            lemma_lex_total(other, key);
            if lex_lt(other, key) {
                if r > at {
                    assert(lex_lt(fields[at].0, other));
                    lemma_lex_transitive(fields[at].0, other, key);
                }
                assert(r <= at);
                if r == at {
                    // nothing at or after `at` is below `other`
                    assert forall|i: int| 0 <= i < r implies lex_lt(
                        #[trigger] after[i].0,
                        other,
                    ) by {
                        assert(after[i] == fields[i]);
                    }
                    if r < after.len() {
                        assert(after[r] == fields[r + 1]);
                        lemma_lex_total(after[r].0, other);
                        if lex_lt(after[r].0, other) {
                            lemma_lex_transitive(key, fields[r + 1].0, other);
                        }
                    }
                    lemma_rank_is(after, other, r);
                    if r < after.len() && after[r].0 == other {
                        assert(lex_lt(key, fields[r + 1].0));
                    }
                } else {
                    assert forall|i: int| 0 <= i < r implies lex_lt(
                        #[trigger] after[i].0,
                        other,
                    ) by {
                        assert(after[i] == fields[i]);
                    }
                    assert(after[r] == fields[r]);
                    lemma_rank_is(after, other, r);
                }
            } else {
                assert(lex_lt(key, other));
                if r <= at {
                    if r < at {
                        assert(lex_lt(fields[r].0, key));
                        lemma_lex_total(fields[r].0, other);
                        lemma_lex_transitive(fields[r].0, key, other);
                    }
                }
                assert(r > at);
                assert forall|i: int| 0 <= i < r - 1 implies lex_lt(
                    #[trigger] after[i].0,
                    other,
                ) by {
                    if i < at {
                        assert(after[i] == fields[i]);
                    } else {
                        assert(after[i] == fields[i + 1]);
                    }
                }
                if r - 1 < after.len() {
                    assert(after[r - 1] == fields[r]);
                }
                lemma_rank_is(after, other, r - 1);
            }
        }
    }
}

/// Storing a value twice is storing it once.
pub proof fn lemma_put_twice(fields: Fields, key: Seq<char>, value: StructuredView)
    requires
        keys_ascend(fields),
    ensures
        put(put(fields, key, value), key, value) == put(fields, key, value),
{
    let once = put(fields, key, value);
    let at = rank(fields, key);
    lemma_rank(fields, key);
    lemma_lex_irreflexive(key);
    assert forall|i: int| 0 <= i < at implies lex_lt(#[trigger] once[i].0, key) by {
        assert(once[i] == fields[i]);
    }
    lemma_rank_is(once, key, at);
    assert(once.update(at, (key, value)) =~= once);
}

/// Takes away the entry stored under `key` among the entries of an object.
pub fn object_remove(entries: &mut Vec<(String, Structured)>, key: &str)
    ensures
        fields_view(final(entries)@) == without(fields_view(old(entries)@), key@),
{
    let ghost before = fields_view(entries@);
    let mut at: usize = 0;
    while at < entries.len() && str_lt(entries[at].0.as_str(), key)
        invariant
            at <= entries.len(),
            fields_view(entries@) == before,
            forall|i: int| 0 <= i < at ==> lex_lt(#[trigger] before[i].0, key@),
        decreases entries.len() - at,
    {
        at = at + 1;
    }
    proof {
        lemma_rank_is(before, key@, at as int);
    }
    if at < entries.len() && !str_lt(key, entries[at].0.as_str()) {
        proof {
            lemma_lex_total(key@, before[at as int].0);
        }
        let _ = entries.remove(at);
        assert(fields_view(entries@) =~= before.remove(at as int));
    } else {
        proof {
            if at < entries.len() {
                lemma_lex_total(key@, before[at as int].0);
            }
        }
    }
}

/// Copies the entries of an object.
pub fn clone_fields(entries: &Vec<(String, Structured)>) -> (out: Vec<(String, Structured)>)
    ensures
        fields_view(out@) == fields_view(entries@),
{
    let mut out: Vec<(String, Structured)> = Vec::new();
    let mut i: usize = 0;
    while i < entries.len()
        invariant
            i <= entries.len(),
            out@.len() == i,
            forall|j: int|
                0 <= j < i ==> out@[j].0@ == entries@[j].0@ && out@[j].1@ == entries@[j].1@,
        decreases entries.len() - i,
    {
        out.push((entries[i].0.clone(), entries[i].1.clone()));
        i = i + 1;
    }
    assert(fields_view(out@) =~= fields_view(entries@));
    out
}

/// `base` with every entry of `extra` stored over it, in the order of
/// `extra`.
pub open spec fn overlaid(base: Fields, extra: Fields) -> Fields
    decreases extra.len(),
{
    if extra.len() == 0 {
        base
    } else {
        put(overlaid(base, extra.drop_last()), extra.last().0, extra.last().1)
    }
}

/// Laying entries over entries whose keys ascend gives keys that ascend.
pub proof fn lemma_overlaid(base: Fields, extra: Fields)
    requires
        keys_ascend(base),
    ensures
        keys_ascend(overlaid(base, extra)),
    decreases extra.len(),
{
    if extra.len() > 0 {
        lemma_overlaid(base, extra.drop_last());
        lemma_put(overlaid(base, extra.drop_last()), extra.last().0, extra.last().1);
    }
}

/// Stores every entry of `extra` over the entries of `base`.
pub fn object_overlay(base: &mut Vec<(String, Structured)>, extra: &Vec<(String, Structured)>)
    ensures
        fields_view(final(base)@) == overlaid(fields_view(old(base)@), fields_view(extra@)),
{
    let ghost start = fields_view(base@);
    let ghost more = fields_view(extra@);
    let mut i: usize = 0;
    assert(more.take(0) =~= Seq::empty());
    while i < extra.len()
        invariant
            i <= extra.len(),
            more == fields_view(extra@),
            fields_view(base@) == overlaid(start, more.take(i as int)),
        decreases extra.len() - i,
    {
        proof {
            assert(more.take(i + 1).drop_last() =~= more.take(i as int));
            assert(more.take(i + 1).last() == (extra@[i as int].0@, extra@[i as int].1@));
        }
        object_put(base, extra[i].0.clone(), extra[i].1.clone());
        i = i + 1;
    }
    assert(more.take(extra.len() as int) =~= more);
}

} // verus!
