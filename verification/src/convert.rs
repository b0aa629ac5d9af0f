//! Conversion between the host's dynamic values and structured values.

use crate::resource::address_text;
use crate::resource::format_range;
use crate::resource::format_record;
use crate::resource::AddressView;
use crate::value::fields_view;
use crate::value::items_view;
use crate::value::keys_ascend;
use crate::value::lemma_array_view;
use crate::value::lemma_object_view;
use crate::value::lemma_put;
use crate::value::lemma_put_last;
use crate::value::object_put;
use crate::value::put;
use crate::value::well_formed;
use crate::value::Fields;
use crate::value::Number;
use crate::value::Structured;
use crate::value::StructuredView;
use vstd::prelude::*;

verus! {

/// A value of the host, classified by what it is rather than by how it
/// behaves. Containers hold their entries in the order in which the host
/// hands them out; the keys of a `Map` are given as the host renders them as
/// strings. A `Number` is a double kept as its bit pattern, an `Integer` is a
/// whole number the host holds exactly, a `Date` counts milliseconds from the
/// Unix epoch. `Unreadable` stands for an entry that the host failed to hand
/// out, `Other` for anything of no known shape, such as a function.
#[derive(Debug, PartialEq, Eq)]
pub enum HostValue {
    Null,
    Undefined,
    Bool(bool),
    Number(u64),
    Integer(i64),
    Text(String),
    Date(i64),
    SetLike(Vec<HostValue>),
    MapLike(Vec<(String, HostValue)>),
    Array(Vec<HostValue>),
    Object(Vec<(String, HostValue)>),
    Unreadable,
    Other,
}

/// Mathematical form of a [`HostValue`].
pub enum HostView {
    Null,
    Undefined,
    Bool(bool),
    Number(u64),
    Integer(i64),
    Text(Seq<char>),
    Date(i64),
    SetLike(Seq<HostView>),
    MapLike(Seq<(Seq<char>, HostView)>),
    Array(Seq<HostView>),
    Object(Seq<(Seq<char>, HostView)>),
    Unreadable,
    Other,
}

impl View for HostValue {
    type V = HostView;

    open spec fn view(&self) -> HostView
        decreases self,
    {
        match self {
            HostValue::Null => HostView::Null,
            HostValue::Undefined => HostView::Undefined,
            HostValue::Bool(b) => HostView::Bool(*b),
            HostValue::Number(bits) => HostView::Number(*bits),
            HostValue::Integer(i) => HostView::Integer(*i),
            HostValue::Text(s) => HostView::Text(s@),
            HostValue::Date(ms) => HostView::Date(*ms),
            HostValue::SetLike(items) => HostView::SetLike(
                Seq::new(
                    items@.len(),
                    |i: int|
                        if 0 <= i < items@.len() {
                            items@[i]@
                        } else {
                            HostView::Other
                        },
                ),
            ),
            HostValue::MapLike(entries) => HostView::MapLike(
                Seq::new(
                    entries@.len(),
                    |i: int|
                        if 0 <= i < entries@.len() {
                            (entries@[i].0@, entries@[i].1@)
                        } else {
                            (Seq::empty(), HostView::Other)
                        },
                ),
            ),
            HostValue::Array(items) => HostView::Array(
                Seq::new(
                    items@.len(),
                    |i: int|
                        if 0 <= i < items@.len() {
                            items@[i]@
                        } else {
                            HostView::Other
                        },
                ),
            ),
            HostValue::Object(entries) => HostView::Object(
                Seq::new(
                    entries@.len(),
                    |i: int|
                        if 0 <= i < entries@.len() {
                            (entries@[i].0@, entries@[i].1@)
                        } else {
                            (Seq::empty(), HostView::Other)
                        },
                ),
            ),
            HostValue::Unreadable => HostView::Unreadable,
            HostValue::Other => HostView::Other,
        }
    }
}

/// Mathematical form of a list of host values.
pub open spec fn host_items(items: Seq<HostValue>) -> Seq<HostView> {
    Seq::new(items.len(), |i: int| items[i]@)
}

/// Mathematical form of a list of keyed host values.
pub open spec fn host_fields(entries: Seq<(String, HostValue)>) -> Seq<(Seq<char>, HostView)> {
    Seq::new(entries.len(), |i: int| (entries[i].0@, entries[i].1@))
}

/// The views of the four containers are the views of what they hold.
pub proof fn lemma_host_view(h: HostValue)
    ensures
        h matches HostValue::SetLike(items) ==> h@ == HostView::SetLike(host_items(items@)),
        h matches HostValue::Array(items) ==> h@ == HostView::Array(host_items(items@)),
        h matches HostValue::MapLike(entries) ==> h@ == HostView::MapLike(host_fields(entries@)),
        h matches HostValue::Object(entries) ==> h@ == HostView::Object(host_fields(entries@)),
{
    reveal_with_fuel(<HostValue as View>::view, 2);
    match h {
        HostValue::SetLike(items) => {
            assert(h@->SetLike_0 =~= host_items(items@));
        },
        HostValue::Array(items) => {
            assert(h@->Array_0 =~= host_items(items@));
        },
        HostValue::MapLike(entries) => {
            assert(h@->MapLike_0 =~= host_fields(entries@));
        },
        HostValue::Object(entries) => {
            assert(h@->Object_0 =~= host_fields(entries@));
        },
        _ => {},
    }
}

/// Whether the date library takes `ms` milliseconds from the Unix epoch as
/// an instant it can represent.
pub uninterp spec fn datetime_accepted(ms: i64) -> bool;

/// Asks `DateTime::from_timestamp_millis` of chrono whether it can
/// represent the instant; it returns nothing for instants out of its range.
#[verifier::external_body]
fn datetime_in_range(ms: i64) -> (r: bool)
    ensures
        r == datetime_accepted(ms),
{
    chrono::DateTime::<chrono::Utc>::from_timestamp_millis(ms).is_some()
}

/// The entries that are present, in order.
pub open spec fn present<T>(entries: Seq<Option<T>>) -> Seq<T>
    decreases entries.len(),
{
    if entries.len() == 0 {
        Seq::empty()
    } else {
        match entries.last() {
            Some(x) => present(entries.drop_last()).push(x),
            None => present(entries.drop_last()),
        }
    }
}

/// The object that results from storing the present entries one after the
/// other, so that of two entries with one key the later one stays.
pub open spec fn gathered(entries: Seq<Option<(Seq<char>, StructuredView)>>) -> Fields
    decreases entries.len(),
{
    if entries.len() == 0 {
        Seq::empty()
    } else {
        match entries.last() {
            Some((key, value)) => put(gathered(entries.drop_last()), key, value),
            None => gathered(entries.drop_last()),
        }
    }
}

/// What each entry of a set or an array contributes to the array made of
/// it: its structured value, or nothing where the entry is unreadable.
pub open spec fn parts(h: HostView) -> Seq<Option<StructuredView>>
    decreases h, 0nat,
{
    match h {
        HostView::SetLike(items) => Seq::new(
            items.len(),
            |i: int|
                if 0 <= i < items.len() && !(items[i] is Unreadable) {
                    Some(structured_of(items[i]))
                } else {
                    None
                },
        ),
        HostView::Array(items) => Seq::new(
            items.len(),
            |i: int|
                if 0 <= i < items.len() && !(items[i] is Unreadable) {
                    Some(structured_of(items[i]))
                } else {
                    None
                },
        ),
        _ => Seq::empty(),
    }
}

/// What each entry of a map or an object contributes to the object made of
/// it. Only a map skips an entry whose value is unreadable.
pub open spec fn keyed_parts(h: HostView) -> Seq<Option<(Seq<char>, StructuredView)>>
    decreases h, 0nat,
{
    match h {
        HostView::MapLike(entries) => Seq::new(
            entries.len(),
            |i: int|
                if 0 <= i < entries.len() && !(entries[i].1 is Unreadable) {
                    Some((entries[i].0, structured_of(entries[i].1)))
                } else {
                    None
                },
        ),
        HostView::Object(entries) => Seq::new(
            entries.len(),
            |i: int|
                if 0 <= i < entries.len() {
                    Some((entries[i].0, structured_of(entries[i].1)))
                } else {
                    None
                },
        ),
        _ => Seq::empty(),
    }
}

/// The structured value that a host value stands for.
///
/// Null, booleans, numbers, text and dates keep their meaning, a date that
/// the date library cannot represent becoming `Absent`. A set and an array
/// become an array of their readable entries, in order. A map becomes an
/// object of its readable entries, an object one of all its entries. All
/// else, `undefined` included, becomes `Absent`.
pub open spec fn structured_of(h: HostView) -> StructuredView
    decreases h, 1nat,
{
    match h {
        HostView::Null => StructuredView::Null,
        HostView::Undefined => StructuredView::Absent,
        HostView::Bool(b) => StructuredView::Bool(b),
        HostView::Number(bits) => StructuredView::Number(Number::Float(bits)),
        HostView::Integer(i) => StructuredView::Number(Number::Int(i)),
        HostView::Text(s) => StructuredView::Strand(s),
        HostView::Date(ms) => if datetime_accepted(ms) {
            StructuredView::Datetime(ms)
        } else {
            StructuredView::Absent
        },
        HostView::SetLike(_) => StructuredView::Array(present(parts(h))),
        HostView::Array(_) => StructuredView::Array(present(parts(h))),
        HostView::MapLike(_) => StructuredView::Object(gathered(keyed_parts(h))),
        HostView::Object(_) => StructuredView::Object(gathered(keyed_parts(h))),
        HostView::Unreadable => StructuredView::Absent,
        HostView::Other => StructuredView::Absent,
    }
}

/// What one entry of a set or an array contributes.
pub open spec fn item_of(h: HostView) -> Option<StructuredView> {
    if h is Unreadable {
        None
    } else {
        Some(structured_of(h))
    }
}

/// What one entry of a map (`lenient`) or of an object contributes.
pub open spec fn entry_of(lenient: bool, entry: (Seq<char>, HostView)) -> Option<
    (Seq<char>, StructuredView),
> {
    if lenient && entry.1 is Unreadable {
        None
    } else {
        Some((entry.0, structured_of(entry.1)))
    }
}

/// `parts` and `keyed_parts`, entry by entry.
pub proof fn lemma_parts(h: HostView)
    ensures
        h matches HostView::SetLike(items) ==> parts(h) == items.map_values(
            |x: HostView| item_of(x),
        ),
        h matches HostView::Array(items) ==> parts(h) == items.map_values(
            |x: HostView| item_of(x),
        ),
        h matches HostView::MapLike(entries) ==> keyed_parts(h) == entries.map_values(
            |e: (Seq<char>, HostView)| entry_of(true, e),
        ),
        h matches HostView::Object(entries) ==> keyed_parts(h) == entries.map_values(
            |e: (Seq<char>, HostView)| entry_of(false, e),
        ),
{
    match h {
        HostView::SetLike(items) => {
            assert(parts(h) =~= items.map_values(|x: HostView| item_of(x)));
        },
        HostView::Array(items) => {
            assert(parts(h) =~= items.map_values(|x: HostView| item_of(x)));
        },
        HostView::MapLike(entries) => {
            assert(keyed_parts(h) =~= entries.map_values(
                |e: (Seq<char>, HostView)| entry_of(true, e),
            ));
        },
        HostView::Object(entries) => {
            assert(keyed_parts(h) =~= entries.map_values(
                |e: (Seq<char>, HostView)| entry_of(false, e),
            ));
        },
        _ => {},
    }
}

/// Converts the readable entries of a set or an array, in order.
fn gather_items(items: &Vec<HostValue>) -> (out: Vec<Structured>)
    ensures
        items_view(out@) == present(host_items(items@).map_values(|x: HostView| item_of(x))),
    decreases items,
{
    let ghost mapped = host_items(items@).map_values(|x: HostView| item_of(x));
    let mut out: Vec<Structured> = Vec::new();
    let mut i: usize = 0;
    assert(mapped.take(0) =~= Seq::empty());
    assert(items_view(out@) =~= Seq::empty());
    while i < items.len()
        invariant
            i <= items.len(),
            mapped == host_items(items@).map_values(|x: HostView| item_of(x)),
            items_view(out@) == present(mapped.take(i as int)),
        decreases items.len() - i,
    {
        proof {
            vstd::std_specs::vec::axiom_vec_index_decreases(*items, i as int);
            assert(mapped.take(i + 1).drop_last() =~= mapped.take(i as int));
            assert(mapped.take(i + 1).last() == item_of(items@[i as int]@));
        }
        let ghost before = items_view(out@);
        match &items[i] {
            HostValue::Unreadable => {},
            other => {
                let value = to_structured(other);
                out.push(value);
                assert(items_view(out@) =~= before.push(value@));
            },
        }
        i = i + 1;
    }
    assert(mapped.take(items.len() as int) =~= mapped);
    out
}

/// Converts the entries of a map (`lenient`: unreadable values are left
/// out) or of an object into the entries of one object.
fn gather_fields(entries: &Vec<(String, HostValue)>, lenient: bool) -> (out: Vec<(String, Structured)>)
    ensures
        fields_view(out@) == gathered(
            host_fields(entries@).map_values(|e: (Seq<char>, HostView)| entry_of(lenient, e)),
        ),
    decreases entries,
{
    let ghost mapped = host_fields(entries@).map_values(
        |e: (Seq<char>, HostView)| entry_of(lenient, e),
    );
    let mut out: Vec<(String, Structured)> = Vec::new();
    let mut i: usize = 0;
    assert(mapped.take(0) =~= Seq::empty());
    assert(fields_view(out@) =~= Seq::empty());
    while i < entries.len()
        invariant
            i <= entries.len(),
            mapped == host_fields(entries@).map_values(
                |e: (Seq<char>, HostView)| entry_of(lenient, e),
            ),
            fields_view(out@) == gathered(mapped.take(i as int)),
        decreases entries.len() - i,
    {
        proof {
            vstd::std_specs::vec::axiom_vec_index_decreases(*entries, i as int);
            assert(mapped.take(i + 1).drop_last() =~= mapped.take(i as int));
            assert(mapped.take(i + 1).last() == entry_of(
                lenient,
                (entries@[i as int].0@, entries@[i as int].1@),
            ));
        }
        let skip = lenient && match &entries[i].1 {
            HostValue::Unreadable => true,
            _ => false,
        };
        if !skip {
            let value = to_structured(&entries[i].1);
            object_put(&mut out, entries[i].0.clone(), value);
        }
        i = i + 1;
    }
    assert(mapped.take(entries.len() as int) =~= mapped);
    out
}

/// Converts a host value into the structured value it stands for. The
/// conversion never fails: what it cannot place becomes `Absent`.
pub fn to_structured(h: &HostValue) -> (r: Structured)
    ensures
        r@ == structured_of(h@),
    decreases h,
{
    proof {
        lemma_host_view(*h);
        lemma_parts(h@);
    }
    match h {
        HostValue::Null => Structured::Null,
        HostValue::Undefined => Structured::Absent,
        HostValue::Bool(b) => Structured::Bool(*b),
        HostValue::Number(bits) => Structured::Number(Number::Float(*bits)),
        HostValue::Integer(i) => Structured::Number(Number::Int(*i)),
        HostValue::Text(s) => Structured::Strand(s.clone()),
        HostValue::Date(ms) => {
            if datetime_in_range(*ms) {
                Structured::Datetime(*ms)
            } else {
                Structured::Absent
            }
        },
        HostValue::SetLike(items) => {
            let out = gather_items(items);
            proof {
                lemma_array_view(out);
            }
            Structured::Array(out)
        },
        HostValue::Array(items) => {
            let out = gather_items(items);
            proof {
                lemma_array_view(out);
            }
            Structured::Array(out)
        },
        HostValue::MapLike(entries) => {
            let out = gather_fields(entries, true);
            proof {
                lemma_object_view(out);
            }
            Structured::Object(out)
        },
        HostValue::Object(entries) => {
            let out = gather_fields(entries, false);
            proof {
                lemma_object_view(out);
            }
            Structured::Object(out)
        },
        HostValue::Unreadable => Structured::Absent,
        HostValue::Other => Structured::Absent,
    }
}

/// The lower-case hexadecimal digit for a value below sixteen.
pub open spec fn hex_char(n: int) -> char {
    if n < 10 {
        (48 + n) as char
    } else {
        (87 + n) as char
    }
}

/// The hyphenated form of an identifier of sixteen bytes: the two
/// hexadecimal digits of each byte in turn, in groups of eight, four, four,
/// four and twelve digits.
pub open spec fn uuid_text(id: Seq<u8>) -> Seq<char> {
    Seq::new(
        36,
        |i: int|
            if i == 8 || i == 13 || i == 18 || i == 23 {
                '-'
            } else {
                let digit = if i < 8 {
                    i
                } else if i < 13 {
                    i - 1
                } else if i < 18 {
                    i - 2
                } else if i < 23 {
                    i - 3
                } else {
                    i - 4
                };
                if digit % 2 == 0 {
                    hex_char(id[digit / 2] as int / 16)
                } else {
                    hex_char(id[digit / 2] as int % 16)
                }
            },
    )
}

/// Writes an identifier with `Uuid::hyphenated` of the uuid crate, which
/// gives the lower-case hexadecimal digits of the sixteen bytes in five
/// groups separated by hyphens.
#[verifier::external_body]
fn uuid_hyphenated(id: &[u8; 16]) -> (r: String)
    ensures
        r@ == uuid_text(id@),
{
    uuid::Uuid::from_bytes(*id).hyphenated().to_string()
}

/// The host value that shows a structured value.
///
/// `Absent` shows as `undefined`; identifiers and references to tables,
/// records and ranges show as text; an object shows its entries in the
/// order of their keys.
pub open spec fn host_of(v: StructuredView) -> HostView
    decreases v,
{
    match v {
        StructuredView::Absent => HostView::Undefined,
        StructuredView::Null => HostView::Null,
        StructuredView::Bool(b) => HostView::Bool(b),
        StructuredView::Number(Number::Float(bits)) => HostView::Number(bits),
        StructuredView::Number(Number::Int(i)) => HostView::Integer(i),
        StructuredView::Strand(s) => HostView::Text(s),
        StructuredView::Datetime(ms) => HostView::Date(ms),
        StructuredView::Uuid(id) => HostView::Text(uuid_text(id)),
        StructuredView::Array(items) => HostView::Array(
            Seq::new(
                items.len(),
                |i: int|
                    if 0 <= i < items.len() {
                        host_of(items[i])
                    } else {
                        HostView::Other
                    },
            ),
        ),
        StructuredView::Object(fields) => HostView::Object(
            Seq::new(
                fields.len(),
                |i: int|
                    if 0 <= i < fields.len() {
                        (fields[i].0, host_of(fields[i].1))
                    } else {
                        (Seq::empty(), HostView::Other)
                    },
            ),
        ),
        StructuredView::Table(t) => HostView::Text(t),
        StructuredView::Thing { tb, id } => HostView::Text(
            address_text(AddressView::Record { table: tb, id }),
        ),
        StructuredView::Range { tb, beg, end } => HostView::Text(
            address_text(AddressView::Range { table: tb, beg, end }),
        ),
    }
}

/// `host_of` on containers, entry by entry.
pub proof fn lemma_host_of(v: StructuredView)
    ensures
        v matches StructuredView::Array(items) ==> host_of(v) == HostView::Array(
            items.map_values(|x: StructuredView| host_of(x)),
        ),
        v matches StructuredView::Object(fields) ==> host_of(v) == HostView::Object(
            fields.map_values(|e: (Seq<char>, StructuredView)| (e.0, host_of(e.1))),
        ),
        !(host_of(v) is Unreadable),
{
    reveal_with_fuel(host_of, 2);
    match v {
        StructuredView::Array(items) => {
            assert(host_of(v)->Array_0 =~= items.map_values(|x: StructuredView| host_of(x)));
        },
        StructuredView::Object(fields) => {
            assert(host_of(v)->Object_0 =~= fields.map_values(
                |e: (Seq<char>, StructuredView)| (e.0, host_of(e.1)),
            ));
        },
        _ => {},
    }
}

/// A structured value made of nothing but null, booleans, numbers, text,
/// dates the date library can represent, arrays and objects, with the keys
/// of every object in ascending order.
pub open spec fn plain(v: StructuredView) -> bool
    decreases v,
{
    match v {
        StructuredView::Absent => true,
        StructuredView::Null => true,
        StructuredView::Bool(_) => true,
        StructuredView::Number(_) => true,
        StructuredView::Strand(_) => true,
        StructuredView::Datetime(ms) => datetime_accepted(ms),
        StructuredView::Array(items) => forall|i: int|
            0 <= i < items.len() ==> plain(#[trigger] items[i]),
        StructuredView::Object(fields) => keys_ascend(fields) && forall|i: int|
            0 <= i < fields.len() ==> plain((#[trigger] fields[i]).1),
        _ => false,
    }
}

/// A host value made of nothing but null, `undefined`, booleans, numbers,
/// text, dates the date library can represent, arrays and objects, with the
/// keys of every object in ascending order.
pub open spec fn plain_host(h: HostView) -> bool
    decreases h,
{
    match h {
        HostView::Null => true,
        HostView::Undefined => true,
        HostView::Bool(_) => true,
        HostView::Number(_) => true,
        HostView::Integer(_) => true,
        HostView::Text(_) => true,
        HostView::Date(ms) => datetime_accepted(ms),
        HostView::Array(items) => forall|i: int|
            0 <= i < items.len() ==> plain_host(#[trigger] items[i]),
        HostView::Object(entries) => keys_ascend_host(entries) && forall|i: int|
            0 <= i < entries.len() ==> plain_host((#[trigger] entries[i]).1),
        _ => false,
    }
}

/// Keys of host entries in strictly ascending order.
pub open spec fn keys_ascend_host(entries: Seq<(Seq<char>, HostView)>) -> bool {
    forall|i: int, j: int|
        0 <= i < j < entries.len() ==> crate::text::lex_lt(
            #[trigger] entries[i].0,
            #[trigger] entries[j].0,
        )
}

/// Where every entry is present, `present` unwraps them.
pub proof fn lemma_present_all<T>(entries: Seq<Option<T>>, items: Seq<T>)
    requires
        entries.len() == items.len(),
        forall|i: int| 0 <= i < items.len() ==> #[trigger] entries[i] == Some(items[i]),
    ensures
        present(entries) == items,
    decreases entries.len(),
{
    if entries.len() == 0 {
        assert(items =~= Seq::empty());
    } else {
        lemma_present_all(entries.drop_last(), items.drop_last());
        assert(items =~= items.drop_last().push(items.last()));
    }
}

/// Where every entry is present and the keys ascend, `gathered` keeps the
/// entries as they are.
pub proof fn lemma_gathered_ascending(
    entries: Seq<Option<(Seq<char>, StructuredView)>>,
    fields: Fields,
)
    requires
        entries.len() == fields.len(),
        forall|i: int| 0 <= i < fields.len() ==> #[trigger] entries[i] == Some(fields[i]),
        keys_ascend(fields),
    ensures
        gathered(entries) == fields,
    decreases entries.len(),
{
    if entries.len() == 0 {
        assert(fields =~= Seq::empty());
    } else {
        let rest = fields.drop_last();
        lemma_gathered_ascending(entries.drop_last(), rest);
        let last = fields.last();
        assert forall|i: int| 0 <= i < rest.len() implies crate::text::lex_lt(
            #[trigger] rest[i].0,
            last.0,
        ) by {
            assert(rest[i] == fields[i]);
        }
        lemma_put_last(rest, last.0, last.1);
        assert(fields =~= rest.push(last));
    }
}

/// The keys of `gathered` entries ascend, whatever the entries.
pub proof fn lemma_gathered_ascends(entries: Seq<Option<(Seq<char>, StructuredView)>>)
    ensures
        keys_ascend(gathered(entries)),
    decreases entries.len(),
{
    if entries.len() > 0 {
        lemma_gathered_ascends(entries.drop_last());
        match entries.last() {
            Some((key, value)) => {
                lemma_put(gathered(entries.drop_last()), key, value);
            },
            None => {},
        }
    }
}

/// Showing a plain structured value to the host and converting what the
/// host then holds gives the value back.
pub proof fn lemma_round_trip(v: StructuredView)
    requires
        plain(v),
    ensures
        structured_of(host_of(v)) == v,
        plain_host(host_of(v)),
    decreases v,
{
    lemma_host_of(v);
    lemma_parts(host_of(v));
    match v {
        StructuredView::Array(items) => {
            let shown = items.map_values(|x: StructuredView| host_of(x));
            let back = shown.map_values(|x: HostView| item_of(x));
            assert forall|i: int| 0 <= i < items.len() implies #[trigger] back[i] == Some(
                items[i],
            ) by {
                lemma_round_trip(items[i]);
                lemma_host_of(items[i]);
            }
            assert forall|i: int| 0 <= i < shown.len() implies plain_host(#[trigger] shown[i]) by {
                lemma_round_trip(items[i]);
            }
            lemma_present_all(back, items);
        },
        StructuredView::Object(fields) => {
            let shown = fields.map_values(|e: (Seq<char>, StructuredView)| (e.0, host_of(e.1)));
            let back = shown.map_values(|e: (Seq<char>, HostView)| entry_of(false, e));
            assert forall|i: int| 0 <= i < fields.len() implies #[trigger] back[i] == Some(
                fields[i],
            ) by {
                lemma_round_trip(fields[i].1);
            }
            assert forall|i: int| 0 <= i < shown.len() implies plain_host(
                (#[trigger] shown[i]).1,
            ) by {
                lemma_round_trip(fields[i].1);
            }
            lemma_gathered_ascending(back, fields);
            assert forall|i: int, j: int| 0 <= i < j < shown.len() implies crate::text::lex_lt(
                #[trigger] shown[i].0,
                #[trigger] shown[j].0,
            ) by {
                assert(shown[i].0 == fields[i].0);
                assert(shown[j].0 == fields[j].0);
            }
        },
        _ => {},
    }
}

/// Converting a plain host value and showing the result to the host gives
/// the host value back.
pub proof fn lemma_round_trip_host(h: HostView)
    requires
        plain_host(h),
    ensures
        host_of(structured_of(h)) == h,
        plain(structured_of(h)),
    decreases h,
{
    lemma_parts(h);
    lemma_host_of(structured_of(h));
    match h {
        HostView::Array(items) => {
            let there = items.map_values(|x: HostView| item_of(x));
            let values = Seq::new(items.len(), |i: int| structured_of(items[i]));
            assert forall|i: int| 0 <= i < items.len() implies #[trigger] there[i] == Some(
                values[i],
            ) by {
                lemma_round_trip_host(items[i]);
            }
            assert forall|i: int| 0 <= i < items.len() implies host_of(#[trigger] values[i])
                == items[i] && plain(values[i]) by {
                lemma_round_trip_host(items[i]);
            }
            lemma_present_all(there, values);
            assert(values.map_values(|x: StructuredView| host_of(x)) =~= items);
        },
        HostView::Object(entries) => {
            let there = entries.map_values(|e: (Seq<char>, HostView)| entry_of(false, e));
            let fields = Seq::new(
                entries.len(),
                |i: int| (entries[i].0, structured_of(entries[i].1)),
            );
            assert forall|i: int| 0 <= i < entries.len() implies #[trigger] there[i] == Some(
                fields[i],
            ) by {
                lemma_round_trip_host(entries[i].1);
            }
            assert forall|i: int| 0 <= i < entries.len() implies host_of(
                (#[trigger] fields[i]).1,
            ) == entries[i].1 && plain(fields[i].1) by {
                lemma_round_trip_host(entries[i].1);
            }
            assert forall|i: int, j: int| 0 <= i < j < fields.len() implies crate::text::lex_lt(
                #[trigger] fields[i].0,
                #[trigger] fields[j].0,
            ) by {
                assert(fields[i].0 == entries[i].0);
                assert(fields[j].0 == entries[j].0);
            }
            lemma_gathered_ascending(there, fields);
            assert(fields.map_values(|e: (Seq<char>, StructuredView)| (e.0, host_of(e.1)))
                =~= entries);
        },
        _ => {},
    }
}

/// Where every entry that is present is well formed, so is every one that
/// `present` keeps.
pub proof fn lemma_present_well_formed(entries: Seq<Option<StructuredView>>)
    requires
        forall|i: int|
            0 <= i < entries.len() && (#[trigger] entries[i]) is Some ==> well_formed(
                entries[i]->0,
            ),
    ensures
        forall|i: int|
            0 <= i < present(entries).len() ==> well_formed(#[trigger] present(entries)[i]),
    decreases entries.len(),
{
    if entries.len() > 0 {
        let rest = entries.drop_last();
        assert forall|i: int| 0 <= i < rest.len() && (#[trigger] rest[i]) is Some implies well_formed(
            rest[i]->0,
        ) by {
            assert(rest[i] == entries[i]);
        }
        lemma_present_well_formed(rest);
        assert forall|i: int| 0 <= i < present(entries).len() implies well_formed(
            #[trigger] present(entries)[i],
        ) by {
            if i < present(rest).len() {
                assert(present(entries)[i] == present(rest)[i]);
            } else {
                assert(entries[entries.len() - 1] is Some);
            }
        }
    }
}

/// Where every entry that is present holds a well-formed value, so does
/// every field that `gathered` keeps.
pub proof fn lemma_gathered_well_formed(entries: Seq<Option<(Seq<char>, StructuredView)>>)
    requires
        forall|i: int|
            0 <= i < entries.len() && (#[trigger] entries[i]) is Some ==> well_formed(
                (entries[i]->0).1,
            ),
    ensures
        forall|i: int|
            0 <= i < gathered(entries).len() ==> well_formed(
                (#[trigger] gathered(entries)[i]).1,
            ),
    decreases entries.len(),
{
    if entries.len() > 0 {
        let rest = entries.drop_last();
        assert forall|i: int| 0 <= i < rest.len() && (#[trigger] rest[i]) is Some implies well_formed(
            (rest[i]->0).1,
        ) by {
            assert(rest[i] == entries[i]);
        }
        lemma_gathered_well_formed(rest);
        crate::value::lemma_rank(gathered(rest), (entries.last()->0).0);
    }
}

/// Conversion is lenient and never produces a malformed value: whatever the
/// host value, the result is well formed, and a value of no known shape, an
/// unreadable one and `undefined` all become `Absent`.
pub proof fn lemma_lenient(h: HostView)
    ensures
        well_formed(structured_of(h)),
        h is Other || h is Unreadable || h is Undefined ==> structured_of(h) == StructuredView::Absent,
    decreases h,
{
    lemma_parts(h);
    match h {
        HostView::SetLike(items) => {
            let there = items.map_values(|x: HostView| item_of(x));
            assert forall|i: int| 0 <= i < there.len() && (#[trigger] there[i]) is Some implies well_formed(
                there[i]->0,
            ) by {
                lemma_lenient(items[i]);
            }
            lemma_present_well_formed(there);
        },
        HostView::Array(items) => {
            let there = items.map_values(|x: HostView| item_of(x));
            assert forall|i: int| 0 <= i < there.len() && (#[trigger] there[i]) is Some implies well_formed(
                there[i]->0,
            ) by {
                lemma_lenient(items[i]);
            }
            lemma_present_well_formed(there);
        },
        HostView::MapLike(entries) => {
            let there = entries.map_values(|e: (Seq<char>, HostView)| entry_of(true, e));
            assert forall|i: int| 0 <= i < there.len() && (#[trigger] there[i]) is Some implies well_formed(
                (there[i]->0).1,
            ) by {
                lemma_lenient(entries[i].1);
            }
            lemma_gathered_well_formed(there);
            lemma_gathered_ascends(there);
        },
        HostView::Object(entries) => {
            let there = entries.map_values(|e: (Seq<char>, HostView)| entry_of(false, e));
            assert forall|i: int| 0 <= i < there.len() && (#[trigger] there[i]) is Some implies well_formed(
                (there[i]->0).1,
            ) by {
                lemma_lenient(entries[i].1);
            }
            lemma_gathered_well_formed(there);
            lemma_gathered_ascends(there);
        },
        _ => {},
    }
}

/// Shows a structured value to the host.
pub fn from_structured(v: &Structured) -> (r: HostValue)
    ensures
        r@ == host_of(v@),
    decreases v,
{
    proof {
        lemma_host_of(v@);
    }
    match v {
        Structured::Absent => HostValue::Undefined,
        Structured::Null => HostValue::Null,
        Structured::Bool(b) => HostValue::Bool(*b),
        Structured::Number(Number::Float(bits)) => HostValue::Number(*bits),
        Structured::Number(Number::Int(i)) => HostValue::Integer(*i),
        Structured::Strand(s) => HostValue::Text(s.clone()),
        Structured::Datetime(ms) => HostValue::Date(*ms),
        Structured::Uuid(id) => HostValue::Text(uuid_hyphenated(id)),
        Structured::Array(items) => {
            let mut out: Vec<HostValue> = Vec::new();
            let mut i: usize = 0;
            while i < items.len()
                invariant
                    i <= items.len(),
                    decreases_to!(v => items),
                    out@.len() == i,
                    forall|j: int| 0 <= j < i ==> out@[j]@ == host_of(items@[j]@),
                decreases items.len() - i,
            {
                proof {
                    vstd::std_specs::vec::axiom_vec_index_decreases(*items, i as int);
                }
                let shown = from_structured(&items[i]);
                out.push(shown);
                i = i + 1;
            }
            proof {
                lemma_array_view(*items);
                lemma_host_view(HostValue::Array(out));
                assert(host_items(out@) =~= items_view(items@).map_values(
                    |x: StructuredView| host_of(x),
                ));
            }
            HostValue::Array(out)
        },
        Structured::Object(entries) => {
            let mut out: Vec<(String, HostValue)> = Vec::new();
            let mut i: usize = 0;
            while i < entries.len()
                invariant
                    i <= entries.len(),
                    decreases_to!(v => entries),
                    out@.len() == i,
                    forall|j: int|
                        0 <= j < i ==> out@[j].0@ == entries@[j].0@ && out@[j].1@ == host_of(
                            entries@[j].1@,
                        ),
                decreases entries.len() - i,
            {
                proof {
                    vstd::std_specs::vec::axiom_vec_index_decreases(*entries, i as int);
                }
                let shown = from_structured(&entries[i].1);
                out.push((entries[i].0.clone(), shown));
                i = i + 1;
            }
            proof {
                lemma_object_view(*entries);
                lemma_host_view(HostValue::Object(out));
                assert(host_fields(out@) =~= fields_view(entries@).map_values(
                    |e: (Seq<char>, StructuredView)| (e.0, host_of(e.1)),
                ));
            }
            HostValue::Object(out)
        },
        Structured::Table(t) => HostValue::Text(t.clone()),
        Structured::Thing { tb, id } => HostValue::Text(format_record(tb.as_str(), id.as_str())),
        Structured::Range { tb, beg, end } => HostValue::Text(format_range(tb.as_str(), beg, end)),
    }
}

/// The text a host value holds, or the empty text if it holds none.
pub open spec fn text_of(h: HostView) -> Seq<char> {
    match h {
        HostView::Text(s) => s,
        _ => Seq::empty(),
    }
}

/// The entries that a map or an object gives as an object; no entries for
/// any other host value.
pub open spec fn fields_of(h: HostView) -> Fields {
    match h {
        HostView::MapLike(_) => gathered(keyed_parts(h)),
        HostView::Object(_) => gathered(keyed_parts(h)),
        _ => Seq::empty(),
    }
}

/// `r` is the structured value `v`.
pub open spec fn same_value(r: Structured, v: StructuredView) -> bool {
    r@ == v
}

/// `r` is the text `s`.
pub open spec fn same_text(r: String, s: Seq<char>) -> bool {
    r@ == s
}

/// `r` holds the fields `fields`.
pub open spec fn same_fields(r: Vec<(String, Structured)>, fields: Fields) -> bool {
    fields_view(r@) == fields
}

/// Conversion of a value into another representation.
pub trait Convert<T> {
    fn convert(self) -> T;
}

impl Convert<Structured> for HostValue {
    /// The structured value that this host value stands for.
    fn convert(self) -> (r: Structured)
        ensures
            same_value(r, structured_of(self@)),
    {
        to_structured(&self)
    }
}

impl Convert<HostValue> for Structured {
    /// The host value that shows this structured value.
    fn convert(self) -> (r: HostValue)
        ensures
            r@ == host_of(self@),
    {
        from_structured(&self)
    }
}

impl Convert<String> for HostValue {
    /// The text this host value holds, or the empty text.
    fn convert(self) -> (r: String)
        ensures
            same_text(r, text_of(self@)),
    {
        match self {
            HostValue::Text(s) => s,
            _ => String::new(),
        }
    }
}

impl Convert<Vec<(String, Structured)>> for HostValue {
    /// The entries of a map or an object as the entries of one object, in
    /// ascending order of their keys; no entries for any other host value.
    fn convert(self) -> (r: Vec<(String, Structured)>)
        ensures
            same_fields(r, fields_of(self@)),
            keys_ascend(fields_of(self@)),
    {
        proof {
            lemma_host_view(self);
            lemma_parts(self@);
            lemma_gathered_ascends(keyed_parts(self@));
        }
        match &self {
            HostValue::MapLike(entries) => gather_fields(entries, true),
            HostValue::Object(entries) => gather_fields(entries, false),
            _ => {
                let out: Vec<(String, Structured)> = Vec::new();
                assert(fields_view(out@) =~= Seq::empty());
                out
            },
        }
    }
}

/// No key occurs twice among the entries of a host object.
pub open spec fn keys_differ(entries: Seq<(Seq<char>, HostView)>) -> bool {
    forall|i: int, j: int|
        0 <= i < j < entries.len() ==> (#[trigger] entries[i]).0 != (#[trigger] entries[j]).0
}

/// A host value made of nothing but null, `undefined`, booleans, numbers,
/// text, dates the date library can represent, arrays and objects in which
/// no key occurs twice. The keys of an object may stand in any order.
pub open spec fn ordinary(h: HostView) -> bool
    decreases h,
{
    match h {
        HostView::Null => true,
        HostView::Undefined => true,
        HostView::Bool(_) => true,
        HostView::Number(_) => true,
        HostView::Integer(_) => true,
        HostView::Text(_) => true,
        HostView::Date(ms) => datetime_accepted(ms),
        HostView::Array(items) => forall|i: int|
            0 <= i < items.len() ==> ordinary(#[trigger] items[i]),
        HostView::Object(entries) => keys_differ(entries) && forall|i: int|
            0 <= i < entries.len() ==> ordinary((#[trigger] entries[i]).1),
        _ => false,
    }
}

/// Two host values are deeply equal as the host sees it: the same
/// primitives, arrays of the same length with equal items in the same
/// order, objects with as many entries and under every key of the one an
/// equal value in the other, whatever the order of the keys.
pub open spec fn alike(a: HostView, b: HostView) -> bool
    decreases a,
{
    match a {
        HostView::Array(x) => b is Array && b->Array_0.len() == x.len() && forall|i: int|
            #![trigger x[i]]
            0 <= i < x.len() ==> alike(x[i], b->Array_0[i]),
        HostView::Object(x) => b is Object && b->Object_0.len() == x.len() && forall|i: int|
            #![trigger x[i]]
            0 <= i < x.len() ==> exists|j: int|
                #![trigger b->Object_0[j]]
                0 <= j < b->Object_0.len() && b->Object_0[j].0 == x[i].0 && alike(
                    x[i].1,
                    b->Object_0[j].1,
                ),
        _ => a == b,
    }
}

/// `field` is among `fields`.
pub open spec fn has_field(fields: Fields, field: (Seq<char>, StructuredView)) -> bool {
    exists|j: int| 0 <= j < fields.len() && #[trigger] fields[j] == field
}

/// `field` is among the entries that are present.
pub open spec fn has_entry(
    entries: Seq<Option<(Seq<char>, StructuredView)>>,
    field: (Seq<char>, StructuredView),
) -> bool {
    exists|i: int| 0 <= i < entries.len() && #[trigger] entries[i] == Some(field)
}

/// After `put` the field stored is among the fields, with every field of
/// another key that was there, and nothing else.
pub proof fn lemma_put_fields(fields: Fields, key: Seq<char>, value: StructuredView)
    ensures
        has_field(put(fields, key, value), (key, value)),
        forall|k: int|
            0 <= k < fields.len() && (#[trigger] fields[k]).0 != key ==> has_field(
                put(fields, key, value),
                fields[k],
            ),
        forall|j: int|
            0 <= j < put(fields, key, value).len() ==> (#[trigger] put(fields, key, value)[j])
                == (key, value) || has_field(fields, put(fields, key, value)[j]),
        (forall|k: int| 0 <= k < fields.len() ==> (#[trigger] fields[k]).0 != key) ==> put(
            fields,
            key,
            value,
        ).len() == fields.len() + 1,
{
    let at = crate::value::rank(fields, key);
    let after = put(fields, key, value);
    crate::value::lemma_rank(fields, key);
    let replaced = at < fields.len() && fields[at].0 == key;
    assert(after[at] == (key, value));
    assert forall|k: int| 0 <= k < fields.len() && (#[trigger] fields[k]).0 != key implies has_field(
        after,
        fields[k],
    ) by {
        let j = if replaced || k < at {
            k
        } else {
            k + 1
        };
        assert(after[j] == fields[k]);
    }
    assert forall|j: int| 0 <= j < after.len() implies (#[trigger] after[j]) == (key, value)
        || has_field(fields, after[j]) by {
        if j != at {
            let k = if replaced || j < at {
                j
            } else {
                j - 1
            };
            assert(fields[k] == after[j]);
        }
    }
}

/// Every field that `gathered` keeps is one of the entries.
pub proof fn lemma_gathered_from(entries: Seq<Option<(Seq<char>, StructuredView)>>)
    ensures
        forall|j: int|
            0 <= j < gathered(entries).len() ==> has_entry(
                entries,
                #[trigger] gathered(entries)[j],
            ),
    decreases entries.len(),
{
    if entries.len() > 0 {
        let rest = entries.drop_last();
        let last = entries.len() - 1;
        lemma_gathered_from(rest);
        let before = gathered(rest);
        match entries.last() {
            Some((key, value)) => {
                lemma_put_fields(before, key, value);
            },
            None => {},
        }
        assert forall|j: int| 0 <= j < gathered(entries).len() implies has_entry(
            entries,
            #[trigger] gathered(entries)[j],
        ) by {
            let field = gathered(entries)[j];
            if entries[last] == Some(field) {
            } else {
                assert(has_field(before, field));
                let k = choose|k: int| 0 <= k < before.len() && #[trigger] before[k] == field;
                assert(has_entry(rest, before[k]));
                let i = choose|i: int| 0 <= i < rest.len() && #[trigger] rest[i] == Some(field);
                assert(entries[i] == rest[i]);
            }
        }
    }
}

/// The key of an entry that is present.
pub open spec fn key_at(entries: Seq<Option<(Seq<char>, StructuredView)>>, i: int) -> Seq<char> {
    (entries[i]->0).0
}

/// Where every entry is present and no key occurs twice, `gathered` keeps
/// every entry, and nothing else.
pub proof fn lemma_gathered_all(entries: Seq<Option<(Seq<char>, StructuredView)>>)
    requires
        forall|i: int| 0 <= i < entries.len() ==> (#[trigger] entries[i]) is Some,
        forall|i: int, j: int|
            0 <= i < j < entries.len() ==> #[trigger] key_at(entries, i) != #[trigger] key_at(
                entries,
                j,
            ),
    ensures
        gathered(entries).len() == entries.len(),
        forall|i: int|
            0 <= i < entries.len() ==> has_field(gathered(entries), (#[trigger] entries[i])->0),
    decreases entries.len(),
{
    if entries.len() > 0 {
        let rest = entries.drop_last();
        let last = entries.len() - 1;
        assert forall|i: int| 0 <= i < rest.len() implies (#[trigger] rest[i]) is Some by {
            assert(rest[i] == entries[i]);
        }
        assert forall|i: int, j: int| 0 <= i < j < rest.len() implies #[trigger] key_at(rest, i)
            != #[trigger] key_at(rest, j) by {
            assert(key_at(rest, i) == key_at(entries, i));
            assert(key_at(rest, j) == key_at(entries, j));
        }
        lemma_gathered_all(rest);
        lemma_gathered_from(rest);
        let key = (entries[last]->0).0;
        let value = (entries[last]->0).1;
        let before = gathered(rest);
        assert(gathered(entries) == put(before, key, value));
        assert forall|k: int| 0 <= k < before.len() implies (#[trigger] before[k]).0 != key by {
            assert(has_entry(rest, before[k]));
            let i = choose|i: int| 0 <= i < rest.len() && #[trigger] rest[i] == Some(before[k]);
            assert(rest[i] == entries[i]);
            assert(key_at(entries, i) != key_at(entries, last));
        }
        lemma_put_fields(before, key, value);
        assert forall|i: int| 0 <= i < entries.len() implies has_field(
            gathered(entries),
            (#[trigger] entries[i])->0,
        ) by {
            if i < last {
                assert(rest[i] == entries[i]);
                assert(has_field(before, rest[i]->0));
                let k = choose|k: int| 0 <= k < before.len() && #[trigger] before[k] == rest[i]->0;
                assert(before[k].0 != key);
            }
        }
    }
}

/// The round trip of the entries of an ordinary object, given that of
/// their values.
proof fn lemma_round_trip_entries(entries: Seq<(Seq<char>, HostView)>)
    requires
        keys_differ(entries),
        forall|i: int|
            0 <= i < entries.len() ==> alike(
                (#[trigger] entries[i]).1,
                host_of(structured_of(entries[i].1)),
            ) && plain(structured_of(entries[i].1)),
    ensures
        alike(
            HostView::Object(entries),
            host_of(structured_of(HostView::Object(entries))),
        ),
        plain(structured_of(HostView::Object(entries))),
{
    let h = HostView::Object(entries);
    lemma_parts(h);
    lemma_host_of(structured_of(h));
    let there = entries.map_values(|e: (Seq<char>, HostView)| entry_of(false, e));
    let fields = gathered(there);
    assert forall|i: int, j: int| 0 <= i < j < there.len() implies #[trigger] key_at(there, i)
        != #[trigger] key_at(there, j) by {
        assert(key_at(there, i) == entries[i].0);
        assert(key_at(there, j) == entries[j].0);
    }
    lemma_gathered_all(there);
    lemma_gathered_from(there);
    lemma_gathered_ascends(there);
    assert forall|j: int| 0 <= j < fields.len() implies plain((#[trigger] fields[j]).1) by {
        assert(has_entry(there, fields[j]));
        let i = choose|i: int| 0 <= i < there.len() && #[trigger] there[i] == Some(fields[j]);
        assert(fields[j].1 == structured_of(entries[i].1));
    }
    let shown = fields.map_values(|e: (Seq<char>, StructuredView)| (e.0, host_of(e.1)));
    assert(host_of(structured_of(h)) == HostView::Object(shown));
    assert forall|i: int| #![trigger entries[i]] 0 <= i < entries.len() implies exists|j: int|
        #![trigger shown[j]]
        0 <= j < shown.len() && shown[j].0 == entries[i].0 && alike(entries[i].1, shown[j].1) by {
        assert(has_field(fields, there[i]->0));
        let j = choose|j: int| 0 <= j < fields.len() && #[trigger] fields[j] == there[i]->0;
        assert(shown[j] == (fields[j].0, host_of(fields[j].1)));
        assert(shown[j].0 == entries[i].0 && alike(entries[i].1, shown[j].1));
    }
    let b = host_of(structured_of(h));
    assert(b is Object);
    assert(b->Object_0 == shown);
    assert(shown.len() == entries.len());
    assert(forall|i: int|
        #![trigger entries[i]]
        0 <= i < entries.len() ==> exists|j: int|
            #![trigger b->Object_0[j]]
            0 <= j < b->Object_0.len() && b->Object_0[j].0 == entries[i].0 && alike(
                entries[i].1,
                b->Object_0[j].1,
            ));
    assert(alike(h, b));
}

/// Converting an ordinary host value and showing the result to the host
/// gives a value that the host finds deeply equal to the first: objects
/// come back as objects with the same keys and equal values, their keys in
/// ascending order.
pub proof fn lemma_round_trip_ordinary(h: HostView)
    requires
        ordinary(h),
    ensures
        alike(h, host_of(structured_of(h))),
        plain(structured_of(h)),
        plain_host(host_of(structured_of(h))),
    decreases h,
{
    match h {
        HostView::Array(items) => {
            lemma_parts(h);
            lemma_host_of(structured_of(h));
            let there = items.map_values(|x: HostView| item_of(x));
            let values = Seq::new(items.len(), |i: int| structured_of(items[i]));
            assert forall|i: int| 0 <= i < items.len() implies #[trigger] there[i] == Some(
                values[i],
            ) by {
                lemma_round_trip_ordinary(items[i]);
            }
            assert forall|i: int| 0 <= i < items.len() implies plain(#[trigger] values[i]) by {
                lemma_round_trip_ordinary(items[i]);
            }
            lemma_present_all(there, values);
            let shown = values.map_values(|x: StructuredView| host_of(x));
            assert(host_of(structured_of(h)) == HostView::Array(shown));
            assert forall|i: int| #![trigger items[i]] 0 <= i < items.len() implies alike(
                items[i],
                shown[i],
            ) by {
                lemma_round_trip_ordinary(items[i]);
                assert(shown[i] == host_of(values[i]));
            }
        },
        HostView::Object(entries) => {
            assert forall|i: int| 0 <= i < entries.len() implies alike(
                (#[trigger] entries[i]).1,
                host_of(structured_of(entries[i].1)),
            ) && plain(structured_of(entries[i].1)) by {
                lemma_round_trip_ordinary(entries[i].1);
            }
            lemma_round_trip_entries(entries);
        },
        _ => {},
    }
    lemma_round_trip(structured_of(h));
}

/// What the host answers when it is asked what a value is, one answer per
/// question. A value may pass more than one test: an array, a map, a set
/// and a function are objects too.
#[derive(Clone, Copy, Debug, PartialEq, Eq, Structural)]
pub struct Probe {
    pub null: bool,
    pub undefined: bool,
    pub boolean: bool,
    pub number: bool,
    pub integer: bool,
    pub text: bool,
    pub function: bool,
    pub date: bool,
    pub set: bool,
    pub array: bool,
    pub map: bool,
    pub object: bool,
}

/// The shape that a host value is taken to have.
#[derive(Clone, Copy, Debug, PartialEq, Eq, Structural)]
pub enum Shape {
    Null,
    Undefined,
    Boolean,
    Number,
    Integer,
    Text,
    Date,
    SetLike,
    Array,
    MapLike,
    Object,
    Other,
}

/// The shape of a value by the first test that it passes, in this order:
/// null, undefined, boolean, number, whole number, text, function, date,
/// set, array, map, object. A function has no known shape, though it is an
/// object; neither has a value that passes no test.
pub open spec fn shape_spec(p: Probe) -> Shape {
    if p.null {
        Shape::Null
    } else if p.undefined {
        Shape::Undefined
    } else if p.boolean {
        Shape::Boolean
    } else if p.number {
        Shape::Number
    } else if p.integer {
        Shape::Integer
    } else if p.text {
        Shape::Text
    } else if p.function {
        Shape::Other
    } else if p.date {
        Shape::Date
    } else if p.set {
        Shape::SetLike
    } else if p.array {
        Shape::Array
    } else if p.map {
        Shape::MapLike
    } else if p.object {
        Shape::Object
    } else {
        Shape::Other
    }
}

/// Decides the shape of a host value from the answers of the host.
pub fn shape_of(p: &Probe) -> (s: Shape)
    ensures
        s == shape_spec(*p),
{
    if p.null {
        Shape::Null
    } else if p.undefined {
        Shape::Undefined
    } else if p.boolean {
        Shape::Boolean
    } else if p.number {
        Shape::Number
    } else if p.integer {
        Shape::Integer
    } else if p.text {
        Shape::Text
    } else if p.function {
        Shape::Other
    } else if p.date {
        Shape::Date
    } else if p.set {
        Shape::SetLike
    } else if p.array {
        Shape::Array
    } else if p.map {
        Shape::MapLike
    } else if p.object {
        Shape::Object
    } else {
        Shape::Other
    }
}

} // verus!
