//! Resource addresses: one string that names a whole table, one record or a
//! range of records.

use crate::value::Bound;
use crate::value::BoundView;
use crate::value::Structured;
use crate::value::StructuredView;
use vstd::prelude::*;
use vstd::string::StrSliceExecFns;
use vstd::string::StringExecFns;

verus! {

/// What an operation is aimed at.
#[derive(Debug, PartialEq, Eq)]
pub enum ResourceAddress {
    /// Every record of a table.
    Table(String),
    /// One record of a table.
    Record { table: String, id: String },
    /// The records of a table whose keys lie between two bounds.
    Range { table: String, beg: Bound, end: Bound },
}

/// Mathematical form of a [`ResourceAddress`].
pub enum AddressView {
    Table(Seq<char>),
    Record { table: Seq<char>, id: Seq<char> },
    Range { table: Seq<char>, beg: BoundView, end: BoundView },
}

impl View for ResourceAddress {
    type V = AddressView;

    open spec fn view(&self) -> AddressView {
        match self {
            ResourceAddress::Table(t) => AddressView::Table(t@),
            ResourceAddress::Record { table, id } => AddressView::Record { table: table@, id: id@ },
            ResourceAddress::Range { table, beg, end } => AddressView::Range {
                table: table@,
                beg: beg@,
                end: end@,
            },
        }
    }
}

/// A character that may stand in the table name and in the keys of a range:
/// an ASCII letter, an ASCII digit or the underscore.
pub open spec fn is_name_char(c: char) -> bool {
    ('a' <= c && c <= 'z') || ('A' <= c && c <= 'Z') || ('0' <= c && c <= '9') || c == '_'
}

/// A name: one or more name characters.
pub open spec fn is_name(s: Seq<char>) -> bool {
    s.len() > 0 && forall|i: int| 0 <= i < s.len() ==> is_name_char(#[trigger] s[i])
}

/// The first position at or after `from` where `s` holds `c`, or the length
/// of `s` if there is none.
pub open spec fn first_at(s: Seq<char>, c: char, from: int) -> int
    decreases s.len() - from,
{
    if from < 0 || from >= s.len() {
        s.len() as int
    } else if s[from] == c {
        from
    } else {
        first_at(s, c, from + 1)
    }
}

/// The lower bound written as `part`: nothing for no bound, a name for a
/// bound that belongs to the range, a name followed by `>` for one that
/// does not.
pub open spec fn lower_bound(part: Seq<char>) -> Option<BoundView> {
    if part.len() == 0 {
        Some(BoundView::Unbounded)
    } else if is_name(part) {
        Some(BoundView::Included(part))
    } else if part.last() == '>' && is_name(part.drop_last()) {
        Some(BoundView::Excluded(part.drop_last()))
    } else {
        None
    }
}

/// The upper bound written as `part`: nothing for no bound, a name for a
/// bound that belongs to the range, `<` followed by a name for one that
/// does not.
pub open spec fn upper_bound(part: Seq<char>) -> Option<BoundView> {
    if part.len() == 0 {
        Some(BoundView::Unbounded)
    } else if is_name(part) {
        Some(BoundView::Included(part))
    } else if part[0] == '<' && is_name(part.skip(1)) {
        Some(BoundView::Excluded(part.skip(1)))
    } else {
        None
    }
}

/// The range that `s` denotes, if `s` as a whole follows the range grammar:
/// a name, a colon, a lower bound, two dots, an upper bound.
pub open spec fn range_of(s: Seq<char>) -> Option<AddressView> {
    let colon = first_at(s, ':', 0);
    let dots = first_at(s, '.', colon + 1);
    if colon < s.len() && is_name(s.subrange(0, colon)) && dots + 1 < s.len() && s[dots + 1]
        == '.' {
        match (
            lower_bound(s.subrange(colon + 1, dots)),
            upper_bound(s.subrange(dots + 2, s.len() as int)),
        ) {
            (Some(beg), Some(end)) => Some(
                AddressView::Range { table: s.subrange(0, colon), beg, end },
            ),
            _ => None,
        }
    } else {
        None
    }
}

/// The address that `s` denotes. A string that follows the range grammar
/// is a range. Any other string is a record if it holds a colon, with the
/// table before the first colon and the key after it, and else a table.
pub open spec fn address_of(s: Seq<char>) -> AddressView {
    match range_of(s) {
        Some(range) => range,
        None => {
            let colon = first_at(s, ':', 0);
            if colon < s.len() {
                AddressView::Record {
                    table: s.subrange(0, colon),
                    id: s.subrange(colon + 1, s.len() as int),
                }
            } else {
                AddressView::Table(s)
            }
        },
    }
}

/// `first_at` stays between `from` and the length, finds `c`, and passes
/// over no `c`.
pub proof fn lemma_first_at(s: Seq<char>, c: char, from: int)
    requires
        0 <= from <= s.len(),
    ensures
        from <= first_at(s, c, from) <= s.len(),
        first_at(s, c, from) < s.len() ==> s[first_at(s, c, from)] == c,
        forall|i: int| from <= i < first_at(s, c, from) ==> s[i] != c,
    decreases s.len() - from,
{
    if from < s.len() && s[from] != c {
        lemma_first_at(s, c, from + 1);
    }
}

/// A position that holds the first `c` at or after `from` is `first_at`.
pub proof fn lemma_first_at_is(s: Seq<char>, c: char, from: int, at: int)
    requires
        0 <= from <= at <= s.len(),
        at < s.len() ==> s[at] == c,
        forall|i: int| from <= i < at ==> s[i] != c,
    ensures
        first_at(s, c, from) == at,
    decreases at - from,
{
    if from < at {
        lemma_first_at_is(s, c, from + 1, at);
    }
}

/// Whether `c` is a name character.
fn name_char(c: char) -> (r: bool)
    ensures
        r == is_name_char(c),
{
    ('a' <= c && c <= 'z') || ('A' <= c && c <= 'Z') || ('0' <= c && c <= '9') || c == '_'
}

/// Finds the first `c` in `s` at or after `from`.
fn find_from(s: &str, len: usize, c: char, from: usize) -> (r: usize)
    requires
        len == s@.len(),
        from <= len,
    ensures
        r == first_at(s@, c, from as int),
        from <= r <= len,
{
    let mut at: usize = from;
    while at < len && s.get_char(at) != c
        invariant
            from <= at <= len,
            len == s@.len(),
            forall|i: int| from <= i < at ==> s@[i] != c,
        decreases len - at,
    {
        at = at + 1;
    }
    proof {
        lemma_first_at_is(s@, c, from as int, at as int);
    }
    at
}

/// Whether the characters of `s` from `from` up to `to` form a name.
fn name_between(s: &str, from: usize, to: usize) -> (r: bool)
    requires
        from <= to <= s@.len(),
    ensures
        r == is_name(s@.subrange(from as int, to as int)),
{
    if from == to {
        return false;
    }
    let ghost part = s@.subrange(from as int, to as int);
    let mut at: usize = from;
    while at < to
        invariant
            from <= at <= to <= s@.len(),
            part == s@.subrange(from as int, to as int),
            forall|i: int| 0 <= i < at - from ==> is_name_char(#[trigger] part[i]),
        decreases to - at,
    {
        if !name_char(s.get_char(at)) {
            assert(part[at - from] == s@[at as int]);
            return false;
        }
        assert(part[at - from] == s@[at as int]);
        at = at + 1;
    }
    true
}

/// Copies the characters of `s` from `from` up to `to` into a new string.
fn copy_between(s: &str, from: usize, to: usize) -> (r: String)
    requires
        from <= to <= s@.len(),
    ensures
        r@ == s@.subrange(from as int, to as int),
{
    String::from_str(s.substring_char(from, to))
}

/// Reads the lower bound written in `s` from `from` up to `to`.
fn read_lower(s: &str, from: usize, to: usize) -> (r: Option<Bound>)
    requires
        from <= to <= s@.len(),
    ensures
        r is Some <==> lower_bound(s@.subrange(from as int, to as int)) is Some,
        r matches Some(b) ==> Some(b@) == lower_bound(s@.subrange(from as int, to as int)),
{
    let ghost part = s@.subrange(from as int, to as int);
    if from == to {
        Some(Bound::Unbounded)
    } else if name_between(s, from, to) {
        Some(Bound::Included(copy_between(s, from, to)))
    } else if s.get_char(to - 1) == '>' && name_between(s, from, to - 1) {
        assert(part.last() == s@[to - 1]);
        assert(part.drop_last() =~= s@.subrange(from as int, to - 1));
        Some(Bound::Excluded(copy_between(s, from, to - 1)))
    } else {
        assert(part.last() == s@[to - 1]);
        assert(part.drop_last() =~= s@.subrange(from as int, to - 1));
        None
    }
}

/// Reads the upper bound written in `s` from `from` up to `to`.
fn read_upper(s: &str, from: usize, to: usize) -> (r: Option<Bound>)
    requires
        from <= to <= s@.len(),
    ensures
        r is Some <==> upper_bound(s@.subrange(from as int, to as int)) is Some,
        r matches Some(b) ==> Some(b@) == upper_bound(s@.subrange(from as int, to as int)),
{
    let ghost part = s@.subrange(from as int, to as int);
    if from == to {
        Some(Bound::Unbounded)
    } else if name_between(s, from, to) {
        Some(Bound::Included(copy_between(s, from, to)))
    } else if s.get_char(from) == '<' && name_between(s, from + 1, to) {
        assert(part[0] == s@[from as int]);
        assert(part.skip(1) =~= s@.subrange(from + 1, to as int));
        Some(Bound::Excluded(copy_between(s, from + 1, to)))
    } else {
        assert(part[0] == s@[from as int]);
        assert(part.skip(1) =~= s@.subrange(from + 1, to as int));
        None
    }
}

impl ResourceAddress {
    /// Parses an address. Every string is an address: one that follows the
    /// range grammar as a whole is a range, any other is a record if it
    /// holds a colon and a table if it holds none.
    pub fn parse(address: &str) -> (r: ResourceAddress)
        ensures
            r@ == address_of(address@),
    {
        let len = address.unicode_len();
        let colon = find_from(address, len, ':', 0);
        if colon >= len {
            assert(address@.subrange(0, len as int) =~= address@);
            return ResourceAddress::Table(copy_between(address, 0, len));
        }
        let dots = find_from(address, len, '.', colon + 1);
        if name_between(address, 0, colon) && dots < len - 1 && address.get_char(dots + 1)
            == '.' {
            let beg = read_lower(address, colon + 1, dots);
            let end = read_upper(address, dots + 2, len);
            match (beg, end) {
                (Some(beg), Some(end)) => {
                    return ResourceAddress::Range {
                        table: copy_between(address, 0, colon),
                        beg,
                        end,
                    };
                },
                _ => {},
            }
        }
        ResourceAddress::Record {
            table: copy_between(address, 0, colon),
            id: copy_between(address, colon + 1, len),
        }
    }
}

/// How a lower bound is written.
pub open spec fn lower_text(b: BoundView) -> Seq<char> {
    match b {
        BoundView::Unbounded => Seq::empty(),
        BoundView::Included(k) => k,
        BoundView::Excluded(k) => k.push('>'),
    }
}

/// How an upper bound is written.
pub open spec fn upper_text(b: BoundView) -> Seq<char> {
    match b {
        BoundView::Unbounded => Seq::empty(),
        BoundView::Included(k) => k,
        BoundView::Excluded(k) => seq!['<'] + k,
    }
}

/// How an address is written.
pub open spec fn address_text(a: AddressView) -> Seq<char> {
    match a {
        AddressView::Table(t) => t,
        AddressView::Record { table, id } => table.push(':') + id,
        AddressView::Range { table, beg, end } => table.push(':') + lower_text(beg) + seq![
            '.',
            '.',
        ] + upper_text(end),
    }
}

/// A bound whose key, if it has one, is a name.
pub open spec fn bound_named(b: BoundView) -> bool {
    match b {
        BoundView::Unbounded => true,
        BoundView::Included(k) => is_name(k),
        BoundView::Excluded(k) => is_name(k),
    }
}

/// Reading a written lower bound gives the bound back.
pub proof fn lemma_lower_round_trip(b: BoundView)
    requires
        bound_named(b),
    ensures
        lower_bound(lower_text(b)) == Some(b),
        forall|i: int| 0 <= i < lower_text(b).len() ==> lower_text(b)[i] != '.',
{
    match b {
        BoundView::Excluded(k) => {
            let part = k.push('>');
            assert(part.last() == '>');
            assert(!is_name_char(part[part.len() - 1]));
            assert(part.drop_last() =~= k);
            assert forall|i: int| 0 <= i < part.len() implies part[i] != '.' by {
                if i < k.len() {
                    assert(is_name_char(k[i]));
                }
            }
        },
        BoundView::Included(k) => {
            assert forall|i: int| 0 <= i < k.len() implies k[i] != '.' by {
                assert(is_name_char(k[i]));
            }
        },
        BoundView::Unbounded => {},
    }
}

/// Reading a written upper bound gives the bound back.
pub proof fn lemma_upper_round_trip(b: BoundView)
    requires
        bound_named(b),
    ensures
        upper_bound(upper_text(b)) == Some(b),
{
    match b {
        BoundView::Excluded(k) => {
            let part = seq!['<'] + k;
            assert(part[0] == '<');
            assert(!is_name_char(part[0]));
            assert(part.skip(1) =~= k);
        },
        _ => {},
    }
}

/// A range written down and parsed again is the same range, whichever of
/// its bounds are missing and whichever belong to it: the range grammar
/// covers all of these forms, and it comes first.
pub proof fn lemma_range_round_trip(table: Seq<char>, beg: BoundView, end: BoundView)
    requires
        is_name(table),
        bound_named(beg),
        bound_named(end),
    ensures
        address_of(address_text(AddressView::Range { table, beg, end })) == (AddressView::Range {
            table,
            beg,
            end,
        }),
{
    let s = address_text(AddressView::Range { table, beg, end });
    let colon = table.len() as int;
    let dots = colon + 1 + lower_text(beg).len();
    lemma_lower_round_trip(beg);
    lemma_upper_round_trip(end);
    assert forall|i: int| 0 <= i < colon implies s[i] != ':' by {
        assert(s[i] == table[i]);
        assert(is_name_char(table[i]));
    }
    assert(s[colon] == ':');
    lemma_first_at_is(s, ':', 0, colon);
    assert forall|i: int| colon + 1 <= i < dots implies s[i] != '.' by {
        assert(s[i] == lower_text(beg)[i - colon - 1]);
    }
    assert(s[dots] == '.');
    assert(s[dots + 1] == '.');
    lemma_first_at_is(s, '.', colon + 1, dots);
    assert(s.subrange(0, colon) =~= table);
    assert(s.subrange(colon + 1, dots) =~= lower_text(beg));
    assert(s.subrange(dots + 2, s.len() as int) =~= upper_text(end));
}

/// A string without a colon is a table, and a string with one that is no
/// range is the record of what stands before and after its first colon,
/// even where two dots occur in it.
pub proof fn lemma_fallback(s: Seq<char>)
    ensures
        first_at(s, ':', 0) == s.len() ==> address_of(s) == AddressView::Table(s),
        first_at(s, ':', 0) < s.len() && range_of(s) is None ==> address_of(s) == (
        AddressView::Record {
            table: s.subrange(0, first_at(s, ':', 0)),
            id: s.subrange(first_at(s, ':', 0) + 1, s.len() as int),
        }),
        range_of(s) is Some ==> address_of(s) is Range,
{
    lemma_first_at(s, ':', 0);
}

/// The structured value that refers to what an address names.
pub open spec fn reference_of(a: AddressView) -> StructuredView {
    match a {
        AddressView::Table(t) => StructuredView::Table(t),
        AddressView::Record { table, id } => StructuredView::Thing { tb: table, id },
        AddressView::Range { table, beg, end } => StructuredView::Range { tb: table, beg, end },
    }
}

/// Writes a lower bound.
fn write_lower(out: &mut String, b: &Bound)
    ensures
        final(out)@ == old(out)@ + lower_text(b@),
{
    match b {
        Bound::Unbounded => {
            assert(out@ + Seq::<char>::empty() =~= out@);
        },
        Bound::Included(k) => {
            out.append(k.as_str());
        },
        Bound::Excluded(k) => {
            let ghost start = out@;
            out.append(k.as_str());
            out.append(">");
            proof {
                reveal_strlit(">");
                assert(">"@ =~= seq!['>']);
                assert(out@ =~= start + k@.push('>'));
            }
        },
    }
}

/// Writes an upper bound.
fn write_upper(out: &mut String, b: &Bound)
    ensures
        final(out)@ == old(out)@ + upper_text(b@),
{
    match b {
        Bound::Unbounded => {
            assert(out@ + Seq::<char>::empty() =~= out@);
        },
        Bound::Included(k) => {
            out.append(k.as_str());
        },
        Bound::Excluded(k) => {
            let ghost start = out@;
            out.append("<");
            out.append(k.as_str());
            proof {
                reveal_strlit("<");
                assert("<"@ =~= seq!['<']);
                assert(out@ =~= start + (seq!['<'] + k@));
            }
        },
    }
}

/// Writes the address of one record.
pub fn format_record(table: &str, id: &str) -> (r: String)
    ensures
        r@ == address_text(AddressView::Record { table: table@, id: id@ }),
{
    proof {
        reveal_strlit(":");
        assert(":"@ =~= seq![':']);
    }
    let mut out = String::from_str(table);
    out.append(":");
    out.append(id);
    assert(out@ =~= table@.push(':') + id@);
    out
}

/// Writes the address of a range of records.
pub fn format_range(table: &str, beg: &Bound, end: &Bound) -> (r: String)
    ensures
        r@ == address_text(AddressView::Range { table: table@, beg: beg@, end: end@ }),
{
    proof {
        reveal_strlit(":");
        reveal_strlit("..");
        assert(":"@ =~= seq![':']);
        assert(".."@ =~= seq!['.', '.']);
    }
    let mut out = String::from_str(table);
    out.append(":");
    write_lower(&mut out, beg);
    out.append("..");
    write_upper(&mut out, end);
    assert(out@ =~= table@.push(':') + lower_text(beg@) + seq!['.', '.'] + upper_text(end@));
    out
}

impl ResourceAddress {
    /// Writes the address down.
    pub fn format(&self) -> (r: String)
        ensures
            r@ == address_text(self@),
    {
        match self {
            ResourceAddress::Table(t) => t.clone(),
            ResourceAddress::Record { table, id } => format_record(table.as_str(), id.as_str()),
            ResourceAddress::Range { table, beg, end } => format_range(table.as_str(), beg, end),
        }
    }

    /// The structured value that refers to what this address names.
    pub fn into_value(self) -> (r: Structured)
        ensures
            r@ == reference_of(self@),
    {
        match self {
            ResourceAddress::Table(t) => Structured::Table(t),
            ResourceAddress::Record { table, id } => Structured::Thing { tb: table, id },
            ResourceAddress::Range { table, beg, end } => Structured::Range { tb: table, beg, end },
        }
    }

    /// Whether the address names one record, so that an operation on it
    /// answers with that record rather than with a list.
    pub fn is_single(&self) -> (r: bool)
        ensures
            r == (self@ is Record),
    {
        match self {
            ResourceAddress::Record { .. } => true,
            _ => false,
        }
    }
}

} // verus!
