//! Statements for the engine, and what to make of its answers.

use crate::err::Error;
use crate::err::ErrorKind;
use crate::opt::patch::instruction_of;
use crate::opt::patch::Patch;
use crate::opt::patch::PatchView;
use crate::opt::resource::patches_view;
use crate::opt::resource::Clause;
use crate::opt::resource::ClauseView;
use crate::resource::address_of;
use crate::resource::reference_of;
use crate::resource::ResourceAddress;
use crate::text::str_same;
use crate::value::fields_view;
use crate::value::items_view;
use crate::value::lemma_array_view;
use crate::value::object_put;
use crate::value::put;
use crate::value::Fields;
use crate::value::Structured;
use crate::value::StructuredView;
use vstd::prelude::*;
use vstd::string::StringExecFns;

verus! {

/// A statement for the engine: its text, the values bound to the variables
/// in it, and whether it is aimed at one record, so that its answer is
/// that record rather than a list.
#[derive(Debug, PartialEq, Eq)]
pub struct Statement {
    pub text: String,
    pub vars: Vec<(String, Structured)>,
    pub single: bool,
}

/// Mathematical form of a [`Statement`].
pub struct StatementView {
    pub text: Seq<char>,
    pub vars: Fields,
    pub single: bool,
}

impl View for Statement {
    type V = StatementView;

    open spec fn view(&self) -> StatementView {
        StatementView { text: self.text@, vars: fields_view(self.vars@), single: self.single }
    }
}

/// What a statement is aimed at: text is read as a resource address, any
/// other value is taken as it is.
pub open spec fn target_of(what: StructuredView) -> StructuredView {
    match what {
        StructuredView::Strand(s) => reference_of(address_of(s)),
        _ => what,
    }
}

/// The statement with the given text aimed at `what`.
pub open spec fn aimed(text: Seq<char>, what: StructuredView) -> StatementView {
    StatementView {
        text,
        vars: seq![("what"@, target_of(what))],
        single: target_of(what) is Thing,
    }
}

/// The statement `s` with a clause appended that takes `data`.
pub open spec fn with_data(s: StatementView, clause: Seq<char>, data: StructuredView) -> StatementView {
    StatementView { text: s.text + clause, vars: put(s.vars, "data"@, data), single: s.single }
}

/// The instructions of a list of changes, each chained onto those before
/// it, in the order of the list.
pub open spec fn chained(patches: Seq<PatchView>) -> Seq<StructuredView>
    decreases patches.len(),
{
    if patches.len() == 0 {
        Seq::empty()
    } else {
        chained(patches.drop_last()).push(instruction_of(patches.last()))
    }
}

/// An update with a list of changes applied to it: the update itself if
/// the list is empty, else the update with all the changes as one set of
/// instructions.
pub open spec fn patched(base: StatementView, patches: Seq<PatchView>) -> StatementView {
    if patches.len() == 0 {
        base
    } else {
        with_data(base, " PATCH $data"@, StructuredView::Array(chained(patches)))
    }
}

/// The statement of an update.
pub open spec fn update_of(what: StructuredView, clause: Option<ClauseView>) -> StatementView {
    let bare = aimed("UPDATE $what"@, what);
    match clause {
        None => bare,
        Some(ClauseView::Content(data)) => with_data(bare, " CONTENT $data"@, data),
        Some(ClauseView::Merge(data)) => with_data(bare, " MERGE $data"@, data),
        Some(ClauseView::Patch(patches)) => patched(bare, patches),
    }
}

/// The statement that creates records, with content if any is given.
pub open spec fn create_of(what: StructuredView, data: Option<StructuredView>) -> StatementView {
    let bare = aimed("CREATE $what"@, what);
    match data {
        Some(data) => with_data(bare, " CONTENT $data"@, data),
        None => bare,
    }
}

/// `chained` keeps the length and the order of the list.
pub proof fn lemma_chained(patches: Seq<PatchView>)
    ensures
        chained(patches).len() == patches.len(),
        forall|i: int|
            0 <= i < patches.len() ==> #[trigger] chained(patches)[i] == instruction_of(
                patches[i],
            ),
    decreases patches.len(),
{
    if patches.len() > 0 {
        lemma_chained(patches.drop_last());
    }
}

/// An update with an empty list of changes is the update with no clause.
pub proof fn lemma_empty_patch(what: StructuredView)
    ensures
        update_of(what, Some(ClauseView::Patch(Seq::empty()))) == update_of(what, None),
        forall|base: StatementView| #[trigger] patched(base, Seq::empty()) == base,
{
}

/// Reads what a statement is aimed at.
pub fn target(what: &Structured) -> (r: Structured)
    ensures
        r@ == target_of(what@),
{
    match what {
        Structured::Strand(s) => ResourceAddress::parse(s.as_str()).into_value(),
        other => other.clone(),
    }
}

impl Statement {
    /// The statement with the given text aimed at `what`.
    pub fn aimed(text: &str, what: &Structured) -> (r: Statement)
        ensures
            r@ == aimed(text@, what@),
    {
        let aim = target(what);
        let single = match &aim {
            Structured::Thing { .. } => true,
            _ => false,
        };
        let mut vars: Vec<(String, Structured)> = Vec::new();
        let ghost aim_view = aim@;
        vars.push((String::from_str("what"), aim));
        assert(fields_view(vars@) =~= seq![("what"@, aim_view)]);
        Statement { text: String::from_str(text), vars, single }
    }

    /// This statement with a clause appended that takes `data`.
    pub fn with_data(self, clause: &str, data: Structured) -> (r: Statement)
        ensures
            r@ == with_data(self@, clause@, data@),
    {
        let mut text = self.text;
        let mut vars = self.vars;
        text.append(clause);
        object_put(&mut vars, String::from_str("data"), data);
        Statement { text, vars, single: self.single }
    }

    /// Applies a list of changes to an update. Building never fails: a
    /// change that cannot be carried out shows only when the engine runs
    /// the statement.
    pub fn apply(self, patches: &Vec<Patch>) -> (r: Statement)
        ensures
            r@ == patched(self@, patches_view(patches@)),
            patches@.len() == 0 ==> r@ == self@,
    {
        if patches.len() == 0 {
            return self;
        }
        let ghost list = patches_view(patches@);
        let mut pending: Vec<Structured> = Vec::new();
        let mut i: usize = 0;
        assert(list.take(0) =~= Seq::empty());
        assert(items_view(pending@) =~= Seq::empty());
        while i < patches.len()
            invariant
                i <= patches.len(),
                list == patches_view(patches@),
                items_view(pending@) == chained(list.take(i as int)),
            decreases patches.len() - i,
        {
            proof {
                assert(list.take(i + 1).drop_last() =~= list.take(i as int));
                assert(list.take(i + 1).last() == patches@[i as int]@);
            }
            let ghost before = items_view(pending@);
            let step = patches[i].instruction();
            pending.push(step);
            assert(items_view(pending@) =~= before.push(step@));
            i = i + 1;
        }
        proof {
            assert(list.take(patches.len() as int) =~= list);
            lemma_array_view(pending);
        }
        self.with_data(" PATCH $data", Structured::Array(pending))
    }

    /// The statement that selects what `what` names.
    pub fn select(what: &Structured) -> (r: Statement)
        ensures
            r@ == aimed("SELECT * FROM $what"@, what@),
    {
        Statement::aimed("SELECT * FROM $what", what)
    }

    /// The statement that creates what `what` names.
    pub fn create(what: &Structured, data: Option<Structured>) -> (r: Statement)
        ensures
            r@ == create_of(
                what@,
                match data {
                    Some(d) => Some(d@),
                    None => None,
                },
            ),
    {
        let bare = Statement::aimed("CREATE $what", what);
        match data {
            Some(data) => bare.with_data(" CONTENT $data", data),
            None => bare,
        }
    }

    /// The statement that updates what `what` names.
    pub fn update(what: &Structured, clause: Option<Clause>) -> (r: Statement)
        ensures
            r@ == update_of(
                what@,
                match clause {
                    Some(c) => Some(c@),
                    None => None,
                },
            ),
    {
        let bare = Statement::aimed("UPDATE $what", what);
        match clause {
            None => bare,
            Some(Clause::Content(data)) => bare.with_data(" CONTENT $data", data),
            Some(Clause::Merge(data)) => bare.with_data(" MERGE $data", data),
            Some(Clause::Patch(patches)) => bare.apply(&patches),
        }
    }

    /// The statement that deletes what `what` names.
    pub fn delete(what: &Structured) -> (r: Statement)
        ensures
            r@ == aimed("DELETE $what"@, what@),
    {
        Statement::aimed("DELETE $what", what)
    }

    /// The statement with the given text and bindings, as a query brings
    /// them.
    pub fn query(text: String, vars: Vec<(String, Structured)>) -> (r: Statement)
        ensures
            r@ == (StatementView { text: text@, vars: fields_view(vars@), single: false }),
    {
        Statement { text, vars, single: false }
    }
}

/// The first item of an array; absent for an empty array and for anything
/// that is no array.
pub open spec fn first_of(v: StructuredView) -> StructuredView {
    match v {
        StructuredView::Array(items) => if items.len() > 0 {
            items[0]
        } else {
            StructuredView::Absent
        },
        _ => StructuredView::Absent,
    }
}

/// Takes the first item of an array.
pub fn first(v: &Structured) -> (r: Structured)
    ensures
        r@ == first_of(v@),
{
    match v {
        Structured::Array(items) => {
            proof {
                lemma_array_view(*items);
            }
            if items.len() > 0 {
                items[0].clone()
            } else {
                Structured::Absent
            }
        },
        _ => Structured::Absent,
    }
}

/// The answer to a call, from what the engine gave for its statement: the
/// record itself where the statement was aimed at one record, absent if
/// there is no such record, and the whole list otherwise. A failure of the
/// engine is passed on with its message unchanged.
pub open spec fn answer_of(single: bool, response: Result<StructuredView, Seq<char>>) -> Result<
    StructuredView,
    Seq<char>,
> {
    match response {
        Ok(given) => Ok(
            if single {
                first_of(given)
            } else {
                given
            },
        ),
        Err(message) => Err(message),
    }
}

/// Makes the answer to a call from what the engine gave for its statement.
pub fn conclude(single: bool, response: Result<Structured, String>) -> (r: Result<
    Structured,
    Error,
>)
    ensures
        r matches Ok(v) ==> Ok::<StructuredView, Seq<char>>(v@) == answer_of(
            single,
            slot_view(response),
        ),
        r matches Err(e) ==> e.kind() == ErrorKind::Engine && Err::<StructuredView, Seq<char>>(
            e.text(),
        ) == answer_of(single, slot_view(response)),
{
    match response {
        Ok(given) => if single {
            Ok(first(&given))
        } else {
            Ok(given)
        },
        Err(message) => Err(Error::DBError(message)),
    }
}

/// One slot of an engine's answer in mathematical form: the value, or the
/// message of the failure.
pub open spec fn slot_view(slot: Result<Structured, String>) -> Result<StructuredView, Seq<char>> {
    match slot {
        Ok(v) => Ok(v@),
        Err(m) => Err(m@),
    }
}

/// Mathematical form of an engine's answer.
pub open spec fn slots_view(slots: Seq<Result<Structured, String>>) -> Seq<
    Result<StructuredView, Seq<char>>,
> {
    Seq::new(slots.len(), |i: int| slot_view(slots[i]))
}

/// What a slot shows in the answer to a query of several statements: the
/// result of a statement that succeeded, and for one that failed an object
/// with the status `ERR` and the engine's message as its result.
pub open spec fn slot_value(slot: Result<StructuredView, Seq<char>>) -> StructuredView {
    match slot {
        Ok(v) => v,
        Err(m) => StructuredView::Object(
            seq![
                ("result"@, StructuredView::Strand(m)),
                ("status"@, StructuredView::Strand("ERR"@)),
            ],
        ),
    }
}

/// The answer to a query: one slot per statement, in the order in which
/// the statements ran. A single statement answers with its bare result,
/// and fails the query if it failed. Any other number of statements
/// answers with the list of their slots, each with its own result or
/// failure.
pub open spec fn query_answer(slots: Seq<Result<StructuredView, Seq<char>>>) -> Result<
    StructuredView,
    Seq<char>,
> {
    if slots.len() == 1 {
        slots[0]
    } else {
        Ok(StructuredView::Array(Seq::new(slots.len(), |i: int| slot_value(slots[i]))))
    }
}

/// Makes the value that a slot shows.
fn show_slot(slot: &Result<Structured, String>) -> (r: Structured)
    ensures
        r@ == slot_value(slot_view(*slot)),
{
    match slot {
        Ok(v) => v.clone(),
        Err(m) => {
            let mut entries: Vec<(String, Structured)> = Vec::new();
            let result = Structured::Strand(m.clone());
            let status = Structured::Strand(String::from_str("ERR"));
            entries.push((String::from_str("result"), result));
            entries.push((String::from_str("status"), status));
            proof {
                crate::value::lemma_object_view(entries);
                assert(fields_view(entries@) =~= seq![
                    ("result"@, result@),
                    ("status"@, status@),
                ]);
            }
            Structured::Object(entries)
        },
    }
}

/// Makes the answer to a query from the slots of the engine's answer.
pub fn conclude_query(slots: Vec<Result<Structured, String>>) -> (r: Result<Structured, Error>)
    ensures
        r is Ok <==> query_answer(slots_view(slots@)) is Ok,
        r matches Ok(v) ==> Ok::<StructuredView, Seq<char>>(v@) == query_answer(
            slots_view(slots@),
        ),
        r matches Err(e) ==> e.kind() == ErrorKind::Engine && Err::<StructuredView, Seq<char>>(
            e.text(),
        ) == query_answer(slots_view(slots@)),
{
    let ghost views = slots_view(slots@);
    if slots.len() == 1 {
        assert(views[0] == slot_view(slots@[0]));
        return match &slots[0] {
            Ok(v) => Ok(v.clone()),
            Err(m) => Err(Error::DBError(m.clone())),
        };
    }
    let mut out: Vec<Structured> = Vec::new();
    let mut i: usize = 0;
    while i < slots.len()
        invariant
            i <= slots.len(),
            views == slots_view(slots@),
            out@.len() == i,
            forall|j: int| 0 <= j < i ==> (#[trigger] out@[j])@ == slot_value(views[j]),
        decreases slots.len() - i,
    {
        assert(views[i as int] == slot_view(slots@[i as int]));
        out.push(show_slot(&slots[i]));
        i = i + 1;
    }
    proof {
        lemma_array_view(out);
        assert(items_view(out@) =~= Seq::new(views.len(), |i: int| slot_value(views[i])));
    }
    Ok(Structured::Array(out))
}

/// What a list of changes leaves at one path.
#[derive(Debug, PartialEq, Eq)]
pub enum Effect {
    /// No change is made at the path.
    Untouched,
    /// The path holds this value.
    Written(Structured),
    /// The path holds nothing.
    Removed,
    /// What the path held was edited by a diff.
    Edited,
}

/// Mathematical form of an [`Effect`].
pub enum EffectView {
    Untouched,
    Written(StructuredView),
    Removed,
    Edited,
}

impl View for Effect {
    type V = EffectView;

    open spec fn view(&self) -> EffectView {
        match self {
            Effect::Untouched => EffectView::Untouched,
            Effect::Written(v) => EffectView::Written(v@),
            Effect::Removed => EffectView::Removed,
            Effect::Edited => EffectView::Edited,
        }
    }
}

/// What one change leaves at its own path.
pub open spec fn effect_of_one(p: PatchView) -> EffectView {
    match p {
        PatchView::Add { value, .. } => EffectView::Written(value),
        PatchView::Replace { value, .. } => EffectView::Written(value),
        PatchView::Remove { .. } => EffectView::Removed,
        PatchView::Change { .. } => EffectView::Edited,
    }
}

/// What a list of changes, carried out in order, leaves at exactly the
/// given path: each change sees what those before it left, so the last
/// change made at the path decides.
pub open spec fn effect_of(patches: Seq<PatchView>, path: Seq<char>) -> EffectView
    decreases patches.len(),
{
    if patches.len() == 0 {
        EffectView::Untouched
    } else if patches.last().path() == path {
        effect_of_one(patches.last())
    } else {
        effect_of(patches.drop_last(), path)
    }
}

/// The path that a change is made at.
fn path_of(p: &Patch) -> (r: &String)
    ensures
        r@ == p@.path(),
{
    match p {
        Patch::Add { path, .. } => path,
        Patch::Remove { path } => path,
        Patch::Replace { path, .. } => path,
        Patch::Change { path, .. } => path,
    }
}

/// Finds what a list of changes leaves at a path.
pub fn effect_at(patches: &Vec<Patch>, path: &str) -> (r: Effect)
    ensures
        r@ == effect_of(patches_view(patches@), path@),
{
    let ghost list = patches_view(patches@);
    let mut i: usize = patches.len();
    assert(list.take(i as int) =~= list);
    while i > 0
        invariant
            i <= patches.len(),
            list == patches_view(patches@),
            effect_of(list, path@) == effect_of(list.take(i as int), path@),
        decreases i,
    {
        proof {
            assert(list.take(i as int).drop_last() =~= list.take(i - 1));
            assert(list.take(i as int).last() == patches@[i - 1]@);
        }
        if str_same(path_of(&patches[i - 1]).as_str(), path) {
            return match &patches[i - 1] {
                Patch::Add { value, .. } => Effect::Written(value.clone()),
                Patch::Replace { value, .. } => Effect::Written(value.clone()),
                Patch::Remove { .. } => Effect::Removed,
                Patch::Change { .. } => Effect::Edited,
            };
        }
        i = i - 1;
    }
    Effect::Untouched
}

} // verus!
