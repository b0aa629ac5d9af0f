//! One change to the content of a record.

use crate::text::str_same;
use crate::value::fields_view;
use crate::value::lemma_object_view;
use crate::value::lookup;
use crate::value::object_get;
use crate::value::Structured;
use crate::value::StructuredView;
use vstd::prelude::*;
use vstd::string::StringExecFns;

verus! {

/// A change at a path into a record: a slash-delimited pointer, and what
/// to do there.
#[derive(Debug, PartialEq, Eq)]
#[allow(inconsistent_fields)]
pub enum Patch {
    /// Put a value at the path.
    Add { path: String, value: Structured },
    /// Take away what is at the path.
    Remove { path: String },
    /// Put a value in place of what is at the path.
    Replace { path: String, value: Structured },
    /// Apply a textual diff to what is at the path.
    Change { path: String, value: String },
}

/// Mathematical form of a [`Patch`].
#[allow(inconsistent_fields)]
pub enum PatchView {
    Add { path: Seq<char>, value: StructuredView },
    Remove { path: Seq<char> },
    Replace { path: Seq<char>, value: StructuredView },
    Change { path: Seq<char>, value: Seq<char> },
}

impl View for Patch {
    type V = PatchView;

    open spec fn view(&self) -> PatchView {
        match self {
            Patch::Add { path, value } => PatchView::Add { path: path@, value: value@ },
            Patch::Remove { path } => PatchView::Remove { path: path@ },
            Patch::Replace { path, value } => PatchView::Replace { path: path@, value: value@ },
            Patch::Change { path, value } => PatchView::Change { path: path@, value: value@ },
        }
    }
}

impl PatchView {
    /// The path that the change is made at.
    pub open spec fn path(self) -> Seq<char> {
        match self {
            PatchView::Add { path, .. } => path,
            PatchView::Remove { path } => path,
            PatchView::Replace { path, .. } => path,
            PatchView::Change { path, .. } => path,
        }
    }
}

/// The instruction that the engine takes for a change: an object with the
/// name of the operation, the path, and the operand if there is one.
pub open spec fn instruction_of(p: PatchView) -> StructuredView {
    match p {
        PatchView::Add { path, value } => StructuredView::Object(
            seq![
                ("op"@, StructuredView::Strand("add"@)),
                ("path"@, StructuredView::Strand(path)),
                ("value"@, value),
            ],
        ),
        PatchView::Remove { path } => StructuredView::Object(
            seq![("op"@, StructuredView::Strand("remove"@)), ("path"@, StructuredView::Strand(path))],
        ),
        PatchView::Replace { path, value } => StructuredView::Object(
            seq![
                ("op"@, StructuredView::Strand("replace"@)),
                ("path"@, StructuredView::Strand(path)),
                ("value"@, value),
            ],
        ),
        PatchView::Change { path, value } => StructuredView::Object(
            seq![
                ("op"@, StructuredView::Strand("change"@)),
                ("path"@, StructuredView::Strand(path)),
                ("value"@, StructuredView::Strand(value)),
            ],
        ),
    }
}

/// The change that a value describes: an object whose `op` names one of
/// the four operations and whose `path` is text. To add and to replace take
/// the object's `value`, whatever it is; to change takes it only as text.
pub open spec fn patch_of(v: StructuredView) -> Option<PatchView> {
    match v {
        StructuredView::Object(fields) => match (lookup(fields, "op"@), lookup(fields, "path"@)) {
            (Some(StructuredView::Strand(op)), Some(StructuredView::Strand(path))) => {
                let value = lookup(fields, "value"@);
                if op == "add"@ {
                    match value {
                        Some(value) => Some(PatchView::Add { path, value }),
                        None => None,
                    }
                } else if op == "remove"@ {
                    Some(PatchView::Remove { path })
                } else if op == "replace"@ {
                    match value {
                        Some(value) => Some(PatchView::Replace { path, value }),
                        None => None,
                    }
                } else if op == "change"@ {
                    match value {
                        Some(StructuredView::Strand(value)) => Some(
                            PatchView::Change { path, value },
                        ),
                        _ => None,
                    }
                } else {
                    None
                }
            },
            _ => None,
        },
        _ => None,
    }
}

/// Makes an instruction object of two or three entries.
fn instruction(op: &str, path: &String, value: Option<Structured>) -> (r: Structured)
    ensures
        r@ == match value {
            Some(v) => StructuredView::Object(
                seq![
                    ("op"@, StructuredView::Strand(op@)),
                    ("path"@, StructuredView::Strand(path@)),
                    ("value"@, v@),
                ],
            ),
            None => StructuredView::Object(
                seq![("op"@, StructuredView::Strand(op@)), ("path"@, StructuredView::Strand(path@))],
            ),
        },
{
    let mut entries: Vec<(String, Structured)> = Vec::new();
    let name = Structured::Strand(String::from_str(op));
    let at = Structured::Strand(path.clone());
    entries.push((String::from_str("op"), name));
    entries.push((String::from_str("path"), at));
    match value {
        Some(v) => {
            let ghost operand = v@;
            entries.push((String::from_str("value"), v));
            proof {
                lemma_object_view(entries);
                assert(fields_view(entries@) =~= seq![
                    ("op"@, name@),
                    ("path"@, at@),
                    ("value"@, operand),
                ]);
            }
        },
        None => {
            proof {
                lemma_object_view(entries);
                assert(fields_view(entries@) =~= seq![("op"@, name@), ("path"@, at@)]);
            }
        },
    }
    Structured::Object(entries)
}

impl Patch {
    /// The instruction that the engine takes for this change.
    pub fn instruction(&self) -> (r: Structured)
        ensures
            r@ == instruction_of(self@),
    {
        match self {
            Patch::Add { path, value } => instruction("add", path, Some(value.clone())),
            Patch::Remove { path } => instruction("remove", path, None),
            Patch::Replace { path, value } => instruction("replace", path, Some(value.clone())),
            Patch::Change { path, value } => instruction(
                "change",
                path,
                Some(Structured::Strand(value.clone())),
            ),
        }
    }

    /// Reads a change from the value that describes it.
    pub fn from_value(v: &Structured) -> (r: Option<Patch>)
        ensures
            r is Some <==> patch_of(v@) is Some,
            r matches Some(p) ==> Some(p@) == patch_of(v@),
    {
        match v {
            Structured::Object(entries) => {
                proof {
                    lemma_object_view(*entries);
                }
                let op = match object_get(entries, "op") {
                    Some(Structured::Strand(op)) => op,
                    _ => {
                        return None;
                    },
                };
                let path = match object_get(entries, "path") {
                    Some(Structured::Strand(path)) => path.clone(),
                    _ => {
                        return None;
                    },
                };
                let value = object_get(entries, "value");
                if str_same(op.as_str(), "add") {
                    match value {
                        Some(value) => Some(Patch::Add { path, value: value.clone() }),
                        None => None,
                    }
                } else if str_same(op.as_str(), "remove") {
                    Some(Patch::Remove { path })
                } else if str_same(op.as_str(), "replace") {
                    match value {
                        Some(value) => Some(Patch::Replace { path, value: value.clone() }),
                        None => None,
                    }
                } else if str_same(op.as_str(), "change") {
                    match value {
                        Some(Structured::Strand(value)) => Some(
                            Patch::Change { path, value: value.clone() },
                        ),
                        _ => None,
                    }
                } else {
                    None
                }
            },
            _ => None,
        }
    }
}

} // verus!
