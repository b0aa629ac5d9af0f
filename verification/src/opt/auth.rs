//! Credentials, told apart by their shape.

use crate::value::clone_fields;
use crate::value::fields_view;
use crate::value::lemma_object_view;
use crate::value::lookup;
use crate::value::object_get;
use crate::value::object_put;
use crate::value::put;
use crate::value::object_remove;
use crate::value::without;
use crate::value::Fields;
use crate::value::Structured;
use crate::value::StructuredView;
use vstd::prelude::*;
use vstd::string::StringExecFns;

verus! {

/// Credentials of one of four shapes. The `params` of scope credentials
/// hold every entry that came with them besides the three named here.
#[derive(Debug, PartialEq, Eq)]
pub enum Credentials {
    Scope { namespace: String, database: String, scope: String, params: Vec<(String, Structured)> },
    Database { namespace: String, database: String, username: String, password: String },
    Namespace { namespace: String, username: String, password: String },
    Root { username: String, password: String },
}

/// Mathematical form of [`Credentials`].
pub enum CredentialsView {
    Scope { namespace: Seq<char>, database: Seq<char>, scope: Seq<char>, params: Fields },
    Database { namespace: Seq<char>, database: Seq<char>, username: Seq<char>, password: Seq<char> },
    Namespace { namespace: Seq<char>, username: Seq<char>, password: Seq<char> },
    Root { username: Seq<char>, password: Seq<char> },
}

impl View for Credentials {
    type V = CredentialsView;

    open spec fn view(&self) -> CredentialsView {
        match self {
            Credentials::Scope { namespace, database, scope, params } => CredentialsView::Scope {
                namespace: namespace@,
                database: database@,
                scope: scope@,
                params: fields_view(params@),
            },
            Credentials::Database {
                namespace,
                database,
                username,
                password,
            } => CredentialsView::Database {
                namespace: namespace@,
                database: database@,
                username: username@,
                password: password@,
            },
            Credentials::Namespace { namespace, username, password } => CredentialsView::Namespace {
                namespace: namespace@,
                username: username@,
                password: password@,
            },
            Credentials::Root { username, password } => CredentialsView::Root {
                username: username@,
                password: password@,
            },
        }
    }
}

/// The text stored under `key`, if text is stored there.
pub open spec fn text_at(fields: Fields, key: Seq<char>) -> Option<Seq<char>> {
    match lookup(fields, key) {
        Some(StructuredView::Strand(s)) => Some(s),
        _ => None,
    }
}

/// The credentials that a value holds, by the first shape that fits: a
/// namespace, a database and a scope; a namespace, a database, a user name
/// and a password; a namespace, a user name and a password; a user name
/// and a password. Each of these must be text.
pub open spec fn credentials_of(v: StructuredView) -> Option<CredentialsView> {
    match v {
        StructuredView::Object(fields) => {
            let namespace = text_at(fields, "namespace"@);
            let database = text_at(fields, "database"@);
            let scope = text_at(fields, "scope"@);
            let username = text_at(fields, "username"@);
            let password = text_at(fields, "password"@);
            if namespace is Some && database is Some && scope is Some {
                Some(
                    CredentialsView::Scope {
                        namespace: namespace->0,
                        database: database->0,
                        scope: scope->0,
                        params: without(
                            without(without(fields, "namespace"@), "database"@),
                            "scope"@,
                        ),
                    },
                )
            } else if namespace is Some && database is Some && username is Some && password
                is Some {
                Some(
                    CredentialsView::Database {
                        namespace: namespace->0,
                        database: database->0,
                        username: username->0,
                        password: password->0,
                    },
                )
            } else if namespace is Some && username is Some && password is Some {
                Some(
                    CredentialsView::Namespace {
                        namespace: namespace->0,
                        username: username->0,
                        password: password->0,
                    },
                )
            } else if username is Some && password is Some {
                Some(CredentialsView::Root { username: username->0, password: password->0 })
            } else {
                None
            }
        },
        _ => None,
    }
}

/// Reads the text stored under `key`.
fn read_text(entries: &Vec<(String, Structured)>, key: &str) -> (r: Option<String>)
    ensures
        r is Some <==> text_at(fields_view(entries@), key@) is Some,
        r matches Some(s) ==> Some(s@) == text_at(fields_view(entries@), key@),
{
    match object_get(entries, key) {
        Some(Structured::Strand(s)) => Some(s.clone()),
        _ => None,
    }
}

impl Credentials {
    /// Reads credentials from the value that holds them.
    pub fn from_value(v: &Structured) -> (r: Option<Credentials>)
        ensures
            r is Some <==> credentials_of(v@) is Some,
            r matches Some(c) ==> Some(c@) == credentials_of(v@),
    {
        match v {
            Structured::Object(entries) => {
                proof {
                    lemma_object_view(*entries);
                }
                let namespace = read_text(entries, "namespace");
                let database = read_text(entries, "database");
                let scope = read_text(entries, "scope");
                let username = read_text(entries, "username");
                let password = read_text(entries, "password");
                match (namespace, database, scope, username, password) {
                    (Some(namespace), Some(database), Some(scope), _, _) => {
                        let mut params = clone_fields(entries);
                        object_remove(&mut params, "namespace");
                        object_remove(&mut params, "database");
                        object_remove(&mut params, "scope");
                        Some(Credentials::Scope { namespace, database, scope, params })
                    },
                    (Some(namespace), Some(database), None, Some(username), Some(password)) => Some(
                        Credentials::Database { namespace, database, username, password },
                    ),
                    (Some(namespace), None, _, Some(username), Some(password)) => Some(
                        Credentials::Namespace { namespace, username, password },
                    ),
                    (None, _, _, Some(username), Some(password)) => Some(
                        Credentials::Root { username, password },
                    ),
                    _ => None,
                }
            },
            _ => None,
        }
    }

    /// Whether these are the credentials of a scope user, the only kind
    /// that may sign up.
    pub fn is_scope(&self) -> (r: bool)
        ensures
            r == (self@ is Scope),
    {
        match self {
            Credentials::Scope { .. } => true,
            _ => false,
        }
    }
}

/// The variables that the engine reads credentials from: the namespace
/// under `NS`, the database under `DB`, the scope under `SC`, the user name
/// under `user` and the password under `pass`, each where the credentials
/// have it. Scope credentials bring their other entries along; an entry of
/// theirs under one of the three names gives way.
pub open spec fn bindings_of(c: CredentialsView) -> Fields {
    match c {
        CredentialsView::Scope { namespace, database, scope, params } => put(
            put(
                put(params, "NS"@, StructuredView::Strand(namespace)),
                "DB"@,
                StructuredView::Strand(database),
            ),
            "SC"@,
            StructuredView::Strand(scope),
        ),
        CredentialsView::Database { namespace, database, username, password } => put(
            put(
                put(
                    put(Seq::empty(), "NS"@, StructuredView::Strand(namespace)),
                    "DB"@,
                    StructuredView::Strand(database),
                ),
                "user"@,
                StructuredView::Strand(username),
            ),
            "pass"@,
            StructuredView::Strand(password),
        ),
        CredentialsView::Namespace { namespace, username, password } => put(
            put(
                put(Seq::empty(), "NS"@, StructuredView::Strand(namespace)),
                "user"@,
                StructuredView::Strand(username),
            ),
            "pass"@,
            StructuredView::Strand(password),
        ),
        CredentialsView::Root { username, password } => put(
            put(Seq::empty(), "user"@, StructuredView::Strand(username)),
            "pass"@,
            StructuredView::Strand(password),
        ),
    }
}

/// Stores a text under a name.
fn bind_text(vars: &mut Vec<(String, Structured)>, name: &str, text: &String)
    ensures
        fields_view(final(vars)@) == put(
            fields_view(old(vars)@),
            name@,
            StructuredView::Strand(text@),
        ),
{
    object_put(vars, String::from_str(name), Structured::Strand(text.clone()));
}

impl Credentials {
    /// The variables that the engine reads these credentials from.
    pub fn bindings(&self) -> (r: Vec<(String, Structured)>)
        ensures
            fields_view(r@) == bindings_of(self@),
    {
        match self {
            Credentials::Scope { namespace, database, scope, params } => {
                let mut vars = clone_fields(params);
                bind_text(&mut vars, "NS", namespace);
                bind_text(&mut vars, "DB", database);
                bind_text(&mut vars, "SC", scope);
                vars
            },
            Credentials::Database { namespace, database, username, password } => {
                let mut vars: Vec<(String, Structured)> = Vec::new();
                assert(fields_view(vars@) =~= Seq::empty());
                bind_text(&mut vars, "NS", namespace);
                bind_text(&mut vars, "DB", database);
                bind_text(&mut vars, "user", username);
                bind_text(&mut vars, "pass", password);
                vars
            },
            Credentials::Namespace { namespace, username, password } => {
                let mut vars: Vec<(String, Structured)> = Vec::new();
                assert(fields_view(vars@) =~= Seq::empty());
                bind_text(&mut vars, "NS", namespace);
                bind_text(&mut vars, "user", username);
                bind_text(&mut vars, "pass", password);
                vars
            },
            Credentials::Root { username, password } => {
                let mut vars: Vec<(String, Structured)> = Vec::new();
                assert(fields_view(vars@) =~= Seq::empty());
                bind_text(&mut vars, "user", username);
                bind_text(&mut vars, "pass", password);
                vars
            },
        }
    }
}

} // verus!
