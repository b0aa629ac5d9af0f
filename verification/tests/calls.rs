use surrealdb_wasm::convert::HostValue;
use surrealdb_wasm::err::Error;
use surrealdb_wasm::err::ErrorKind;
use surrealdb_wasm::err::INTERNAL_ERROR;
use surrealdb_wasm::err::INVALID_PARAMS;
use surrealdb_wasm::err::METHOD_NOT_FOUND;
use surrealdb_wasm::local::Local;
use surrealdb_wasm::local::Stage;
use surrealdb_wasm::opt::auth::Credentials;
use surrealdb_wasm::opt::patch::Patch;
use surrealdb_wasm::opt::resource::Clause;
use surrealdb_wasm::opt::resource::Create;
use surrealdb_wasm::opt::resource::Update;
use surrealdb_wasm::opt::yuse::Use;
use surrealdb_wasm::remote::Remote;
use surrealdb_wasm::rpc::dispatch::Progress;
use surrealdb_wasm::rpc::dispatch::WasmRpc;
use surrealdb_wasm::rpc::envelope::encode_response;
use surrealdb_wasm::rpc::envelope::Request;
use surrealdb_wasm::rpc::method::Method;
use surrealdb_wasm::rpc::session::Call;
use surrealdb_wasm::rpc::session::Level;
use surrealdb_wasm::rpc::session::Outcome;
use surrealdb_wasm::rpc::session::Session;
use surrealdb_wasm::rpc::session::Step;
use surrealdb_wasm::statement::conclude;
use surrealdb_wasm::statement::conclude_query;
use surrealdb_wasm::statement::effect_at;
use surrealdb_wasm::statement::first;
use surrealdb_wasm::statement::target;
use surrealdb_wasm::statement::Effect;
use surrealdb_wasm::statement::Statement;
use surrealdb_wasm::value::Bound;
use surrealdb_wasm::value::Number;
use surrealdb_wasm::value::Structured;

fn strand(s: &str) -> Structured {
    Structured::Strand(s.to_string())
}

fn whole(i: i64) -> Structured {
    Structured::Number(Number::Int(i))
}

fn object(entries: Vec<(&str, Structured)>) -> Structured {
    Structured::Object(entries.into_iter().map(|(k, v)| (k.to_string(), v)).collect())
}

fn vars(entries: Vec<(&str, Structured)>) -> Vec<(String, Structured)> {
    entries.into_iter().map(|(k, v)| (k.to_string(), v)).collect()
}

fn thing(tb: &str, id: &str) -> Structured {
    Structured::Thing { tb: tb.to_string(), id: id.to_string() }
}

fn table(tb: &str) -> Structured {
    Structured::Table(tb.to_string())
}

fn add(path: &str, value: Structured) -> Patch {
    Patch::Add { path: path.to_string(), value }
}

fn replace(path: &str, value: Structured) -> Patch {
    Patch::Replace { path: path.to_string(), value }
}

fn fault(r: Result<Step, Error>) -> (ErrorKind, i64, String) {
    match r {
        Ok(_) => panic!("accepted"),
        Err(e) => (e.get_kind(), e.get_code(), e.message()),
    }
}

fn root_credentials() -> Structured {
    object(vec![("password", strand("root")), ("username", strand("root"))])
}

#[test]
fn methods_by_name() {
    let names = [
        ("use", Method::Use),
        ("signup", Method::Signup),
        ("signin", Method::Signin),
        ("authenticate", Method::Authenticate),
        ("let", Method::Let),
        ("set", Method::Let),
        ("unset", Method::Unset),
        ("query", Method::Query),
        ("select", Method::Select),
        ("create", Method::Create),
        ("update", Method::Update),
        ("merge", Method::Merge),
        ("patch", Method::Patch),
        ("delete", Method::Delete),
        ("live", Method::Live),
        ("version", Method::Version),
        ("health", Method::Health),
        ("ping", Method::Health),
        ("SELECT", Method::Unknown),
        ("", Method::Unknown),
        ("selects", Method::Unknown),
    ];
    for (name, method) in names {
        assert_eq!(Method::parse(name), method, "{}", name);
    }
}

#[test]
fn what_a_statement_is_aimed_at() {
    assert_eq!(target(&strand("person")), table("person"));
    assert_eq!(target(&strand("person:tobie")), thing("person", "tobie"));
    assert_eq!(
        target(&strand("person:a..b")),
        Structured::Range {
            tb: "person".to_string(),
            beg: Bound::Included("a".to_string()),
            end: Bound::Included("b".to_string()),
        }
    );
    assert_eq!(target(&thing("a", "b")), thing("a", "b"));
    assert_eq!(target(&whole(1)), whole(1));
}

#[test]
fn statements_word_for_word() {
    let what = strand("person:tobie");
    let data = object(vec![("name", strand("Tobie"))]);
    assert_eq!(
        Statement::select(&what),
        Statement {
            text: "SELECT * FROM $what".to_string(),
            vars: vars(vec![("what", thing("person", "tobie"))]),
            single: true,
        }
    );
    assert_eq!(
        Statement::create(&strand("person"), Some(data.clone())),
        Statement {
            text: "CREATE $what CONTENT $data".to_string(),
            vars: vars(vec![("data", data.clone()), ("what", table("person"))]),
            single: false,
        }
    );
    assert_eq!(
        Statement::create(&strand("person"), None),
        Statement {
            text: "CREATE $what".to_string(),
            vars: vars(vec![("what", table("person"))]),
            single: false,
        }
    );
    assert_eq!(
        Statement::update(&what, Some(Clause::Content(data.clone()))).text,
        "UPDATE $what CONTENT $data"
    );
    assert_eq!(
        Statement::update(&what, Some(Clause::Merge(data.clone()))),
        Statement {
            text: "UPDATE $what MERGE $data".to_string(),
            vars: vars(vec![("data", data.clone()), ("what", thing("person", "tobie"))]),
            single: true,
        }
    );
    assert_eq!(
        Statement::delete(&strand("person:a..")),
        Statement {
            text: "DELETE $what".to_string(),
            vars: vars(vec![(
                "what",
                Structured::Range {
                    tb: "person".to_string(),
                    beg: Bound::Included("a".to_string()),
                    end: Bound::Unbounded,
                }
            )]),
            single: false,
        }
    );
    assert_eq!(
        Statement::query("INFO FOR DB".to_string(), vec![]),
        Statement { text: "INFO FOR DB".to_string(), vars: vec![], single: false }
    );
}

#[test]
fn an_update_without_changes_is_the_bare_update() {
    let what = strand("person:tobie");
    let bare = Statement::update(&what, None);
    assert_eq!(
        bare,
        Statement {
            text: "UPDATE $what".to_string(),
            vars: vars(vec![("what", thing("person", "tobie"))]),
            single: true,
        }
    );
    assert_eq!(Statement::update(&what, Some(Clause::Patch(vec![]))), bare);
    assert_eq!(Statement::update(&what, None).apply(&vec![]), bare);
    let holder = Update { clause: Some(Clause::Patch(vec![])) };
    assert_eq!(Statement::update(&what, holder.clause), bare);
}

#[test]
fn changes_are_chained_in_order() {
    let patches = vec![add("/a", whole(1)), replace("/a", whole(2))];
    let statement = Statement::update(&strand("person:tobie"), Some(Clause::Patch(patches)));
    assert_eq!(statement.text, "UPDATE $what PATCH $data");
    assert_eq!(
        statement.vars,
        vars(vec![
            (
                "data",
                Structured::Array(vec![
                    object(vec![("op", strand("add")), ("path", strand("/a")), ("value", whole(1))]),
                    object(vec![
                        ("op", strand("replace")),
                        ("path", strand("/a")),
                        ("value", whole(2))
                    ]),
                ])
            ),
            ("what", thing("person", "tobie")),
        ])
    );
}

#[test]
fn add_then_replace_leaves_the_last_value() {
    let patches = vec![add("/a", whole(1)), replace("/a", whole(2))];
    assert_eq!(effect_at(&patches, "/a"), Effect::Written(whole(2)));
    assert_eq!(effect_at(&patches, "/b"), Effect::Untouched);
}

#[test]
fn the_last_change_at_a_path_decides() {
    let patches = vec![
        add("/a", whole(1)),
        Patch::Remove { path: "/a".to_string() },
        add("/b", whole(3)),
        Patch::Change { path: "/c".to_string(), value: "@@ -1 +1 @@".to_string() },
    ];
    assert_eq!(effect_at(&patches, "/a"), Effect::Removed);
    assert_eq!(effect_at(&patches, "/b"), Effect::Written(whole(3)));
    assert_eq!(effect_at(&patches, "/c"), Effect::Edited);
    assert_eq!(effect_at(&vec![], "/a"), Effect::Untouched);
}

#[test]
fn instructions_of_changes() {
    assert_eq!(
        Patch::Remove { path: "/a".to_string() }.instruction(),
        object(vec![("op", strand("remove")), ("path", strand("/a"))])
    );
    assert_eq!(
        Patch::Change { path: "/a".to_string(), value: "diff".to_string() }.instruction(),
        object(vec![("op", strand("change")), ("path", strand("/a")), ("value", strand("diff"))])
    );
}

#[test]
fn changes_read_from_values() {
    assert_eq!(
        Patch::from_value(&object(vec![
            ("op", strand("add")),
            ("path", strand("/a")),
            ("value", whole(1))
        ])),
        Some(add("/a", whole(1)))
    );
    assert_eq!(
        Patch::from_value(&object(vec![("op", strand("remove")), ("path", strand("/a"))])),
        Some(Patch::Remove { path: "/a".to_string() })
    );
    assert_eq!(
        Patch::from_value(&object(vec![
            ("op", strand("replace")),
            ("path", strand("/a")),
            ("value", Structured::Null)
        ])),
        Some(replace("/a", Structured::Null))
    );
    assert_eq!(
        Patch::from_value(&object(vec![
            ("op", strand("change")),
            ("path", strand("/a")),
            ("value", strand("d"))
        ])),
        Some(Patch::Change { path: "/a".to_string(), value: "d".to_string() })
    );
    let unreadable = vec![
        object(vec![("op", strand("add")), ("path", strand("/a"))]),
        object(vec![("op", strand("move")), ("path", strand("/a"))]),
        object(vec![("op", strand("remove"))]),
        object(vec![("op", strand("change")), ("path", strand("/a")), ("value", whole(1))]),
        object(vec![("op", strand("Add")), ("path", strand("/a")), ("value", whole(1))]),
        strand("add"),
    ];
    for v in unreadable {
        assert_eq!(Patch::from_value(&v), None);
    }
}

#[test]
fn a_single_record_answers_with_the_record() {
    let record = object(vec![("id", thing("person", "h5wxrf2ewk8xjxosxtyc"))]);
    let statement = Statement::select(&strand("person:h5wxrf2ewk8xjxosxtyc"));
    assert!(statement.single);
    let found = conclude(statement.single, Ok(Structured::Array(vec![record.clone()])));
    assert_eq!(found.ok(), Some(record));
    let missing = conclude(statement.single, Ok(Structured::Array(vec![])));
    assert_eq!(missing.ok(), Some(Structured::Absent));
}

#[test]
fn a_table_answers_with_the_list() {
    let statement = Statement::select(&strand("person"));
    let list = Structured::Array(vec![whole(1), whole(2)]);
    assert_eq!(conclude(statement.single, Ok(list.clone())).ok(), Some(list));
    assert_eq!(
        conclude(false, Ok(Structured::Array(vec![]))).ok(),
        Some(Structured::Array(vec![]))
    );
}

#[test]
fn a_failure_of_the_engine_is_passed_on() {
    let e = conclude(true, Err("table is locked".to_string())).unwrap_err();
    assert_eq!(e.get_kind(), ErrorKind::Engine);
    assert_eq!(e.message(), "table is locked");
}

#[test]
fn the_first_of_a_list() {
    assert_eq!(first(&Structured::Array(vec![whole(4), whole(5)])), whole(4));
    assert_eq!(first(&Structured::Array(vec![])), Structured::Absent);
    assert_eq!(first(&whole(4)), Structured::Absent);
}

#[test]
fn two_statements_answer_with_two_slots_in_order() {
    let answer = conclude_query(vec![Ok(whole(1)), Ok(strand("two"))]);
    assert_eq!(answer.ok(), Some(Structured::Array(vec![whole(1), strand("two")])));
}

#[test]
fn one_statement_answers_with_its_bare_result() {
    assert_eq!(conclude_query(vec![Ok(whole(1))]).ok(), Some(whole(1)));
    assert_eq!(conclude_query(vec![]).ok(), Some(Structured::Array(vec![])));
}

#[test]
fn a_single_statement_that_failed_fails_the_query() {
    let e = conclude_query(vec![Err("only".to_string())]).unwrap_err();
    assert_eq!((e.get_kind(), e.message()), (ErrorKind::Engine, "only".to_string()));
}

#[test]
fn every_slot_of_several_has_its_own_result_or_failure() {
    let slots = vec![Ok(whole(1)), Err("first".to_string()), Ok(whole(3)), Err("second".to_string())];
    let failed = |m: &str| object(vec![("result", strand(m)), ("status", strand("ERR"))]);
    assert_eq!(
        conclude_query(slots).ok(),
        Some(Structured::Array(vec![whole(1), failed("first"), whole(3), failed("second")]))
    );
}

#[test]
fn credentials_by_shape() {
    let scope = object(vec![
        ("database", strand("d")),
        ("email", strand("e")),
        ("namespace", strand("n")),
        ("pass", strand("p")),
        ("scope", strand("s")),
    ]);
    assert_eq!(
        Credentials::from_value(&scope),
        Some(Credentials::Scope {
            namespace: "n".to_string(),
            database: "d".to_string(),
            scope: "s".to_string(),
            params: vars(vec![("email", strand("e")), ("pass", strand("p"))]),
        })
    );
    let database = object(vec![
        ("database", strand("d")),
        ("namespace", strand("n")),
        ("password", strand("p")),
        ("username", strand("u")),
    ]);
    assert_eq!(
        Credentials::from_value(&database),
        Some(Credentials::Database {
            namespace: "n".to_string(),
            database: "d".to_string(),
            username: "u".to_string(),
            password: "p".to_string(),
        })
    );
    let namespace = object(vec![
        ("namespace", strand("n")),
        ("password", strand("p")),
        ("username", strand("u")),
    ]);
    assert_eq!(
        Credentials::from_value(&namespace),
        Some(Credentials::Namespace {
            namespace: "n".to_string(),
            username: "u".to_string(),
            password: "p".to_string(),
        })
    );
    assert_eq!(
        Credentials::from_value(&root_credentials()),
        Some(Credentials::Root { username: "root".to_string(), password: "root".to_string() })
    );
    assert_eq!(Credentials::from_value(&object(vec![("username", strand("u"))])), None);
    assert_eq!(
        Credentials::from_value(&object(vec![("password", whole(1)), ("username", strand("u"))])),
        None
    );
    assert_eq!(Credentials::from_value(&strand("root")), None);
}

#[test]
fn a_fresh_session() {
    let s = Session::new();
    assert_eq!(s, Session { ns: None, db: None, level: Level::Anonymous, vars: vec![] });
}

#[test]
fn use_selects_what_it_names() {
    let mut s = Session::new();
    assert!(s.yuse(Use { namespace: Some("n".to_string()), database: None }).is_ok());
    assert_eq!((s.ns.clone(), s.db.clone()), (Some("n".to_string()), None));
    assert!(s.yuse(Use { namespace: None, database: Some("d".to_string()) }).is_ok());
    assert_eq!((s.ns.clone(), s.db.clone()), (Some("n".to_string()), Some("d".to_string())));
    let step = s.route(Method::Use, &vec![strand("m"), Structured::Null]);
    assert_eq!(step.ok(), Some(Step::Done(Structured::Null)));
    assert_eq!((s.ns.clone(), s.db.clone()), (Some("m".to_string()), Some("d".to_string())));
}

#[test]
fn use_without_names_is_a_configuration_error() {
    let mut s = Session::new();
    s.set("x".to_string(), whole(1));
    let before = Session { ns: None, db: None, level: Level::Anonymous, vars: vars(vec![("x", whole(1))]) };
    let e = s.yuse(Use { namespace: None, database: None }).unwrap_err();
    assert_eq!(e.get_kind(), ErrorKind::Configuration);
    assert_eq!(e.message(), "Specify a namespace or a database to use");
    assert_eq!(s, before);
    let refused = fault(s.route(Method::Use, &vec![]));
    assert_eq!(refused.0, ErrorKind::Configuration);
    assert_eq!(s, before);
    let refused = fault(s.route(Method::Use, &vec![whole(1)]));
    assert_eq!((refused.0, refused.1), (ErrorKind::Protocol, INVALID_PARAMS));
    assert_eq!(s, before);
}

#[test]
fn variables_are_set_and_unset() {
    let mut s = Session::new();
    s.set("b".to_string(), whole(1));
    s.set("a".to_string(), whole(2));
    s.set("b".to_string(), whole(3));
    assert_eq!(s.vars, vars(vec![("a", whole(2)), ("b", whole(3))]));
    s.set("b".to_string(), whole(3));
    assert_eq!(s.vars, vars(vec![("a", whole(2)), ("b", whole(3))]));
    s.unset("missing");
    assert_eq!(s.vars, vars(vec![("a", whole(2)), ("b", whole(3))]));
    s.unset("a");
    assert_eq!(s.vars, vars(vec![("b", whole(3))]));
    assert_eq!(
        s.route(Method::Let, &vec![strand("c"), strand("v")]).ok(),
        Some(Step::Done(Structured::Null))
    );
    assert_eq!(
        s.route(Method::Unset, &vec![strand("b")]).ok(),
        Some(Step::Done(Structured::Null))
    );
    assert_eq!(s.vars, vars(vec![("c", strand("v"))]));
    assert_eq!(fault(s.route(Method::Let, &vec![whole(1)])).1, INVALID_PARAMS);
    assert_eq!(fault(s.route(Method::Unset, &vec![])).1, INVALID_PARAMS);
}

#[test]
fn signup_with_root_credentials_is_refused() {
    let mut s = Session::new();
    let refused = fault(s.route(Method::Signup, &vec![root_credentials()]));
    assert_eq!(refused.0, ErrorKind::Capability);
    assert_eq!(refused.2, "Root users cannot signup, only scope users can");
    assert!(refused.2.contains("cannot signup"));
    assert_eq!(s, Session::new());
    assert_eq!(s.level, Level::Anonymous);
}

#[test]
fn signup_is_for_scope_credentials_only() {
    let mut s = Session::new();
    let database = object(vec![
        ("database", strand("d")),
        ("namespace", strand("n")),
        ("password", strand("p")),
        ("username", strand("u")),
    ]);
    assert_eq!(
        fault(s.route(Method::Signup, &vec![database])).2,
        "Database users cannot signup, only scope users can"
    );
    let namespace = object(vec![
        ("namespace", strand("n")),
        ("password", strand("p")),
        ("username", strand("u")),
    ]);
    assert_eq!(
        fault(s.route(Method::Signup, &vec![namespace])).2,
        "Namespace users cannot signup, only scope users can"
    );
    let scope = object(vec![
        ("database", strand("d")),
        ("namespace", strand("n")),
        ("scope", strand("s")),
    ]);
    let step = s.route(Method::Signup, &vec![scope]).ok().unwrap();
    let call = match step {
        Step::Ask(call) => call,
        _ => panic!("no request"),
    };
    assert!(matches!(call, Call::Signup(Credentials::Scope { .. })));
    assert_eq!(s.level, Level::Anonymous);
    let token = s.settle(&call, Outcome::Token(Some("jwt".to_string())));
    assert_eq!(token.ok(), Some(strand("jwt")));
    assert_eq!(s.level, Level::Scope);
    assert_eq!(fault(s.route(Method::Signup, &vec![whole(1)])).1, INVALID_PARAMS);
}

#[test]
fn signin_raises_the_level_when_the_engine_agrees() {
    let mut s = Session::new();
    let step = s.route(Method::Signin, &vec![root_credentials()]).ok().unwrap();
    let call = match step {
        Step::Ask(call) => call,
        _ => panic!("no request"),
    };
    assert_eq!(s.level, Level::Anonymous);
    let e = s.settle(&call, Outcome::Failed("wrong password".to_string())).unwrap_err();
    assert_eq!((e.get_kind(), e.message()), (ErrorKind::Engine, "wrong password".to_string()));
    assert_eq!(s.level, Level::Anonymous);
    assert_eq!(s.settle(&call, Outcome::Token(None)).ok(), Some(Structured::Absent));
    assert_eq!(s.level, Level::Root);
    let call = Call::Authenticate("jwt".to_string());
    assert_eq!(s.settle(&call, Outcome::Token(None)).ok(), Some(Structured::Null));
    assert_eq!(s.level, Level::Token);
}

#[test]
fn resource_calls_ask_the_engine() {
    let mut s = Session::new();
    s.set("limit".to_string(), whole(10));
    let step = s.route(Method::Select, &vec![strand("person:tobie")]).ok().unwrap();
    assert_eq!(
        step,
        Step::Ask(Call::Run(Statement {
            text: "SELECT * FROM $what".to_string(),
            vars: vars(vec![("limit", whole(10)), ("what", thing("person", "tobie"))]),
            single: true,
        }))
    );
    let data = object(vec![("a", whole(1))]);
    let texts = [
        (Method::Create, "CREATE $what CONTENT $data"),
        (Method::Update, "UPDATE $what CONTENT $data"),
        (Method::Merge, "UPDATE $what MERGE $data"),
    ];
    for (method, text) in texts {
        match s.route(method, &vec![strand("person"), data.clone()]).ok().unwrap() {
            Step::Ask(Call::Run(statement)) => {
                assert_eq!(statement.text, text);
                assert_eq!(
                    statement.vars,
                    vars(vec![("data", data.clone()), ("limit", whole(10)), ("what", table("person"))])
                );
                assert!(!statement.single);
            }
            _ => panic!("no statement"),
        }
    }
    match s.route(Method::Delete, &vec![strand("person")]).ok().unwrap() {
        Step::Ask(Call::Run(statement)) => assert_eq!(statement.text, "DELETE $what"),
        _ => panic!("no statement"),
    }
    match s.route(Method::Update, &vec![strand("person")]).ok().unwrap() {
        Step::Ask(Call::Run(statement)) => assert_eq!(statement.text, "UPDATE $what"),
        _ => panic!("no statement"),
    }
}

#[test]
fn the_bindings_of_a_statement_come_before_those_of_the_session() {
    let mut s = Session::new();
    s.set("what".to_string(), strand("mine"));
    match s.route(Method::Select, &vec![strand("person")]).ok().unwrap() {
        Step::Ask(Call::Run(statement)) => {
            assert_eq!(statement.vars, vars(vec![("what", table("person"))]))
        }
        _ => panic!("no statement"),
    }
    let given = object(vec![("what", whole(1)), ("x", whole(2))]);
    match s.route(Method::Query, &vec![strand("RETURN $what"), given]).ok().unwrap() {
        Step::Ask(Call::Query(statement)) => {
            assert_eq!(statement.text, "RETURN $what");
            assert_eq!(statement.vars, vars(vec![("what", whole(1)), ("x", whole(2))]));
        }
        _ => panic!("no statement"),
    }
    match s.route(Method::Query, &vec![strand("RETURN $what")]).ok().unwrap() {
        Step::Ask(Call::Query(statement)) => {
            assert_eq!(statement.vars, vars(vec![("what", strand("mine"))]))
        }
        _ => panic!("no statement"),
    }
}

#[test]
fn a_call_without_a_resource_is_refused() {
    let mut s = Session::new();
    for method in [
        Method::Select,
        Method::Create,
        Method::Update,
        Method::Merge,
        Method::Delete,
        Method::Live,
    ] {
        let refused = fault(s.route(method, &vec![]));
        assert_eq!(refused.0, ErrorKind::Resource);
        assert_eq!(refused.2, "Specify the resource that the call is about");
        assert_eq!(fault(s.route(method, &vec![Structured::Null])).0, ErrorKind::Resource);
    }
    assert_eq!(
        fault(s.route(Method::Patch, &vec![Structured::Absent, Structured::Array(vec![])])).0,
        ErrorKind::Resource
    );
}

#[test]
fn a_patch_call_reads_its_changes() {
    let mut s = Session::new();
    let changes = Structured::Array(vec![
        object(vec![("op", strand("add")), ("path", strand("/a")), ("value", whole(1))]),
        object(vec![("op", strand("replace")), ("path", strand("/a")), ("value", whole(2))]),
    ]);
    match s.route(Method::Patch, &vec![strand("person:tobie"), changes.clone()]).ok().unwrap() {
        Step::Ask(Call::Run(statement)) => {
            assert_eq!(statement.text, "UPDATE $what PATCH $data");
            assert_eq!(
                statement.vars,
                vars(vec![("data", changes), ("what", thing("person", "tobie"))])
            );
        }
        _ => panic!("no statement"),
    }
    match s.route(Method::Patch, &vec![strand("person:tobie"), Structured::Array(vec![])]) {
        Ok(Step::Ask(Call::Run(statement))) => assert_eq!(statement.text, "UPDATE $what"),
        _ => panic!("no statement"),
    }
    let broken = Structured::Array(vec![object(vec![("op", strand("add"))])]);
    assert_eq!(fault(s.route(Method::Patch, &vec![strand("person"), broken])).1, INVALID_PARAMS);
    assert_eq!(fault(s.route(Method::Patch, &vec![strand("person")])).1, INVALID_PARAMS);
}

#[test]
fn other_calls() {
    let mut s = Session::new();
    assert_eq!(s.route(Method::Version, &vec![]).ok(), Some(Step::Ask(Call::Version)));
    assert_eq!(s.route(Method::Health, &vec![]).ok(), Some(Step::Ask(Call::Health)));
    assert_eq!(
        s.route(Method::Live, &vec![strand("person")]).ok(),
        Some(Step::Ask(Call::Live(table("person"))))
    );
    assert_eq!(
        s.route(Method::Authenticate, &vec![strand("jwt")]).ok(),
        Some(Step::Ask(Call::Authenticate("jwt".to_string())))
    );
    let unknown = fault(s.route(Method::Unknown, &vec![]));
    assert_eq!(
        unknown,
        (ErrorKind::Protocol, METHOD_NOT_FOUND, "Method not found".to_string())
    );
    assert_eq!(fault(s.route(Method::Query, &vec![whole(1)])).1, INVALID_PARAMS);
    assert_eq!(fault(s.route(Method::Query, &vec![strand("x"), whole(1)])).1, INVALID_PARAMS);
    assert_eq!(s, Session::new());
}

#[test]
fn answers_of_the_engine_are_settled() {
    let mut s = Session::new();
    let run = Call::Run(Statement::select(&strand("person:tobie")));
    let slots = Outcome::Slots(vec![Ok(Structured::Array(vec![whole(1)]))]);
    assert_eq!(s.settle(&run, slots).ok(), Some(whole(1)));
    let query = Call::Query(Statement::query("x; y".to_string(), vec![]));
    let slots = Outcome::Slots(vec![Ok(whole(1)), Ok(whole(2))]);
    assert_eq!(s.settle(&query, slots).ok(), Some(Structured::Array(vec![whole(1), whole(2)])));
    assert_eq!(
        s.settle(&Call::Live(table("person")), Outcome::Handle([3; 16])).ok(),
        Some(Structured::Uuid([3; 16]))
    );
    assert_eq!(
        s.settle(&Call::Version, Outcome::Version("surrealdb-1.5.6".to_string())).ok(),
        Some(strand("surrealdb-1.5.6"))
    );
    assert_eq!(s.settle(&Call::Health, Outcome::Alive).ok(), Some(Structured::Null));
    let e = s.settle(&Call::Health, Outcome::Handle([0; 16])).unwrap_err();
    assert_eq!((e.get_kind(), e.get_code()), (ErrorKind::Protocol, INTERNAL_ERROR));
    let e = s.settle(&run, Outcome::Slots(vec![])).unwrap_err();
    assert_eq!(e.get_kind(), ErrorKind::Protocol);
    let e = s.settle(&run, Outcome::Slots(vec![Err("no".to_string())])).unwrap_err();
    assert_eq!((e.get_kind(), e.message()), (ErrorKind::Engine, "no".to_string()));
    assert_eq!(s, Session::new());
}

fn request(method: &str, params: Vec<Structured>) -> Vec<u8> {
    encode_request_value(object(vec![
        ("method", strand(method)),
        ("params", Structured::Array(params)),
    ]))
}

fn encode_request_value(v: Structured) -> Vec<u8> {
    let bytes = encode_response(&Ok(v));
    let wrapped: ciborium::Value = ciborium::from_reader(&bytes[..]).unwrap();
    let inner = match wrapped {
        ciborium::Value::Map(mut entries) => entries.pop().unwrap().1,
        _ => panic!("no map"),
    };
    let mut out = Vec::new();
    ciborium::into_writer(&inner, &mut out).unwrap();
    out
}

#[test]
fn bytes_in_and_bytes_out() {
    let mut rpc = WasmRpc::new();
    let done = rpc.execute(&request("use", vec![strand("n"), strand("d")])).ok().unwrap();
    assert_eq!(done, Progress::Finished(encode_response(&Ok(Structured::Null))));
    assert_eq!(rpc.session.ns, Some("n".to_string()));
    let pending = rpc.execute(&request("select", vec![strand("person")])).ok().unwrap();
    let call = match pending {
        Progress::Pending(call) => call,
        _ => panic!("finished"),
    };
    assert_eq!(call, Call::Run(Statement::select(&strand("person"))));
    let list = Structured::Array(vec![whole(1)]);
    let bytes = rpc.resume(&call, Outcome::Slots(vec![Ok(list.clone())])).ok().unwrap();
    assert_eq!(bytes, encode_response(&Ok(list)));
    let e = rpc.resume(&call, Outcome::Failed("down".to_string())).unwrap_err();
    assert_eq!(e.message(), "down");
}

#[test]
fn bytes_that_hold_no_request_are_refused() {
    let mut rpc = WasmRpc::new();
    let e = rpc.execute(&[0xff]).unwrap_err();
    assert_eq!((e.get_kind(), e.get_code()), (ErrorKind::Protocol, -32700));
    let e = rpc.execute(&request("nonsense", vec![])).unwrap_err();
    assert_eq!((e.get_kind(), e.get_code()), (ErrorKind::Protocol, METHOD_NOT_FOUND));
    let e = rpc.execute(&request("signup", vec![root_credentials()])).unwrap_err();
    assert_eq!(e.get_kind(), ErrorKind::Capability);
    assert_eq!(rpc, WasmRpc::new());
}

#[test]
fn a_decoded_request_is_dispatched() {
    let mut rpc = WasmRpc::new();
    let q = Request { id: None, method: "let".to_string(), params: vec![strand("a"), whole(1)] };
    assert!(matches!(rpc.dispatch(q), Ok(Progress::Finished(_))));
    assert_eq!(rpc.session.vars, vars(vec![("a", whole(1))]));
}

#[test]
fn stores_of_a_connection() {
    assert_eq!(WasmRpc::memory(), "memory");
    assert_eq!(WasmRpc::indxdb("app"), "indxdb://app");
    assert_eq!(WasmRpc::indxdb(""), "indxdb://");
}

#[test]
fn a_local_engine_opens_its_store_once() {
    let mut local = Local::new("memory".to_string());
    assert_eq!(local.stage, Stage::Closed);
    assert_eq!(local.session.level, Level::Anonymous);
    assert_eq!(local.init().ok(), Some(true));
    assert_eq!(local.stage, Stage::Opening);
    assert_eq!(local.session.level, Level::Anonymous);
    assert_eq!(local.init().unwrap_err().get_kind(), ErrorKind::MustInstantiate);
    assert!(local.opened(Ok(())).is_ok());
    assert_eq!(local.stage, Stage::Open);
    assert_eq!(local.session.level, Level::Root);
    assert_eq!(local.init().ok(), Some(false));
    assert_eq!(local.init().ok(), Some(false));
    assert_eq!(local.url, "memory");
}

#[test]
fn a_failed_opening_poisons_the_engine_and_leaves_the_session() {
    let mut local = Local::new("nowhere".to_string());
    assert!(local.yuse(Some("n".to_string()), None).is_ok());
    let before = Session { ns: Some("n".to_string()), db: None, level: Level::Anonymous, vars: vec![] };
    assert_eq!(local.init().ok(), Some(true));
    let e = local.opened(Err("no such store".to_string())).unwrap_err();
    assert_eq!((e.get_kind(), e.message()), (ErrorKind::Engine, "no such store".to_string()));
    assert_eq!(local.stage, Stage::Failed("no such store".to_string()));
    assert_eq!(local.session, before);
    for _ in 0..3 {
        let e = local.init().unwrap_err();
        assert_eq!((e.get_kind(), e.message()), (ErrorKind::Engine, "no such store".to_string()));
        assert_eq!(local.stage, Stage::Failed("no such store".to_string()));
        assert_eq!(local.session, before);
    }
    assert_eq!(local.opened(Ok(())).unwrap_err().message(), "no such store");
    assert_eq!(local.session.level, Level::Anonymous);
}

#[test]
fn a_report_that_nobody_asked_for_changes_nothing() {
    let mut local = Local::new("memory".to_string());
    assert_eq!(local.opened(Ok(())).unwrap_err().get_kind(), ErrorKind::MustInstantiate);
    assert_eq!(local.stage, Stage::Closed);
    assert_eq!(local.session.level, Level::Anonymous);
}

#[test]
fn a_local_engine_selects_namespace_and_database() {
    let mut local = Local::new("memory".to_string());
    assert_eq!(local.yuse(Some("n".to_string()), None).ok(), Some(HostValue::Null));
    assert_eq!(local.yuse(None, Some("d".to_string())).ok(), Some(HostValue::Null));
    assert_eq!(local.session.ns, Some("n".to_string()));
    assert_eq!(local.session.db, Some("d".to_string()));
    assert_eq!(local.yuse(None, None).unwrap_err().get_kind(), ErrorKind::Configuration);
    assert_eq!(local.session.ns, Some("n".to_string()));
}

fn host_object(entries: Vec<(&str, HostValue)>) -> HostValue {
    HostValue::Object(entries.into_iter().map(|(k, v)| (k.to_string(), v)).collect())
}

fn host_text(s: &str) -> HostValue {
    HostValue::Text(s.to_string())
}

#[test]
fn statements_of_a_local_engine() {
    let local = Local::new("memory".to_string());
    let what = || host_text("person:tobie");
    let data = || host_object(vec![("name", host_text("T"))]);
    let content = object(vec![("name", strand("T"))]);
    assert_eq!(local.select(what()).ok(), Some(Statement::select(&strand("person:tobie"))));
    assert_eq!(
        local.create(what(), data()).ok(),
        Some(Statement::create(&strand("person:tobie"), Some(content.clone())))
    );
    assert_eq!(local.update(what(), data()).ok().unwrap().text, "UPDATE $what CONTENT $data");
    assert_eq!(local.merge(what(), data()).ok().unwrap().text, "UPDATE $what MERGE $data");
    assert_eq!(local.delete(what()).ok().unwrap().text, "DELETE $what");
    assert_eq!(
        local.create(host_text("person"), HostValue::Undefined).ok().unwrap().vars,
        vars(vec![("data", Structured::Absent), ("what", table("person"))])
    );
}

#[test]
fn changes_of_a_local_engine() {
    let local = Local::new("memory".to_string());
    let what = || host_text("person:tobie");
    let changes = HostValue::Array(vec![
        host_object(vec![("op", host_text("add")), ("path", host_text("/a")), ("value", HostValue::Integer(1))]),
        host_object(vec![("op", host_text("remove")), ("path", host_text("/b"))]),
    ]);
    let patched = local.patch(what(), changes).ok().unwrap();
    assert_eq!(patched.text, "UPDATE $what PATCH $data");
    assert_eq!(
        patched.vars,
        vars(vec![
            (
                "data",
                Structured::Array(vec![
                    object(vec![("op", strand("add")), ("path", strand("/a")), ("value", whole(1))]),
                    object(vec![("op", strand("remove")), ("path", strand("/b"))]),
                ])
            ),
            ("what", thing("person", "tobie"))
        ])
    );
    let broken = HostValue::Array(vec![host_object(vec![("op", host_text("add"))])]);
    let e = local.patch(what(), broken).unwrap_err();
    assert_eq!((e.get_kind(), e.get_code()), (ErrorKind::Protocol, INVALID_PARAMS));
    let e = local.patch(what(), host_text("add")).unwrap_err();
    assert_eq!((e.get_kind(), e.get_code()), (ErrorKind::Protocol, INVALID_PARAMS));
}

#[test]
fn an_empty_list_of_changes_is_the_bare_update_of_a_local_engine() {
    let local = Local::new("memory".to_string());
    let patched = local.patch(host_text("person:tobie"), HostValue::Array(vec![])).ok().unwrap();
    assert_eq!(patched, Statement::update(&strand("person:tobie"), None));
    assert_eq!(
        patched,
        Statement {
            text: "UPDATE $what".to_string(),
            vars: vars(vec![("what", thing("person", "tobie"))]),
            single: true,
        }
    );
}

#[test]
fn a_local_call_that_names_nothing_is_refused() {
    let local = Local::new("memory".to_string());
    let nothing = [HostValue::Undefined, HostValue::Null, HostValue::Other];
    let refused = |r: Result<Statement, Error>| {
        let e = r.unwrap_err();
        assert_eq!(e.get_kind(), ErrorKind::Resource);
        assert_eq!(e.message(), "Specify the resource that the call is about");
    };
    for n in 0..nothing.len() {
        let what = || match nothing[n] {
            HostValue::Null => HostValue::Null,
            HostValue::Other => HostValue::Other,
            _ => HostValue::Undefined,
        };
        refused(local.select(what()));
        refused(local.create(what(), HostValue::Null));
        refused(local.update(what(), HostValue::Null));
        refused(local.merge(what(), HostValue::Null));
        refused(local.patch(what(), HostValue::Array(vec![])));
        refused(local.delete(what()));
    }
    assert_eq!(local.session, Session::new());
    assert_eq!(local.stage, Stage::Closed);
}

#[test]
fn a_query_of_a_local_engine() {
    let local = Local::new("memory".to_string());
    let statement = local.sql(
        host_text("SELECT * FROM $t"),
        HostValue::MapLike(vec![("t".to_string(), host_text("person"))]),
    );
    assert_eq!(
        statement,
        Statement {
            text: "SELECT * FROM $t".to_string(),
            vars: vars(vec![("t", strand("person"))]),
            single: false,
        }
    );
    let statement = local.sql(HostValue::Integer(1), HostValue::Null);
    assert_eq!(statement, Statement { text: String::new(), vars: vec![], single: false });
}

#[test]
fn answers_of_a_local_engine() {
    let single = Statement::select(&strand("person:tobie"));
    let many = Statement::select(&strand("person"));
    let list = || Ok(Structured::Array(vec![whole(1), whole(2)]));
    assert_eq!(Local::answer(&single, list()).ok(), Some(HostValue::Integer(1)));
    assert_eq!(
        Local::answer(&many, list()).ok(),
        Some(HostValue::Array(vec![HostValue::Integer(1), HostValue::Integer(2)]))
    );
    assert_eq!(
        Local::answer(&single, Ok(Structured::Array(vec![]))).ok(),
        Some(HostValue::Undefined)
    );
    assert_eq!(Local::answer(&many, Err("no".to_string())).unwrap_err().message(), "no");
}

#[test]
fn variables_for_credentials() {
    let scope = Credentials::Scope {
        namespace: "n".to_string(),
        database: "d".to_string(),
        scope: "s".to_string(),
        params: vars(vec![("NS", strand("other")), ("email", strand("e"))]),
    };
    assert_eq!(
        scope.bindings(),
        vars(vec![
            ("DB", strand("d")),
            ("NS", strand("n")),
            ("SC", strand("s")),
            ("email", strand("e")),
        ])
    );
    let database = Credentials::Database {
        namespace: "n".to_string(),
        database: "d".to_string(),
        username: "u".to_string(),
        password: "p".to_string(),
    };
    assert_eq!(
        database.bindings(),
        vars(vec![
            ("DB", strand("d")),
            ("NS", strand("n")),
            ("pass", strand("p")),
            ("user", strand("u")),
        ])
    );
    let namespace = Credentials::Namespace {
        namespace: "n".to_string(),
        username: "u".to_string(),
        password: "p".to_string(),
    };
    assert_eq!(
        namespace.bindings(),
        vars(vec![("NS", strand("n")), ("pass", strand("p")), ("user", strand("u"))])
    );
    let root = Credentials::Root { username: "u".to_string(), password: "p".to_string() };
    assert_eq!(root.bindings(), vars(vec![("pass", strand("p")), ("user", strand("u"))]));
}

#[test]
fn a_remote_engine() {
    let remote = Remote::new("wss://db.example".to_string());
    assert_eq!(remote.url, "wss://db.example");
    assert_eq!(remote.session, Session::new());
}

#[test]
fn content_to_create() {
    let create = Create { content: object(vec![("a", whole(1))]) };
    let statement = Statement::create(&strand("person"), Some(create.content));
    assert_eq!(statement.text, "CREATE $what CONTENT $data");
}
