use surrealdb_wasm::engine::SurrealWasmEngine;
use surrealdb_wasm::err::Error;
use surrealdb_wasm::err::ErrorKind;
use surrealdb_wasm::err::INTERNAL_ERROR;
use surrealdb_wasm::err::INVALID_PARAMS;
use surrealdb_wasm::err::METHOD_NOT_FOUND;
use surrealdb_wasm::err::PARSE_ERROR;
use surrealdb_wasm::opt::endpoint::is_set;
use surrealdb_wasm::opt::endpoint::Capabilities;
use surrealdb_wasm::opt::endpoint::CapabilitiesConfig;
use surrealdb_wasm::opt::endpoint::Options;
use surrealdb_wasm::opt::endpoint::Preset;
use surrealdb_wasm::opt::endpoint::TargetList;
use surrealdb_wasm::opt::endpoint::Targets;
use surrealdb_wasm::opt::endpoint::TargetsConfig;
use surrealdb_wasm::rpc::session::Level;

fn names(list: &[&str]) -> Vec<String> {
    list.iter().map(|s| s.to_string()).collect()
}

fn listed(list: &Option<TargetList>) -> Option<Vec<String>> {
    match list {
        Some(TargetList::Listed(names)) => Some(names.clone()),
        _ => None,
    }
}

fn is_everything(list: &Option<TargetList>) -> bool {
    matches!(list, Some(TargetList::Everything))
}

fn is_nothing(list: &Option<TargetList>) -> bool {
    matches!(list, Some(TargetList::Nothing))
}

fn detailed(functions: Option<Targets>, network_targets: Option<Targets>) -> CapabilitiesConfig {
    CapabilitiesConfig::Capabilities {
        scripting: None,
        guest_access: None,
        live_query_notifications: None,
        functions,
        network_targets,
    }
}

fn settings(config: CapabilitiesConfig) -> Capabilities {
    match Capabilities::try_from(config) {
        Ok(c) => c,
        Err(e) => panic!("refused: {}", e.message()),
    }
}

#[test]
fn everything_switched_on() {
    let caps = settings(CapabilitiesConfig::Bool(true));
    assert_eq!(caps.preset, Preset::All);
    assert!(caps.scripting.is_none() && caps.guest_access.is_none());
    assert!(caps.allow_funcs.is_none() && caps.deny_funcs.is_none());
    assert!(caps.allow_net.is_none() && caps.deny_net.is_none());
}

#[test]
fn everything_switched_off_denies_functions() {
    let caps = settings(CapabilitiesConfig::Bool(false));
    assert_eq!(caps.preset, Preset::Default);
    assert!(is_nothing(&caps.allow_funcs));
    assert!(caps.deny_funcs.is_none() && caps.allow_net.is_none() && caps.deny_net.is_none());
    assert!(caps.scripting.is_none() && caps.live_query_notifications.is_none());
}

#[test]
fn switches_replace_the_defaults_they_name() {
    let caps = settings(CapabilitiesConfig::Capabilities {
        scripting: Some(true),
        guest_access: None,
        live_query_notifications: Some(false),
        functions: None,
        network_targets: None,
    });
    assert_eq!(caps.preset, Preset::Default);
    assert_eq!(caps.scripting, Some(true));
    assert_eq!(caps.guest_access, None);
    assert_eq!(caps.live_query_notifications, Some(false));
    assert!(caps.allow_funcs.is_none() && caps.allow_net.is_none());
}

#[test]
fn targets_as_a_switch_or_a_list() {
    let caps = settings(detailed(Some(Targets::Bool(true)), Some(Targets::Bool(false))));
    assert!(is_everything(&caps.allow_funcs));
    assert!(is_nothing(&caps.allow_net));
    assert!(caps.deny_funcs.is_none() && caps.deny_net.is_none());
    let caps = settings(detailed(
        Some(Targets::Array(names(&["http::*", "string::len"]))),
        Some(Targets::Array(names(&["example.com", "10.0.0.0/8"]))),
    ));
    assert_eq!(listed(&caps.allow_funcs), Some(names(&["http::*", "string::len"])));
    assert_eq!(listed(&caps.allow_net), Some(names(&["example.com", "10.0.0.0/8"])));
}

#[test]
fn targets_as_an_allow_and_a_deny_side() {
    let caps = settings(detailed(
        Some(Targets::Config {
            allow: Some(TargetsConfig::Bool(true)),
            deny: Some(TargetsConfig::Array(names(&["http"]))),
        }),
        Some(Targets::Config {
            allow: Some(TargetsConfig::Array(names(&["example.com:443"]))),
            deny: Some(TargetsConfig::Bool(false)),
        }),
    ));
    assert!(is_everything(&caps.allow_funcs));
    assert_eq!(listed(&caps.deny_funcs), Some(names(&["http"])));
    assert_eq!(listed(&caps.allow_net), Some(names(&["example.com:443"])));
    assert!(is_nothing(&caps.deny_net));
    let caps = settings(detailed(
        Some(Targets::Config { allow: None, deny: Some(TargetsConfig::Bool(true)) }),
        Some(Targets::Config { allow: None, deny: None }),
    ));
    assert!(caps.allow_funcs.is_none());
    assert!(is_everything(&caps.deny_funcs));
    assert!(caps.allow_net.is_none() && caps.deny_net.is_none());
}

#[test]
fn network_targets_the_engine_accepts() {
    let accepted = ["127.0.0.1", "10.0.0.0/8", "2001:db8::/32", "example.com", "example.com:80"];
    let caps = settings(detailed(None, Some(Targets::Array(names(&accepted)))));
    assert_eq!(listed(&caps.allow_net), Some(names(&accepted)));
}

fn refusal(config: CapabilitiesConfig) -> Error {
    match Capabilities::try_from(config) {
        Ok(_) => panic!("accepted"),
        Err(e) => e,
    }
}

#[test]
fn a_malformed_network_target_is_refused_by_name() {
    let e = refusal(detailed(None, Some(Targets::Array(names(&["example.com", "exa mple"])))));
    assert_eq!(e.get_kind(), ErrorKind::Configuration);
    assert_eq!(
        e.message(),
        "The provided network target `exa mple` is not a valid host, ip address or ip network"
    );
}

#[test]
fn the_first_malformed_target_is_named_allowed_ones_first() {
    let e = refusal(detailed(
        None,
        Some(Targets::Config {
            allow: Some(TargetsConfig::Array(names(&["ok.example", "bad one"]))),
            deny: Some(TargetsConfig::Array(names(&["bad two"]))),
        }),
    ));
    assert_eq!(
        e.message(),
        "The provided network target `bad one` is not a valid host, ip address or ip network"
    );
    let e = refusal(detailed(
        None,
        Some(Targets::Config {
            allow: Some(TargetsConfig::Bool(true)),
            deny: Some(TargetsConfig::Array(names(&["bad two"]))),
        }),
    ));
    assert_eq!(
        e.message(),
        "The provided network target `bad two` is not a valid host, ip address or ip network"
    );
}

#[test]
fn function_targets_are_not_checked() {
    let caps = settings(detailed(Some(Targets::Array(names(&["not a function"]))), None));
    assert_eq!(listed(&caps.allow_funcs), Some(names(&["not a function"])));
}

#[test]
fn target_lists_from_switches_and_sides() {
    assert!(matches!(TargetList::from_switch(true), TargetList::Everything));
    assert!(matches!(TargetList::from_switch(false), TargetList::Nothing));
    assert!(matches!(TargetList::from_side(TargetsConfig::Bool(false)), TargetList::Nothing));
    let (allow, deny) = Targets::split(None);
    assert!(allow.is_none() && deny.is_none());
}

#[test]
fn a_connection_without_options() {
    let engine = SurrealWasmEngine::connect("mem://", None).ok().unwrap();
    assert_eq!(engine.settings.endpoint, "memory");
    assert_eq!(engine.settings.capabilities.preset, Preset::Default);
    assert!(engine.settings.capabilities.allow_funcs.is_none());
    assert_eq!(engine.settings.transaction_timeout, None);
    assert_eq!(engine.settings.query_timeout, None);
    assert!(!engine.settings.strict);
    assert_eq!(engine.rpc.session.level, Level::Anonymous);
    assert!(engine.rpc.session.ns.is_none() && engine.rpc.session.vars.is_empty());
}

#[test]
fn stores_by_address() {
    let store = |s: &str| SurrealWasmEngine::connect(s, None).ok().unwrap().settings.endpoint;
    assert_eq!(store("mem:"), "memory");
    assert_eq!(store("mem:anything"), "memory");
    assert_eq!(store("memory"), "memory");
    assert_eq!(store("indxdb://app"), "indxdb://app");
    assert_eq!(store("me"), "me");
    assert_eq!(store(""), "");
    assert_eq!(store("Mem://"), "Mem://");
}

#[test]
fn a_connection_with_options() {
    let opts = Options {
        strict: Some(true),
        query_timeout: Some(255),
        transaction_timeout: Some(0),
        capabilities: Some(CapabilitiesConfig::Bool(true)),
    };
    let engine = SurrealWasmEngine::connect("indxdb://app", Some(opts)).ok().unwrap();
    assert_eq!(engine.settings.endpoint, "indxdb://app");
    assert_eq!(engine.settings.capabilities.preset, Preset::All);
    assert_eq!(engine.settings.query_timeout, Some(255));
    assert_eq!(engine.settings.transaction_timeout, Some(0));
    assert!(engine.settings.strict);
    let opts =
        Options { strict: None, query_timeout: None, transaction_timeout: None, capabilities: None };
    let engine = SurrealWasmEngine::connect("mem://", Some(opts)).ok().unwrap();
    assert!(!engine.settings.strict);
    assert_eq!(engine.settings.capabilities.preset, Preset::Default);
}

#[test]
fn a_connection_with_malformed_targets_is_refused() {
    let opts = Options {
        strict: None,
        query_timeout: None,
        transaction_timeout: None,
        capabilities: Some(detailed(None, Some(Targets::Array(names(&["bad one"]))))),
    };
    let e = match SurrealWasmEngine::connect("mem://", Some(opts)) {
        Ok(_) => panic!("accepted"),
        Err(e) => e,
    };
    assert_eq!(e.get_kind(), ErrorKind::Configuration);
    assert_eq!(
        e.message(),
        "The provided network target `bad one` is not a valid host, ip address or ip network"
    );
}

#[test]
fn versions_in_writing() {
    assert_eq!(SurrealWasmEngine::version(1, 5, 6), "1.5.6");
    assert_eq!(SurrealWasmEngine::version(0, 0, 0), "0.0.0");
    assert_eq!(SurrealWasmEngine::version(10, 200, u64::MAX), "10.200.18446744073709551615");
    assert_eq!(SurrealWasmEngine::version_data("1.5.6"), "surrealdb-1.5.6");
}

const LOCK: &str = r#"
version = 3

[[package]]
name = "serde"
version = "1.0.200"

[[package]]
name = "surrealdb"
version = "1.5.6"

[[package]]
name = "surrealdb-core"
version = "2.0.1"
"#;

#[test]
fn the_engine_version_in_a_lock_file() {
    assert_eq!(SurrealWasmEngine::version_of_lock(LOCK), Some("1.5.6".to_string()));
    assert_eq!(SurrealWasmEngine::version_of_lock("version = 3\n"), None);
    assert_eq!(SurrealWasmEngine::version_of_lock("this is no lock file ["), None);
}

#[test]
fn a_version_among_packages() {
    let packages = vec![
        ("a".to_string(), 1, 2, 3),
        ("b".to_string(), 4, 5, 6),
        ("a".to_string(), 7, 8, 9),
    ];
    assert_eq!(SurrealWasmEngine::version_among(&packages, "a"), Some("1.2.3".to_string()));
    assert_eq!(SurrealWasmEngine::version_among(&packages, "b"), Some("4.5.6".to_string()));
    assert_eq!(SurrealWasmEngine::version_among(&packages, "c"), None);
}

#[test]
fn errors_in_words_and_numbers() {
    assert_eq!(Error::InvalidUrl.message(), "Invalid URL");
    assert_eq!(
        Error::MustInstantiate.message(),
        "You need to instantiate this instance using the init(url) method"
    );
    assert_eq!(Error::DBError("engine said no".to_string()).message(), "engine said no");
    assert_eq!(Error::InvalidUrl.get_kind(), ErrorKind::InvalidUrl);
    assert_eq!(Error::MustInstantiate.get_kind(), ErrorKind::MustInstantiate);
    assert_eq!(Error::DBError(String::new()).get_kind(), ErrorKind::Engine);
    assert_eq!(Error::DBError(String::new()).get_code(), INTERNAL_ERROR);
    assert_eq!(Error::Capability("c".to_string()).get_kind(), ErrorKind::Capability);
    assert_eq!(Error::Resource("r".to_string()).message(), "r");
    assert_eq!(Error::Configuration("c".to_string()).get_code(), INTERNAL_ERROR);
    let e = Error::protocol(PARSE_ERROR);
    assert_eq!((e.get_kind(), e.get_code(), e.message()), (ErrorKind::Protocol, -32700, "Parse error".to_string()));
    assert_eq!(Error::protocol(METHOD_NOT_FOUND).message(), "Method not found");
    assert_eq!(Error::protocol(INVALID_PARAMS).message(), "Invalid params");
    assert_eq!(Error::protocol(INTERNAL_ERROR).message(), "Internal error");
    assert_eq!(Error::protocol(INVALID_PARAMS).get_code(), -32602);
}

#[test]
fn lists_that_are_sets() {
    assert!(is_set(&names(&[])));
    assert!(is_set(&names(&["a"])));
    assert!(is_set(&names(&["a", "b", "A", "ab"])));
    assert!(!is_set(&names(&["a", "b", "a"])));
    assert!(!is_set(&names(&["a", "a"])));
}
