//! Opening a connection, and the version of the engine behind it.

use crate::err::Error;
use crate::err::ErrorKind;
use crate::opt::endpoint::first_rejected;
use crate::opt::endpoint::net_names;
use crate::opt::endpoint::net_target_fault_text;
use crate::opt::endpoint::settings_of;
use crate::opt::endpoint::Capabilities;
use crate::opt::endpoint::CapabilitiesConfig;
use crate::opt::endpoint::Options;
use crate::opt::endpoint::Preset;
use crate::rpc::cbor::bytes_of;
use crate::rpc::codec::wire_of;
use crate::rpc::dispatch::executed;
use crate::rpc::dispatch::Progress;
use crate::rpc::dispatch::WasmRpc;
use crate::rpc::envelope::encode_events;
use crate::rpc::envelope::messages_of;
use crate::rpc::envelope::Notification;
use crate::rpc::session::fault_of;
use crate::rpc::session::SessionView;
use crate::text::str_same;
use vstd::prelude::*;
use vstd::string::StrSliceExecFns;
use vstd::string::StringExecFns;

verus! {

/// How the engine is to be set up for a connection: the store to open,
/// the capabilities, the time limits in seconds, and whether the engine
/// is strict about what is not defined. Notifications of live queries are
/// always switched on.
pub struct Settings {
    pub endpoint: String,
    pub capabilities: Capabilities,
    pub transaction_timeout: Option<u64>,
    pub query_timeout: Option<u64>,
    pub strict: bool,
}

/// A connection of a host to an embedded engine.
pub struct SurrealWasmEngine {
    pub rpc: WasmRpc,
    pub settings: Settings,
}

/// Whether an address asks for a store in memory.
pub open spec fn in_memory(endpoint: Seq<char>) -> bool {
    endpoint.len() >= 4 && endpoint[0] == 'm' && endpoint[1] == 'e' && endpoint[2] == 'm'
        && endpoint[3] == ':'
}

/// The store that an address names: the store in memory for any address
/// that starts with `mem:`, else the address itself.
pub open spec fn store_of(endpoint: Seq<char>) -> Seq<char> {
    if in_memory(endpoint) {
        "memory"@
    } else {
        endpoint
    }
}

/// A time limit in seconds.
pub open spec fn seconds(limit: Option<u8>) -> Option<u64> {
    match limit {
        Some(s) => Some(s as u64),
        None => None,
    }
}

/// The capabilities that the options ask for, leaving aside whether their
/// network targets are well formed: the engine's defaults where they ask
/// for none.
pub open spec fn wanted(config: Option<CapabilitiesConfig>) -> Capabilities {
    match config {
        Some(config) => settings_of(config),
        None => Capabilities {
            preset: Preset::Default,
            scripting: None,
            guest_access: None,
            live_query_notifications: None,
            allow_funcs: None,
            deny_funcs: None,
            allow_net: None,
            deny_net: None,
        },
    }
}

/// The network targets that the options name.
pub open spec fn named_targets(config: Option<CapabilitiesConfig>) -> Seq<String> {
    match config {
        Some(config) => net_names(config),
        None => Seq::empty(),
    }
}

/// The decimal digits of a number.
pub open spec fn decimal(n: nat) -> Seq<char>
    decreases n,
{
    if n < 10 {
        seq![(48 + n) as char]
    } else {
        decimal(n / 10).push((48 + n % 10) as char)
    }
}

/// The packages that a lock file lists, each with its name and the three
/// numbers of its version; nothing where the text is no lock file.
pub uninterp spec fn packages_of(text: Seq<char>) -> Option<Seq<(Seq<char>, u64, u64, u64)>>;

/// Mathematical form of a list of packages.
pub open spec fn packages_view(packages: Seq<(String, u64, u64, u64)>) -> Seq<
    (Seq<char>, u64, u64, u64),
> {
    Seq::new(packages.len(), |i: int| (packages[i].0@, packages[i].1, packages[i].2, packages[i].3))
}

/// Parses a lock file with `Lockfile::from_str` of the cargo-lock crate and
/// copies the name and the version of each package it lists, in the order
/// of the file.
#[verifier::external_body]
fn lock_packages(text: &str) -> (r: Option<Vec<(String, u64, u64, u64)>>)
    ensures
        r is Some <==> packages_of(text@) is Some,
        r matches Some(p) ==> Some(packages_view(p@)) == packages_of(text@),
{
    let lock: cargo_lock::Lockfile = text.parse().ok()?;
    Some(
        lock.packages.iter().map(
            |p| (p.name.as_str().to_string(), p.version.major, p.version.minor, p.version.patch),
        ).collect(),
    )
}

/// The digit of a number below ten, as text.
fn digit_text(d: u64) -> (r: &'static str)
    requires
        d < 10,
    ensures
        r@ == seq![(48 + d) as char],
{
    proof {
        reveal_strlit("0");
        reveal_strlit("1");
        reveal_strlit("2");
        reveal_strlit("3");
        reveal_strlit("4");
        reveal_strlit("5");
        reveal_strlit("6");
        reveal_strlit("7");
        reveal_strlit("8");
        reveal_strlit("9");
    }
    let r = if d == 0 {
        "0"
    } else if d == 1 {
        "1"
    } else if d == 2 {
        "2"
    } else if d == 3 {
        "3"
    } else if d == 4 {
        "4"
    } else if d == 5 {
        "5"
    } else if d == 6 {
        "6"
    } else if d == 7 {
        "7"
    } else if d == 8 {
        "8"
    } else {
        "9"
    };
    assert(r@ =~= seq![(48 + d) as char]);
    r
}

/// Writes a number in decimal digits.
fn decimal_text(n: u64) -> (r: String)
    ensures
        r@ == decimal(n as nat),
    decreases n,
{
    if n < 10 {
        String::from_str(digit_text(n))
    } else {
        let mut out = decimal_text(n / 10);
        out.append(digit_text(n % 10));
        assert(out@ =~= decimal((n / 10) as nat).push((48 + n % 10) as char));
        out
    }
}

/// A version written as its three numbers with dots between them.
pub open spec fn version_text(major: u64, minor: u64, patch: u64) -> Seq<char> {
    decimal(major as nat) + seq!['.'] + decimal(minor as nat) + seq!['.'] + decimal(patch as nat)
}

/// Index of the first package of the given name, or the number of packages
/// if there is none.
pub open spec fn first_named(packages: Seq<(Seq<char>, u64, u64, u64)>, name: Seq<char>) -> int
    decreases packages.len(),
{
    if packages.len() == 0 {
        0
    } else if packages[0].0 == name {
        0
    } else {
        1 + first_named(packages.skip(1), name)
    }
}

/// A position that holds the first package of the given name, or is the
/// number of packages where there is none, is `first_named`.
pub proof fn lemma_first_named_is(
    packages: Seq<(Seq<char>, u64, u64, u64)>,
    name: Seq<char>,
    at: int,
)
    requires
        0 <= at <= packages.len(),
        forall|i: int| 0 <= i < at ==> (#[trigger] packages[i]).0 != name,
        at < packages.len() ==> packages[at].0 == name,
    ensures
        first_named(packages, name) == at,
    decreases packages.len(),
{
    if at > 0 {
        assert(packages[0].0 != name);
        let rest = packages.skip(1);
        assert forall|i: int| 0 <= i < at - 1 implies (#[trigger] rest[i]).0 != name by {
            assert(rest[i] == packages[i + 1]);
        }
        lemma_first_named_is(rest, name, at - 1);
    }
}

/// The version of the package of the given name in a list of packages.
pub open spec fn version_in(packages: Seq<(Seq<char>, u64, u64, u64)>, name: Seq<char>) -> Option<
    Seq<char>,
> {
    let at = first_named(packages, name);
    if at < packages.len() {
        Some(version_text(packages[at].1, packages[at].2, packages[at].3))
    } else {
        None
    }
}

impl SurrealWasmEngine {
    /// Plans a connection to the store that `endpoint` names, with the
    /// options of the host. The options are refused where they name a
    /// network target that is not well formed.
    pub fn connect(endpoint: &str, opts: Option<Options>) -> (r: Result<SurrealWasmEngine, Error>)
        ensures
            r is Ok <==> first_rejected(
                named_targets(
                    match opts {
                        Some(o) => o.capabilities,
                        None => None,
                    },
                ),
            ) == named_targets(
                match opts {
                    Some(o) => o.capabilities,
                    None => None,
                },
            ).len(),
            r matches Ok(engine) ==> {
                &&& engine.rpc.session@ == SessionView::fresh()
                &&& engine.settings.endpoint@ == store_of(endpoint@)
                &&& engine.settings.capabilities == wanted(
                    match opts {
                        Some(o) => o.capabilities,
                        None => None,
                    },
                )
                &&& engine.settings.transaction_timeout == seconds(
                    match opts {
                        Some(o) => o.transaction_timeout,
                        None => None,
                    },
                )
                &&& engine.settings.query_timeout == seconds(
                    match opts {
                        Some(o) => o.query_timeout,
                        None => None,
                    },
                )
                &&& engine.settings.strict == match opts {
                    Some(o) => o.strict == Some(true),
                    None => false,
                }
            },
            r matches Err(e) ==> opts is Some && opts->0.capabilities is Some && e.kind()
                == ErrorKind::Configuration && e.text() == net_target_fault_text(
                net_names(opts->0.capabilities->0)[first_rejected(
                    net_names(opts->0.capabilities->0),
                )]@,
            ),
    {
        let len = endpoint.unicode_len();
        let store = if len >= 4 && endpoint.get_char(0) == 'm' && endpoint.get_char(1) == 'e'
            && endpoint.get_char(2) == 'm' && endpoint.get_char(3) == ':' {
            String::from_str("memory")
        } else {
            String::from_str(endpoint)
        };
        let rpc = WasmRpc::new();
        match opts {
            None => Ok(
                SurrealWasmEngine {
                    rpc,
                    settings: Settings {
                        endpoint: store,
                        capabilities: Capabilities::preset(Preset::Default),
                        transaction_timeout: None,
                        query_timeout: None,
                        strict: false,
                    },
                },
            ),
            Some(opts) => {
                let capabilities = match opts.capabilities {
                    None => Capabilities::preset(Preset::Default),
                    Some(config) => match Capabilities::try_from(config) {
                        Ok(caps) => caps,
                        Err(e) => {
                            return Err(e);
                        },
                    },
                };
                let transaction_timeout = match opts.transaction_timeout {
                    Some(s) => Some(s as u64),
                    None => None,
                };
                let query_timeout = match opts.query_timeout {
                    Some(s) => Some(s as u64),
                    None => None,
                };
                let strict = match opts.strict {
                    Some(s) => s,
                    None => false,
                };
                Ok(
                    SurrealWasmEngine {
                        rpc,
                        settings: Settings {
                            endpoint: store,
                            capabilities,
                            transaction_timeout,
                            query_timeout,
                            strict,
                        },
                    },
                )
            },
        }
    }

    /// Takes the bytes of a request and routes it in the session of this
    /// connection.
    pub fn execute(&mut self, data: &[u8]) -> (r: Result<Progress, Error>)
        ensures
            match executed(old(self).rpc.session@, data@) {
                Ok((after, progress)) => r matches Ok(given) && given@ == progress && final(self).rpc.session@ == after,
                Err(fault) => r matches Err(e) && fault_of(e) == fault && final(self).rpc.session@
                    == old(self).rpc.session@,
            },
    {
        self.rpc.execute(data)
    }

    /// Encodes a batch of events for the wire, each as a message of its own
    /// and in the order in which the events came.
    pub fn notifications(events: &Vec<Notification>) -> (out: Vec<Vec<u8>>)
        ensures
            out@.len() == events@.len(),
            forall|i: int|
                0 <= i < events@.len() ==> (#[trigger] out@[i])@ == bytes_of(
                    wire_of(messages_of(events@)[i]),
                ),
    {
        encode_events(events)
    }

    /// Writes a version as its three numbers with dots between them.
    pub fn version(major: u64, minor: u64, patch: u64) -> (r: String)
        ensures
            r@ == version_text(major, minor, patch),
    {
        proof {
            reveal_strlit(".");
            assert("."@ =~= seq!['.']);
        }
        let mut out = decimal_text(major);
        out.append(".");
        out.append(decimal_text(minor).as_str());
        out.append(".");
        out.append(decimal_text(patch).as_str());
        out
    }

    /// Finds the version of the package of the given name among the
    /// packages of a lock file.
    pub fn version_among(packages: &Vec<(String, u64, u64, u64)>, name: &str) -> (r: Option<String>)
        ensures
            r is Some <==> version_in(packages_view(packages@), name@) is Some,
            r matches Some(v) ==> Some(v@) == version_in(packages_view(packages@), name@),
    {
        let ghost list = packages_view(packages@);
        let mut at: usize = 0;
        while at < packages.len()
            invariant
                at <= packages.len(),
                list == packages_view(packages@),
                forall|i: int| 0 <= i < at ==> (#[trigger] list[i]).0 != name@,
            decreases packages.len() - at,
        {
            if str_same(packages[at].0.as_str(), name) {
                proof {
                    assert(list[at as int].0 == packages@[at as int].0@);
                    lemma_first_named_is(list, name@, at as int);
                }
                return Some(
                    SurrealWasmEngine::version(packages[at].1, packages[at].2, packages[at].3),
                );
            }
            assert(list[at as int].0 == packages@[at as int].0@);
            at = at + 1;
        }
        proof {
            lemma_first_named_is(list, name@, at as int);
        }
        None
    }

    /// Finds the version of the engine in the text of a lock file: that of
    /// the first package named `surrealdb`. Nothing is found in text that
    /// is no lock file or lists no such package.
    pub fn version_of_lock(text: &str) -> (r: Option<String>)
        ensures
            r is Some <==> (packages_of(text@) matches Some(p) && version_in(p, "surrealdb"@)
                is Some),
            r matches Some(v) ==> Some(v@) == version_in(packages_of(text@)->0, "surrealdb"@),
    {
        match lock_packages(text) {
            Some(packages) => SurrealWasmEngine::version_among(&packages, "surrealdb"),
            None => None,
        }
    }

    /// The name under which the engine of the given version tells of
    /// itself.
    pub fn version_data(version: &str) -> (r: String)
        ensures
            r@ == "surrealdb-"@ + version@,
    {
        let mut out = String::from_str("surrealdb-");
        out.append(version);
        out
    }
}

} // verus!
