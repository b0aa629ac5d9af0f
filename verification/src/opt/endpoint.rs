//! Connection options and the capability settings derived from them.

use crate::err::Error;
use crate::err::ErrorKind;
use vstd::prelude::*;

verus! {

/// What a host may pass when it opens a connection.
pub struct Options {
    pub strict: Option<bool>,
    pub query_timeout: Option<u8>,
    pub transaction_timeout: Option<u8>,
    pub capabilities: Option<CapabilitiesConfig>,
}

/// Capabilities as the host writes them: one switch for everything, or one
/// entry per capability.
pub enum CapabilitiesConfig {
    Bool(bool),
    Capabilities {
        scripting: Option<bool>,
        guest_access: Option<bool>,
        live_query_notifications: Option<bool>,
        functions: Option<Targets>,
        network_targets: Option<Targets>,
    },
}

/// Targets of one capability: all or none, a list to allow, or an allow list
/// and a deny list. A list stands for a set: see [`CapabilitiesConfig::wf`].
pub enum Targets {
    Bool(bool),
    Array(Vec<String>),
    Config { allow: Option<TargetsConfig>, deny: Option<TargetsConfig> },
}

/// One side of an allow/deny pair.
pub enum TargetsConfig {
    Bool(bool),
    Array(Vec<String>),
}

/// A set of targets as the engine takes it.
pub enum TargetList {
    /// No target at all.
    Nothing,
    /// The targets named here.
    Listed(Vec<String>),
    /// Every target.
    Everything,
}

/// The engine preset that the settings are laid over.
#[derive(Clone, Copy, Debug, PartialEq, Eq, Structural)]
pub enum Preset {
    /// The engine's defaults.
    Default,
    /// Everything allowed.
    All,
}

/// Capability settings for the engine: a preset, and for each capability
/// the value that replaces the preset's, if any.
pub struct Capabilities {
    pub preset: Preset,
    pub scripting: Option<bool>,
    pub guest_access: Option<bool>,
    pub live_query_notifications: Option<bool>,
    pub allow_funcs: Option<TargetList>,
    pub deny_funcs: Option<TargetList>,
    pub allow_net: Option<TargetList>,
    pub deny_net: Option<TargetList>,
}

/// Whether the engine reads `s` as a network target: a host with or without
/// a port, an address, or a network.
pub uninterp spec fn net_target_accepted(s: Seq<char>) -> bool;

/// The engine's message for a string that is no network target.
pub open spec fn net_target_fault_text(s: Seq<char>) -> Seq<char> {
    "The provided network target `"@ + s
        + "` is not a valid host, ip address or ip network"@
}

/// Parses `s` with `NetTarget::from_str` of the engine and returns the error
/// it gave, if any. The engine builds that error by putting `s` between two
/// fixed pieces of text; which strings it accepts is left to
/// [`net_target_accepted`].
#[verifier::external_body]
fn net_target_fault(s: &str) -> (r: Option<String>)
    ensures
        r is None <==> net_target_accepted(s@),
        r matches Some(m) ==> m@ == net_target_fault_text(s@),
{
    s.parse::<surrealdb::dbs::capabilities::NetTarget>().err()
}

/// All or none, from a switch.
pub open spec fn list_of_switch(on: bool) -> TargetList {
    if on {
        TargetList::Everything
    } else {
        TargetList::Nothing
    }
}

/// The target set that one side of an allow/deny pair stands for.
pub open spec fn list_of_side(side: TargetsConfig) -> TargetList {
    match side {
        TargetsConfig::Bool(on) => list_of_switch(on),
        TargetsConfig::Array(names) => TargetList::Listed(names),
    }
}

/// The allow set that `targets` asks for, if it asks for one.
pub open spec fn allowed(targets: Option<Targets>) -> Option<TargetList> {
    match targets {
        None => None,
        Some(Targets::Bool(on)) => Some(list_of_switch(on)),
        Some(Targets::Array(names)) => Some(TargetList::Listed(names)),
        Some(Targets::Config { allow: Some(side), .. }) => Some(list_of_side(side)),
        Some(Targets::Config { allow: None, .. }) => None,
    }
}

/// The deny set that `targets` asks for, if it asks for one.
pub open spec fn denied(targets: Option<Targets>) -> Option<TargetList> {
    match targets {
        Some(Targets::Config { deny: Some(side), .. }) => Some(list_of_side(side)),
        _ => None,
    }
}

/// The names listed in a target set, in order; none for all-or-nothing sets.
pub open spec fn listed(list: Option<TargetList>) -> Seq<String> {
    match list {
        Some(TargetList::Listed(names)) => names@,
        _ => Seq::empty(),
    }
}

/// The network targets that `config` names: the allowed ones, then the
/// denied ones.
pub open spec fn net_names(config: CapabilitiesConfig) -> Seq<String> {
    match config {
        CapabilitiesConfig::Bool(_) => Seq::empty(),
        CapabilitiesConfig::Capabilities { network_targets, .. } => listed(
            allowed(network_targets),
        ) + listed(denied(network_targets)),
    }
}

/// Index of the first name the engine does not accept as a network target,
/// or the length of `names` if it accepts all.
pub open spec fn first_rejected(names: Seq<String>) -> int
    decreases names.len(),
{
    if names.len() == 0 {
        0
    } else if !net_target_accepted(names[0]@) {
        0
    } else {
        1 + first_rejected(names.skip(1))
    }
}

/// The settings that `config` stands for, leaving aside whether its network
/// targets are well formed.
pub open spec fn settings_of(config: CapabilitiesConfig) -> Capabilities {
    match config {
        CapabilitiesConfig::Bool(true) => Capabilities {
            preset: Preset::All,
            scripting: None,
            guest_access: None,
            live_query_notifications: None,
            allow_funcs: None,
            deny_funcs: None,
            allow_net: None,
            deny_net: None,
        },
        CapabilitiesConfig::Bool(false) => Capabilities {
            preset: Preset::Default,
            scripting: None,
            guest_access: None,
            live_query_notifications: None,
            allow_funcs: Some(TargetList::Nothing),
            deny_funcs: None,
            allow_net: None,
            deny_net: None,
        },
        CapabilitiesConfig::Capabilities {
            scripting,
            guest_access,
            live_query_notifications,
            functions,
            network_targets,
        } => Capabilities {
            preset: Preset::Default,
            scripting,
            guest_access,
            live_query_notifications,
            allow_funcs: allowed(functions),
            deny_funcs: denied(functions),
            allow_net: allowed(network_targets),
            deny_net: denied(network_targets),
        },
    }
}

/// `first_rejected` never leaves the sequence, and points at a rejected name
/// unless it is the length.
pub proof fn lemma_first_rejected(names: Seq<String>)
    ensures
        0 <= first_rejected(names) <= names.len(),
        first_rejected(names) < names.len() ==> !net_target_accepted(
            names[first_rejected(names)]@,
        ),
        forall|i: int|
            0 <= i < first_rejected(names) ==> net_target_accepted(#[trigger] names[i]@),
    decreases names.len(),
{
    if names.len() > 0 && net_target_accepted(names[0]@) {
        let rest = names.skip(1);
        lemma_first_rejected(rest);
        assert forall|i: int| 0 <= i < first_rejected(names) implies net_target_accepted(
            #[trigger] names[i]@,
        ) by {
            if i > 0 {
                assert(rest[i - 1] == names[i]);
            }
        }
    }
}

/// Where `first_rejected` lands in a concatenation.
pub proof fn lemma_first_rejected_concat(a: Seq<String>, b: Seq<String>)
    ensures
        first_rejected(a + b) == if first_rejected(a) < a.len() {
            first_rejected(a)
        } else {
            a.len() + first_rejected(b)
        },
    decreases a.len(),
{
    lemma_first_rejected(a);
    if a.len() == 0 {
        assert(a + b =~= b);
    } else {
        assert((a + b)[0] == a[0]);
        if net_target_accepted(a[0]@) {
            assert((a + b).skip(1) =~= a.skip(1) + b);
            lemma_first_rejected_concat(a.skip(1), b);
            lemma_first_rejected(a.skip(1));
        }
    }
}

/// Scans `names` for the first one the engine rejects as a network target.
fn check_names(names: &Vec<String>) -> (r: Option<String>)
    ensures
        r is None <==> first_rejected(names@) == names@.len(),
        r matches Some(m) ==> m@ == net_target_fault_text(
            names@[first_rejected(names@)]@,
        ),
{
    let mut i: usize = 0;
    while i < names.len()
        invariant
            i <= names.len(),
            forall|j: int| 0 <= j < i ==> net_target_accepted(#[trigger] names@[j]@),
        decreases names.len() - i,
    {
        match net_target_fault(names[i].as_str()) {
            Some(m) => {
                proof {
                    lemma_first_rejected(names@);
                }
                return Some(m);
            },
            None => {},
        }
        i = i + 1;
    }
    proof {
        lemma_first_rejected(names@);
    }
    None
}

/// Scans the names of one target set.
fn check_list(list: &Option<TargetList>) -> (r: Option<String>)
    ensures
        r is None <==> first_rejected(listed(*list)) == listed(*list).len(),
        r matches Some(m) ==> m@ == net_target_fault_text(
            listed(*list)[first_rejected(listed(*list))]@,
        ),
{
    match list {
        Some(TargetList::Listed(names)) => check_names(names),
        _ => None,
    }
}

/// No name occurs twice.
pub open spec fn no_repeats(names: Seq<String>) -> bool {
    forall|i: int, j: int| 0 <= i < j < names.len() ==> (#[trigger] names[i])@ != (#[trigger] names[j])@
}

/// One side of an allow/deny pair lists no name twice.
pub open spec fn side_is_set(side: Option<TargetsConfig>) -> bool {
    match side {
        Some(TargetsConfig::Array(names)) => no_repeats(names@),
        _ => true,
    }
}

/// The targets of one capability list no name twice.
pub open spec fn targets_are_sets(targets: Option<Targets>) -> bool {
    match targets {
        Some(Targets::Array(names)) => no_repeats(names@),
        Some(Targets::Config { allow, deny }) => side_is_set(allow) && side_is_set(deny),
        _ => true,
    }
}

/// A target set lists no name twice.
pub open spec fn list_is_set(list: Option<TargetList>) -> bool {
    match list {
        Some(TargetList::Listed(names)) => no_repeats(names@),
        _ => true,
    }
}

impl CapabilitiesConfig {
    /// Every list of targets in the configuration is a set: no name occurs
    /// twice in it.
    pub open spec fn wf(self) -> bool {
        match self {
            CapabilitiesConfig::Bool(_) => true,
            CapabilitiesConfig::Capabilities { functions, network_targets, .. } => targets_are_sets(
                functions,
            ) && targets_are_sets(network_targets),
        }
    }
}

/// Whether no name occurs twice in a list.
pub fn is_set(names: &Vec<String>) -> (r: bool)
    ensures
        r == no_repeats(names@),
{
    let mut j: usize = 0;
    while j < names.len()
        invariant
            j <= names.len(),
            forall|a: int, b: int| 0 <= a < b < j ==> (#[trigger] names@[a])@ != (#[trigger] names@[b])@,
        decreases names.len() - j,
    {
        let mut i: usize = 0;
        while i < j
            invariant
                i <= j < names.len(),
                forall|a: int| 0 <= a < i ==> (#[trigger] names@[a])@ != names@[j as int]@,
            decreases j - i,
        {
            if crate::text::str_same(names[i].as_str(), names[j].as_str()) {
                return false;
            }
            i = i + 1;
        }
        j = j + 1;
    }
    true
}

impl TargetList {
    /// All or none, from a switch.
    pub fn from_switch(on: bool) -> (r: TargetList)
        ensures
            r == list_of_switch(on),
    {
        if on {
            TargetList::Everything
        } else {
            TargetList::Nothing
        }
    }

    /// The target set that one side of an allow/deny pair stands for.
    pub fn from_side(side: TargetsConfig) -> (r: TargetList)
        ensures
            r == list_of_side(side),
    {
        match side {
            TargetsConfig::Bool(on) => TargetList::from_switch(on),
            TargetsConfig::Array(names) => TargetList::Listed(names),
        }
    }
}

impl Targets {
    /// Splits the targets of one capability into the allow set and the deny
    /// set that they ask for.
    pub fn split(targets: Option<Targets>) -> (r: (Option<TargetList>, Option<TargetList>))
        ensures
            r.0 == allowed(targets),
            r.1 == denied(targets),
    {
        match targets {
            None => (None, None),
            Some(Targets::Bool(on)) => (Some(TargetList::from_switch(on)), None),
            Some(Targets::Array(names)) => (Some(TargetList::Listed(names)), None),
            Some(Targets::Config { allow, deny }) => {
                let a = match allow {
                    Some(side) => Some(TargetList::from_side(side)),
                    None => None,
                };
                let d = match deny {
                    Some(side) => Some(TargetList::from_side(side)),
                    None => None,
                };
                (a, d)
            },
        }
    }
}

impl Capabilities {
    /// Every target set of the settings lists no name twice.
    pub open spec fn wf(self) -> bool {
        list_is_set(self.allow_funcs) && list_is_set(self.deny_funcs) && list_is_set(
            self.allow_net,
        ) && list_is_set(self.deny_net)
    }

    /// A preset with nothing replaced.
    pub fn preset(preset: Preset) -> (r: Capabilities)
        ensures
            r == (Capabilities {
                preset,
                scripting: None,
                guest_access: None,
                live_query_notifications: None,
                allow_funcs: None,
                deny_funcs: None,
                allow_net: None,
                deny_net: None,
            }),
    {
        Capabilities {
            preset,
            scripting: None,
            guest_access: None,
            live_query_notifications: None,
            allow_funcs: None,
            deny_funcs: None,
            allow_net: None,
            deny_net: None,
        }
    }

    /// Turns the host's configuration into engine settings.
    ///
    /// `true` allows everything; `false` is the engine's default with every
    /// function denied. A detailed configuration starts from the engine's
    /// default and replaces what it names. It is refused when one of its
    /// network targets is not well formed: the error then names the first
    /// such target, the allowed ones coming before the denied ones.
    /// Function targets are handed on as written, since the engine reads
    /// every string as one.
    pub fn try_from(config: CapabilitiesConfig) -> (r: Result<Capabilities, Error>)
        ensures
            r is Ok <==> first_rejected(net_names(config)) == net_names(config).len(),
            r matches Ok(caps) ==> caps == settings_of(config),
            r matches Ok(caps) ==> (config.wf() ==> caps.wf()),
            r matches Err(e) ==> e.kind() == ErrorKind::Configuration && e.text()
                == net_target_fault_text(
                net_names(config)[first_rejected(net_names(config))]@,
            ),
    {
        match config {
            CapabilitiesConfig::Bool(true) => Ok(Capabilities::preset(Preset::All)),
            CapabilitiesConfig::Bool(false) => {
                let mut caps = Capabilities::preset(Preset::Default);
                caps.allow_funcs = Some(TargetList::Nothing);
                Ok(caps)
            },
            CapabilitiesConfig::Capabilities {
                scripting,
                guest_access,
                live_query_notifications,
                functions,
                network_targets,
            } => {
                let (allow_funcs, deny_funcs) = Targets::split(functions);
                let (allow_net, deny_net) = Targets::split(network_targets);
                proof {
                    lemma_first_rejected_concat(listed(allow_net), listed(deny_net));
                    lemma_first_rejected(listed(allow_net));
                    lemma_first_rejected(listed(deny_net));
                }
                match check_list(&allow_net) {
                    Some(m) => {
                        return Err(Error::Configuration(m));
                    },
                    None => {},
                }
                match check_list(&deny_net) {
                    Some(m) => {
                        return Err(Error::Configuration(m));
                    },
                    None => {},
                }
                Ok(
                    Capabilities {
                        preset: Preset::Default,
                        scripting,
                        guest_access,
                        live_query_notifications,
                        allow_funcs,
                        deny_funcs,
                        allow_net,
                        deny_net,
                    },
                )
            },
        }
    }
}

} // verus!
