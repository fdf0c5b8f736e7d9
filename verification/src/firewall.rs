//! The decisions of the firewalld check. The daemon is asked over D-Bus by
//! the caller; this module says which services still have to be enabled,
//! which changes are made and in what order, which errors of the daemon are
//! harmless, and where the default zone's configuration lives.

use vstd::prelude::*;
use std::collections::HashMap;
use crate::text::{chars_of, contains, contains_seq, decimal, push_decimal, string_of};

verus! {

/// The service description that firewalld keeps for this application.
pub struct ServiceConfig {
    pub version: String,
    pub short: String,
    pub description: String,
    pub ports: Vec<(String, String)>,
    pub module_names: Vec<String>,
    pub destinations: HashMap<String, String>,
    pub protocols: Vec<String>,
    pub source_ports: Vec<(String, String)>,
}

/// `c` is the application's service, opening TCP port `port`.
pub open spec fn is_app_service(c: ServiceConfig, port: Seq<char>) -> bool {
    &&& c.version@ == Seq::<char>::empty()
    &&& c.short@ == "Dragit"@
    &&& c.description@ == "Dragit is a local network file sharing application"@
    &&& c.ports@.len() == 1
    &&& c.ports@[0].0@ == port
    &&& c.ports@[0].1@ == "tcp"@
    &&& c.module_names@.len() == 0
    &&& c.destinations@ == Map::<String, String>::empty()
    &&& c.protocols@.len() == 0
    &&& c.source_ports@.len() == 0
}

impl ServiceConfig {
    /// The application's service, opening TCP port `port`.
    pub fn new(port: String) -> (c: ServiceConfig)
        ensures
            is_app_service(c, port@),
    {
        let mut ports: Vec<(String, String)> = Vec::new();
        ports.push((port, "tcp".to_owned()));
        ServiceConfig {
            version: String::new(),
            short: "Dragit".to_owned(),
            description: "Dragit is a local network file sharing application".to_owned(),
            ports,
            module_names: Vec::new(),
            destinations: HashMap::new(),
            protocols: Vec::new(),
            source_ports: Vec::new(),
        }
    }
}

/// An error of the daemon whose message holds `text_to_match` is expected
/// and ignored; any other is passed on.
pub fn catch_dbus_error(message: &str, text_to_match: &str) -> (r: Result<(), String>)
    ensures
        r is Ok <==> contains_seq(message@, text_to_match@),
        r matches Err(m) ==> m@ == message@,
{
    if contains(message, text_to_match) {
        Ok(())
    } else {
        Err(message.to_owned())
    }
}

/// With the application's TCP port and the mDNS UDP port both open nothing
/// is needed (`Some((false, false))`); otherwise the services have to be
/// asked about (`None`).
pub fn rules_from_ports(dragit_port_enabled: bool, mdns_port_enabled: bool) -> (r: Option<(bool, bool)>)
    ensures
        r is Some <==> dragit_port_enabled && mdns_port_enabled,
        r matches Some(needs) ==> needs == (false, false),
{
    if dragit_port_enabled && mdns_port_enabled {
        Some((false, false))
    } else {
        None
    }
}

/// Which services still have to be enabled, `(mdns, dragit)`, from the
/// answers to the two service queries. A query about the application's
/// service that fails with `INVALID_SERVICE` means the service is not
/// configured yet; any other failure is passed on.
pub fn rules_from_services(mdns_service_enabled: bool, dragit_service: Result<bool, String>) -> (r:
    Result<(bool, bool), String>)
    ensures
        dragit_service matches Ok(v) ==> r == Ok::<(bool, bool), String>((!mdns_service_enabled, !v)),
        dragit_service matches Err(m) ==> (if contains_seq(m@, "INVALID_SERVICE"@) {
            r == Ok::<(bool, bool), String>((!mdns_service_enabled, true))
        } else {
            r matches Err(e) && e@ == m@
        }),
{
    match dragit_service {
        Ok(v) => Ok((!mdns_service_enabled, !v)),
        Err(m) => match catch_dbus_error(m.as_str(), "INVALID_SERVICE") {
            Ok(()) => Ok((!mdns_service_enabled, true)),
            Err(e) => Err(e),
        },
    }
}

/// The question asked before the firewall configuration is changed for the
/// application's port `port`.
pub open spec fn prompt_text(port: u16) -> Seq<char> {
    "Your current firewall configuration prevents Dragit from working.\n\nDragit can configure the firewall for you. Would you like it to do so?\nIf yes, you'll be prompted for password.\n\nFollowing ports will be added:\n- tcp 5353\n- tcp "@
        + decimal(port as nat)
}

/// The question asked before the firewall configuration is changed for the
/// application's port `port`.
pub fn firewall_prompt(port: u16) -> (t: String)
    ensures
        t@ == prompt_text(port),
{
    let mut out = chars_of(
        "Your current firewall configuration prevents Dragit from working.\n\nDragit can configure the firewall for you. Would you like it to do so?\nIf yes, you'll be prompted for password.\n\nFollowing ports will be added:\n- tcp 5353\n- tcp ",
    );
    push_decimal(port as u64, &mut out);
    string_of(&out)
}

/// One change made to the firewall configuration.
pub enum FirewallStep {
    /// Find the configuration object of the default zone.
    FindDefaultZone,
    /// Add the application's service to the permanent configuration.
    AddService(ServiceConfig),
    /// Enable the named service in the default zone's permanent configuration.
    EnableInZone(String),
    /// Reload the firewall.
    Reload,
}

/// The number of changes made for `(mdns_needed, dragit_needed)`.
pub open spec fn plan_len(mdns_needed: bool, dragit_needed: bool) -> int {
    if !mdns_needed && !dragit_needed {
        0
    } else {
        2 + (if dragit_needed { 2int } else { 0int }) + (if mdns_needed { 1int } else { 0int })
    }
}

/// The changes made when the services `(mdns, dragit)` are needed, in
/// order: nothing when none is needed; otherwise finding the default zone,
/// then adding and enabling the application's service for `port`, then
/// enabling mDNS, each as needed, and last a reload.
pub fn handle_plan(needs: (bool, bool), port: u16) -> (plan: Vec<FirewallStep>)
    ensures
        plan@.len() == plan_len(needs.0, needs.1),
        plan@.len() > 0 ==> plan@[0] is FindDefaultZone && plan@.last() is Reload,
        needs.1 ==> (plan@[1] matches FirewallStep::AddService(c) && is_app_service(c, decimal(port as nat))),
        needs.1 ==> (plan@[2] matches FirewallStep::EnableInZone(s) && s@ == "dragit"@),
        needs.0 ==> (plan@[plan@.len() - 2] matches FirewallStep::EnableInZone(s) && s@ == "mdns"@),
{
    let (mdns_needed, dragit_needed) = needs;
    let mut plan: Vec<FirewallStep> = Vec::new();
    if mdns_needed || dragit_needed {
        plan.push(FirewallStep::FindDefaultZone);
        if dragit_needed {
            let mut digits: Vec<char> = Vec::new();
            push_decimal(port as u64, &mut digits);
            assert(digits@ =~= decimal(port as nat));
            let service = ServiceConfig::new(string_of(&digits));
            plan.push(FirewallStep::AddService(service));
            plan.push(FirewallStep::EnableInZone("dragit".to_owned()));
        }
        if mdns_needed {
            plan.push(FirewallStep::EnableInZone("mdns".to_owned()));
        }
        plan.push(FirewallStep::Reload);
    }
    plan
}

/// The text in an error of the daemon that makes a failed step harmless:
/// the service existing already when it is added, the service being enabled
/// already when it is enabled. Other steps have none.
pub open spec fn tolerated_text(step: FirewallStep) -> Option<Seq<char>> {
    match step {
        FirewallStep::AddService(_) => Some("NAME_CONFLICT"@),
        FirewallStep::EnableInZone(_) => Some("ALREADY_ENABLED"@),
        _ => None,
    }
}

impl FirewallStep {
    /// The outcome of this step once the daemon answered `result`: a
    /// failure is ignored when its message holds the step's tolerated text
    /// and passed on otherwise.
    pub fn outcome(&self, result: Result<(), String>) -> (r: Result<(), String>)
        ensures
            result is Ok ==> r is Ok,
            result matches Err(m) ==> (match tolerated_text(*self) {
                Some(t) => if contains_seq(m@, t) {
                    r is Ok
                } else {
                    r matches Err(e) && e@ == m@
                },
                None => r matches Err(e) && e@ == m@,
            }),
    {
        match result {
            Ok(()) => Ok(()),
            Err(m) => match self {
                FirewallStep::AddService(_) => catch_dbus_error(m.as_str(), "NAME_CONFLICT"),
                FirewallStep::EnableInZone(_) => catch_dbus_error(m.as_str(), "ALREADY_ENABLED"),
                _ => Err(m),
            },
        }
    }
}

/// The position of the last of the first `n` zone names equal to `zone`,
/// or -1.
pub open spec fn last_zone_match(names: Seq<String>, zone: Seq<char>, n: int) -> int
    decreases n,
{
    if n <= 0 {
        -1
    } else if names[n - 1]@ == zone {
        n - 1
    } else {
        last_zone_match(names, zone, n - 1)
    }
}

proof fn lemma_last_zone_match(names: Seq<String>, zone: Seq<char>, n: int)
    requires
        0 <= n <= names.len(),
    ensures
        -1 <= last_zone_match(names, zone, n) < n,
        last_zone_match(names, zone, n) >= 0 ==> names[last_zone_match(names, zone, n)]@ == zone,
    decreases n,
{
    if n > 0 {
        lemma_last_zone_match(names, zone, n - 1);
    }
}

/// The configuration object of the zone named `default_zone`, from the
/// daemon's list of zone names and the list of zone objects in the same
/// order. Pairs are taken while both lists last; where a name occurs twice
/// the later pair counts.
pub fn default_zone_path(default_zone: &str, zone_names: &Vec<String>, zone_paths: &Vec<String>) -> (r:
    Result<String, String>)
    ensures
        ({
            let n = if zone_names@.len() <= zone_paths@.len() {
                zone_names@.len() as int
            } else {
                zone_paths@.len() as int
            };
            let i = last_zone_match(zone_names@, default_zone@, n);
            if i >= 0 {
                r matches Ok(p) && p@ == zone_paths@[i]@
            } else {
                r matches Err(e) && e@ == "Could not determine the default firewall zone"@
            }
        }),
{
    let n = if zone_names.len() <= zone_paths.len() {
        zone_names.len()
    } else {
        zone_paths.len()
    };
    let zone = default_zone.to_owned();
    let mut found: Option<usize> = None;
    let mut i: usize = 0;
    while i < n
        invariant
            i <= n,
            n <= zone_names@.len(),
            n <= zone_paths@.len(),
            zone@ == default_zone@,
            match found {
                Some(k) => k as int == last_zone_match(zone_names@, default_zone@, i as int),
                None => last_zone_match(zone_names@, default_zone@, i as int) == -1,
            },
        decreases n - i,
    {
        if zone_names[i] == zone {
            found = Some(i);
        }
        i = i + 1;
    }
    proof {
        lemma_last_zone_match(zone_names@, default_zone@, n as int);
    }
    match found {
        Some(k) => Ok(zone_paths[k].clone()),
        None => Err("Could not determine the default firewall zone".to_owned()),
    }
}

} // verus!
