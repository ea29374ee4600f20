//! Status snapshot schema the agent reports to its external consumer.
//!
//! The records are plain data: monitoring collaborators fill the fields by
//! assignment and hand a completed snapshot over; nothing here validates or
//! merges. Field names are part of a compatibility contract with a separate
//! consumer and keep their external casing.

use vstd::prelude::*;

verus! {

/// Coarse lifecycle state reported for one agent subsystem.
#[allow(non_camel_case_types)]
#[derive(Debug, PartialEq, Eq, Structural, Clone, Copy)]
pub enum ModuleState {
    UNKNOWN,
    RUNNING,
    STOPPED,
}

/// Overall health of the agent as a whole.
#[allow(non_camel_case_types)]
#[derive(Debug, PartialEq, Eq, Structural, Clone, Copy)]
pub enum OverallState {
    SUCCESS,
    ERROR,
    UNKNOWN,
}

/// Status detail for one agent subsystem.
///
/// `states` is an ordered mapping of module-specific keys to values, kept as
/// a sequence of pairs in insertion order; when it is absent it is omitted
/// from the serialized form entirely (its siblings never are).
#[allow(non_snake_case)]
pub struct ProxyAgentDetailStatus {
    pub status: ModuleState,
    pub message: String,
    pub states: Option<Vec<(String, String)>>,
}

/// Per-module status of the agent plus the running connection count.
#[allow(non_snake_case)]
pub struct ProxyAgentStatus {
    pub version: String,
    pub status: OverallState,
    pub monitorStatus: ProxyAgentDetailStatus,
    pub keyLatchStatus: ProxyAgentDetailStatus,
    pub ebpfProgramStatus: ProxyAgentDetailStatus,
    pub proxyListenerStatus: ProxyAgentDetailStatus,
    pub telemetryLoggerStatus: ProxyAgentDetailStatus,
    pub proxyConnectionsCount: u128,
}

/// Telemetry about the connections one user made through the proxy.
///
/// A copyable value type: a clone is equal in every field and shares no
/// storage with the source. The port can never hold a value outside
/// 0..=65535: its type rejects that at construction.
#[allow(non_snake_case)]
pub struct ProxyConnectionSummary {
    pub userName: String,
    pub ip: String,
    pub port: u16,
    pub processCmdLine: String,
    pub responseStatus: String,
    pub count: u64,
    pub userGroups: Option<Vec<String>>,
    pub processFullPath: Option<String>,
}

/// The top-level snapshot handed to the external consumer.
#[allow(non_snake_case)]
pub struct GuestProxyAgentAggregateStatus {
    pub timestamp: String,
    pub proxyAgentStatus: ProxyAgentStatus,
    pub proxyConnectionSummary: Vec<ProxyConnectionSummary>,
    pub failedAuthenticateSummary: Vec<ProxyConnectionSummary>,
}

/// Field-for-field equality of two connection summaries, comparing the text
/// fields by contents.
pub open spec fn summary_eq(a: ProxyConnectionSummary, b: ProxyConnectionSummary) -> bool {
    &&& a.userName@ == b.userName@
    &&& a.ip@ == b.ip@
    &&& a.port == b.port
    &&& a.processCmdLine@ == b.processCmdLine@
    &&& a.responseStatus@ == b.responseStatus@
    &&& a.count == b.count
    &&& a.userGroups.deep_view() == b.userGroups.deep_view()
    &&& a.processFullPath.deep_view() == b.processFullPath.deep_view()
}

fn clone_string_vec(v: &Vec<String>) -> (r: Vec<String>)
    ensures
        r.deep_view() == v.deep_view(),
{
    let mut r: Vec<String> = Vec::new();
    let mut i: usize = 0;
    while i < v.len()
        invariant
            i <= v.len(),
            r.deep_view().len() == i,
            forall|j: int| 0 <= j < i ==> r.deep_view()[j] == v.deep_view()[j],
        decreases v.len() - i,
    {
        r.push(v[i].clone());
        i = i + 1;
    }
    proof {
        assert(r.deep_view() =~= v.deep_view());
    }
    r
}

impl Clone for ProxyConnectionSummary {
    /// An independent copy, equal to the source in every field.
    fn clone(&self) -> (r: Self)
        ensures
            summary_eq(r, *self),
    {
        ProxyConnectionSummary {
            userName: self.userName.clone(),
            userGroups: match &self.userGroups {
                Some(groups) => Some(clone_string_vec(groups)),
                None => None,
            },
            ip: self.ip.clone(),
            port: self.port,
            processFullPath: match &self.processFullPath {
                Some(path) => Some(path.clone()),
                None => None,
            },
            processCmdLine: self.processCmdLine.clone(),
            responseStatus: self.responseStatus.clone(),
            count: self.count,
        }
    }
}

} // verus!
