#![allow(non_snake_case)]

use proxy_agent_core::status::GuestProxyAgentAggregateStatus;
use proxy_agent_core::status::ModuleState;
use proxy_agent_core::status::OverallState;
use proxy_agent_core::status::ProxyAgentDetailStatus;
use proxy_agent_core::status::ProxyAgentStatus;
use proxy_agent_core::status::ProxyConnectionSummary;

fn sample_summary() -> ProxyConnectionSummary {
    ProxyConnectionSummary {
        userName: "guest".to_string(),
        ip: "10.0.0.4".to_string(),
        port: 65535,
        processCmdLine: "/usr/bin/agent --run".to_string(),
        responseStatus: "200 OK".to_string(),
        count: 7,
        userGroups: Some(vec!["adm".to_string(), "dev".to_string()]),
        processFullPath: Some("/usr/bin/agent".to_string()),
    }
}

#[test]
fn summary_clone_is_equal_in_every_field() {
    let original = sample_summary();
    let copy = original.clone();
    assert_eq!(copy.userName, original.userName);
    assert_eq!(copy.ip, original.ip);
    assert_eq!(copy.port, original.port);
    assert_eq!(copy.processCmdLine, original.processCmdLine);
    assert_eq!(copy.responseStatus, original.responseStatus);
    assert_eq!(copy.count, original.count);
    assert_eq!(copy.userGroups, original.userGroups);
    assert_eq!(copy.processFullPath, original.processFullPath);
}

#[test]
fn summary_clone_shares_no_storage() {
    let original = sample_summary();
    let mut copy = original.clone();
    copy.count = 1000;
    copy.userGroups = None;
    assert_eq!(original.count, 7);
    assert_eq!(
        original.userGroups,
        Some(vec!["adm".to_string(), "dev".to_string()])
    );
}

#[test]
fn port_covers_the_full_sixteen_bit_range() {
    let mut s = sample_summary();
    s.port = 0;
    assert_eq!(s.port, 0);
    s.port = 65535;
    assert_eq!(s.port, 65535);
}

#[test]
fn aggregate_status_builds_by_assignment() {
    let detail = |state: ModuleState, msg: &str| ProxyAgentDetailStatus {
        status: state,
        message: msg.to_string(),
        states: None,
    };
    let agg = GuestProxyAgentAggregateStatus {
        timestamp: "2024-01-01T00:00:00Z".to_string(),
        proxyAgentStatus: ProxyAgentStatus {
            version: "1.0.0".to_string(),
            status: OverallState::SUCCESS,
            monitorStatus: detail(ModuleState::RUNNING, "ok"),
            keyLatchStatus: detail(ModuleState::RUNNING, "ok"),
            ebpfProgramStatus: detail(ModuleState::STOPPED, "halted"),
            proxyListenerStatus: detail(ModuleState::RUNNING, "ok"),
            telemetryLoggerStatus: detail(ModuleState::UNKNOWN, ""),
            proxyConnectionsCount: 340282366920938463463374607431768211455,
        },
        proxyConnectionSummary: vec![sample_summary()],
        failedAuthenticateSummary: vec![],
    };
    assert_eq!(agg.proxyAgentStatus.status, OverallState::SUCCESS);
    assert_eq!(
        agg.proxyAgentStatus.proxyConnectionsCount,
        340282366920938463463374607431768211455
    );
    assert_eq!(agg.proxyConnectionSummary.len(), 1);
    assert_eq!(agg.failedAuthenticateSummary.len(), 0);
}
