#![allow(non_snake_case)]

use proxy_agent_core::json::from_json;
use proxy_agent_core::json::to_json;
use proxy_agent_core::status::GuestProxyAgentAggregateStatus;
use proxy_agent_core::status::ModuleState;
use proxy_agent_core::status::OverallState;
use proxy_agent_core::status::ProxyAgentDetailStatus;
use proxy_agent_core::status::ProxyAgentStatus;
use proxy_agent_core::status::ProxyConnectionSummary;

fn detail(state: ModuleState, msg: &str, states: Option<Vec<(String, String)>>) -> ProxyAgentDetailStatus {
    ProxyAgentDetailStatus {
        status: state,
        message: msg.to_string(),
        states,
    }
}

fn agent() -> ProxyAgentStatus {
    ProxyAgentStatus {
        version: "1.0.23".to_string(),
        status: OverallState::SUCCESS,
        monitorStatus: detail(ModuleState::RUNNING, "ok", None),
        keyLatchStatus: detail(
            ModuleState::RUNNING,
            "latched",
            Some(vec![
                ("secureChannelState".to_string(), "WireServer enforce".to_string()),
                ("keyGuid".to_string(), "0a-1b".to_string()),
            ]),
        ),
        ebpfProgramStatus: detail(ModuleState::STOPPED, "halted \"hard\"", None),
        proxyListenerStatus: detail(ModuleState::RUNNING, "listening on 127.0.0.1:3080", None),
        telemetryLoggerStatus: detail(ModuleState::UNKNOWN, "", Some(vec![])),
        proxyConnectionsCount: 340282366920938463463374607431768211455,
    }
}

fn summary_full() -> ProxyConnectionSummary {
    ProxyConnectionSummary {
        userName: "guest\\one".to_string(),
        ip: "10.0.0.4".to_string(),
        port: 65535,
        processCmdLine: "agent --flag\nnext".to_string(),
        responseStatus: "200 OK".to_string(),
        count: 18446744073709551615,
        userGroups: Some(vec!["adm".to_string(), "dev".to_string()]),
        processFullPath: Some("/usr/bin/agent".to_string()),
    }
}

fn summary_nulls() -> ProxyConnectionSummary {
    ProxyConnectionSummary {
        userName: "".to_string(),
        ip: "::1".to_string(),
        port: 0,
        processCmdLine: "".to_string(),
        responseStatus: "403".to_string(),
        count: 0,
        userGroups: None,
        processFullPath: None,
    }
}

fn assert_same_detail(a: &ProxyAgentDetailStatus, b: &ProxyAgentDetailStatus) {
    assert_eq!(a.status, b.status);
    assert_eq!(a.message, b.message);
    assert_eq!(a.states, b.states);
}

fn assert_same_summary(a: &ProxyConnectionSummary, b: &ProxyConnectionSummary) {
    assert_eq!(a.userName, b.userName);
    assert_eq!(a.ip, b.ip);
    assert_eq!(a.port, b.port);
    assert_eq!(a.processCmdLine, b.processCmdLine);
    assert_eq!(a.responseStatus, b.responseStatus);
    assert_eq!(a.count, b.count);
    assert_eq!(a.userGroups, b.userGroups);
    assert_eq!(a.processFullPath, b.processFullPath);
}

fn assert_same_aggregate(a: &GuestProxyAgentAggregateStatus, b: &GuestProxyAgentAggregateStatus) {
    assert_eq!(a.timestamp, b.timestamp);
    assert_eq!(a.proxyAgentStatus.version, b.proxyAgentStatus.version);
    assert_eq!(a.proxyAgentStatus.status, b.proxyAgentStatus.status);
    assert_same_detail(&a.proxyAgentStatus.monitorStatus, &b.proxyAgentStatus.monitorStatus);
    assert_same_detail(&a.proxyAgentStatus.keyLatchStatus, &b.proxyAgentStatus.keyLatchStatus);
    assert_same_detail(
        &a.proxyAgentStatus.ebpfProgramStatus,
        &b.proxyAgentStatus.ebpfProgramStatus,
    );
    assert_same_detail(
        &a.proxyAgentStatus.proxyListenerStatus,
        &b.proxyAgentStatus.proxyListenerStatus,
    );
    assert_same_detail(
        &a.proxyAgentStatus.telemetryLoggerStatus,
        &b.proxyAgentStatus.telemetryLoggerStatus,
    );
    assert_eq!(
        a.proxyAgentStatus.proxyConnectionsCount,
        b.proxyAgentStatus.proxyConnectionsCount
    );
    assert_eq!(a.proxyConnectionSummary.len(), b.proxyConnectionSummary.len());
    for k in 0..a.proxyConnectionSummary.len() {
        assert_same_summary(&a.proxyConnectionSummary[k], &b.proxyConnectionSummary[k]);
    }
    assert_eq!(a.failedAuthenticateSummary.len(), b.failedAuthenticateSummary.len());
    for k in 0..a.failedAuthenticateSummary.len() {
        assert_same_summary(&a.failedAuthenticateSummary[k], &b.failedAuthenticateSummary[k]);
    }
}

#[test]
fn round_trip_reproduces_the_snapshot() {
    let v = GuestProxyAgentAggregateStatus {
        timestamp: "2024-09-03T12:00:00Z".to_string(),
        proxyAgentStatus: agent(),
        proxyConnectionSummary: vec![summary_full(), summary_nulls()],
        failedAuthenticateSummary: vec![summary_nulls()],
    };
    let text = to_json(&v);
    let back = from_json(text.as_str()).expect("written snapshot must read back");
    assert_same_aggregate(&back, &v);
}

#[test]
fn round_trip_of_the_empty_snapshot() {
    let v = GuestProxyAgentAggregateStatus {
        timestamp: "".to_string(),
        proxyAgentStatus: ProxyAgentStatus {
            version: "".to_string(),
            status: OverallState::UNKNOWN,
            monitorStatus: detail(ModuleState::UNKNOWN, "", None),
            keyLatchStatus: detail(ModuleState::UNKNOWN, "", None),
            ebpfProgramStatus: detail(ModuleState::UNKNOWN, "", None),
            proxyListenerStatus: detail(ModuleState::UNKNOWN, "", None),
            telemetryLoggerStatus: detail(ModuleState::UNKNOWN, "", None),
            proxyConnectionsCount: 0,
        },
        proxyConnectionSummary: vec![],
        failedAuthenticateSummary: vec![],
    };
    let text = to_json(&v);
    let back = from_json(text.as_str()).expect("empty snapshot must read back");
    assert_same_aggregate(&back, &v);
}

#[test]
fn serialized_shape_is_the_agreed_one() {
    let v = GuestProxyAgentAggregateStatus {
        timestamp: "t".to_string(),
        proxyAgentStatus: ProxyAgentStatus {
            version: "1".to_string(),
            status: OverallState::ERROR,
            monitorStatus: detail(ModuleState::RUNNING, "m", None),
            keyLatchStatus: detail(
                ModuleState::STOPPED,
                "k",
                Some(vec![("a".to_string(), "b".to_string())]),
            ),
            ebpfProgramStatus: detail(ModuleState::UNKNOWN, "", None),
            proxyListenerStatus: detail(ModuleState::RUNNING, "l", None),
            telemetryLoggerStatus: detail(ModuleState::RUNNING, "t", None),
            proxyConnectionsCount: 12,
        },
        proxyConnectionSummary: vec![summary_nulls()],
        failedAuthenticateSummary: vec![],
    };
    let expected = "{\"timestamp\":\"t\",\"proxyAgentStatus\":{\"version\":\"1\",\"status\":\"ERROR\",\"monitorStatus\":{\"status\":\"RUNNING\",\"message\":\"m\"},\"keyLatchStatus\":{\"status\":\"STOPPED\",\"message\":\"k\",\"states\":{\"a\":\"b\"}},\"ebpfProgramStatus\":{\"status\":\"UNKNOWN\",\"message\":\"\"},\"proxyListenerStatus\":{\"status\":\"RUNNING\",\"message\":\"l\"},\"telemetryLoggerStatus\":{\"status\":\"RUNNING\",\"message\":\"t\"},\"proxyConnectionsCount\":12},\"proxyConnectionSummary\":[{\"userName\":\"\",\"ip\":\"::1\",\"port\":0,\"processCmdLine\":\"\",\"responseStatus\":\"403\",\"count\":0,\"userGroups\":null,\"processFullPath\":null}],\"failedAuthenticateSummary\":[]}";
    assert_eq!(to_json(&v), expected);
}

#[test]
fn absent_states_is_omitted_and_absent_groups_is_null() {
    let v = GuestProxyAgentAggregateStatus {
        timestamp: "t".to_string(),
        proxyAgentStatus: ProxyAgentStatus {
            version: "1".to_string(),
            status: OverallState::SUCCESS,
            monitorStatus: detail(ModuleState::RUNNING, "m", None),
            keyLatchStatus: detail(ModuleState::RUNNING, "k", None),
            ebpfProgramStatus: detail(ModuleState::RUNNING, "e", None),
            proxyListenerStatus: detail(ModuleState::RUNNING, "p", None),
            telemetryLoggerStatus: detail(ModuleState::RUNNING, "l", None),
            proxyConnectionsCount: 1,
        },
        proxyConnectionSummary: vec![summary_nulls()],
        failedAuthenticateSummary: vec![],
    };
    let text = to_json(&v);
    assert!(!text.contains("\"states\""));
    assert!(text.contains("\"userGroups\":null"));
    assert!(text.contains("\"processFullPath\":null"));
    let back = from_json(text.as_str()).unwrap();
    assert!(back.proxyAgentStatus.monitorStatus.states.is_none());
    assert!(back.proxyConnectionSummary[0].userGroups.is_none());
    assert!(back.proxyConnectionSummary[0].processFullPath.is_none());
}

#[test]
fn escapes_round_trip_and_render_as_agreed() {
    let v = GuestProxyAgentAggregateStatus {
        timestamp: "quote \" backslash \\ newline \n tab \t".to_string(),
        proxyAgentStatus: ProxyAgentStatus {
            version: "".to_string(),
            status: OverallState::UNKNOWN,
            monitorStatus: detail(ModuleState::UNKNOWN, "", None),
            keyLatchStatus: detail(ModuleState::UNKNOWN, "", None),
            ebpfProgramStatus: detail(ModuleState::UNKNOWN, "", None),
            proxyListenerStatus: detail(ModuleState::UNKNOWN, "", None),
            telemetryLoggerStatus: detail(ModuleState::UNKNOWN, "", None),
            proxyConnectionsCount: 0,
        },
        proxyConnectionSummary: vec![],
        failedAuthenticateSummary: vec![],
    };
    let text = to_json(&v);
    assert!(text.starts_with(
        "{\"timestamp\":\"quote \\\" backslash \\\\ newline \\u000a tab \\u0009\""
    ));
    let back = from_json(text.as_str()).unwrap();
    assert_eq!(back.timestamp, v.timestamp);
}

#[test]
fn reader_rejects_what_the_writer_never_makes() {
    assert!(from_json("").is_none());
    assert!(from_json("{}").is_none());
    assert!(from_json("{\"timestamp\":\"t\"}").is_none());
    let v = GuestProxyAgentAggregateStatus {
        timestamp: "t".to_string(),
        proxyAgentStatus: ProxyAgentStatus {
            version: "1".to_string(),
            status: OverallState::SUCCESS,
            monitorStatus: detail(ModuleState::RUNNING, "m", None),
            keyLatchStatus: detail(ModuleState::RUNNING, "k", None),
            ebpfProgramStatus: detail(ModuleState::RUNNING, "e", None),
            proxyListenerStatus: detail(ModuleState::RUNNING, "p", None),
            telemetryLoggerStatus: detail(ModuleState::RUNNING, "l", None),
            proxyConnectionsCount: 1,
        },
        proxyConnectionSummary: vec![],
        failedAuthenticateSummary: vec![],
    };
    let mut text = to_json(&v);
    text.push(' ');
    assert!(from_json(text.as_str()).is_none());
}
