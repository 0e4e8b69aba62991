use health_monitor::config::Config;
use health_monitor::models::service::{CheckConfig, CheckType, Service};
use health_monitor::monitor::dns_check::DnsOutcome;
use health_monitor::monitor::http_check::HttpOutcome;
use health_monitor::monitor::ssl_check::{TlsOutcome, TlsRequest};
use health_monitor::monitor::tcp_check::{TcpOutcome, TcpRequest};
use health_monitor::monitor::{
    dns_check, http_check, plan, ssl_check, start_monitoring, step, step_at, tcp_check, Action,
    Event, ProbeRequest, ProbeResult, Task,
};
use health_monitor::state::model::HealthStatus;
use health_monitor::state::store::AppState;

fn s(text: &str) -> String {
    text.to_string()
}

fn cfg(check_type: CheckType, interval_seconds: u64, timeout_ms: u64) -> CheckConfig {
    CheckConfig { check_type, interval_seconds, timeout_ms }
}

fn service(name: &str, url: &str, checks: Vec<CheckConfig>) -> Service {
    Service { name: s(name), url: s(url), checks }
}

#[test]
fn labels_of_the_check_types() {
    assert_eq!(CheckType::Http.label(), "HTTP");
    assert_eq!(CheckType::Tcp.label(), "TCP");
    assert_eq!(CheckType::Dns.label(), "DNS");
    assert_eq!(CheckType::Tls.label(), "TLS");
}

#[test]
fn http_succeeds_on_2xx_only() {
    for (code, success) in [
        (100u16, false),
        (199, false),
        (200, true),
        (204, true),
        (299, true),
        (300, false),
        (301, false),
        (404, false),
        (500, false),
        (0, false),
        (65535, false),
    ] {
        let r = http_check::run(HttpOutcome::Status(code), 12);
        assert_eq!(r.success, success);
        assert_eq!(r.message, format!("HTTP {}", code));
        assert_eq!(r.elapsed_ms, 12);
    }
}

#[test]
fn http_transport_error_is_a_failure_with_its_text() {
    let r = http_check::run(HttpOutcome::TransportError(s("connection reset")), 3000);
    assert!(!r.success);
    assert_eq!(r.message, "connection reset");
    assert_eq!(r.elapsed_ms, 3000);
}

#[test]
fn http_request_takes_the_url_as_it_is() {
    let svc = service("a", "https://example.com:8443/health", vec![]);
    let r = http_check::request(&svc, &cfg(CheckType::Http, 1, 2500));
    assert_eq!(r.url, "https://example.com:8443/health");
    assert_eq!(r.timeout_ms, 2500);
}

#[test]
fn tcp_request_defaults_to_port_80() {
    let r = tcp_check::request(&service("a", "tcp://db.internal/x", vec![]), &cfg(CheckType::Tcp, 1, 700));
    assert_eq!((r.host.as_str(), r.port, r.timeout_ms), ("db.internal", 80, 700));
    let r = tcp_check::request(&service("a", "db.internal:5432", vec![]), &cfg(CheckType::Tcp, 1, 700));
    assert_eq!((r.host.as_str(), r.port), ("db.internal", 5432));
    assert_eq!(tcp_check::DEFAULT_PORT, 80);
}

#[test]
fn tcp_outcomes() {
    let request = TcpRequest { host: s("db"), port: 5432, timeout_ms: 1500 };
    let r = tcp_check::run(&request, TcpOutcome::Connected, 4);
    assert!(r.success);
    assert_eq!(r.message, "Connected to db:5432");
    assert_eq!(r.elapsed_ms, 4);
    let r = tcp_check::run(&request, TcpOutcome::Failed(s("connection refused")), 5);
    assert!(!r.success);
    assert_eq!(r.message, "Connection to db:5432 failed: connection refused");
    let r = tcp_check::run(&request, TcpOutcome::TimedOut, 1500);
    assert!(!r.success);
    assert_eq!(r.message, "Connection to db:5432 timed out after 1500 ms");
    assert_eq!(r.elapsed_ms, 1500);
}

#[test]
fn dns_request_is_the_bare_host() {
    assert_eq!(dns_check::request(&service("a", "https://example.com:8443/path", vec![])).host, "example.com");
    assert_eq!(dns_check::request(&service("a", "[::1]:53", vec![])).host, "::1");
}

#[test]
fn dns_outcomes() {
    let r = dns_check::run(DnsOutcome::Resolved(vec![s("10.0.0.1"), s("::1")]), 9);
    assert!(r.success);
    assert_eq!(r.message, "Resolved to: 10.0.0.1, ::1");
    assert_eq!(r.elapsed_ms, 9);
    let r = dns_check::run(DnsOutcome::Resolved(vec![s("10.0.0.1")]), 9);
    assert!(r.success);
    assert_eq!(r.message, "Resolved to: 10.0.0.1");
    let r = dns_check::run(DnsOutcome::Resolved(vec![]), 9);
    assert!(!r.success);
    assert_eq!(r.message, "Resolved to: ");
    let r = dns_check::run(DnsOutcome::Failed(s("no record found")), 2);
    assert!(!r.success);
    assert_eq!(r.message, "Error: no record found");
}

#[test]
fn tls_request_defaults_to_port_443() {
    let r = ssl_check::request(&service("a", "https://example.com/x", vec![]), &cfg(CheckType::Tls, 1, 900));
    assert_eq!((r.host.as_str(), r.port, r.timeout_ms), ("example.com", 443, 900));
    let r = ssl_check::request(&service("a", "example.com:8443", vec![]), &cfg(CheckType::Tls, 1, 900));
    assert_eq!((r.host.as_str(), r.port), ("example.com", 8443));
    assert_eq!(ssl_check::DEFAULT_PORT, 443);
}

#[test]
fn tls_outcomes_are_told_apart() {
    let request = TlsRequest { host: s("example.com"), port: 443, timeout_ms: 2000 };
    let r = ssl_check::run(&request, TlsOutcome::Established, 80);
    assert!(r.success);
    assert_eq!(r.message, "TLS handshake completed with example.com:443");
    assert_eq!(r.elapsed_ms, 80);
    let r = ssl_check::run(&request, TlsOutcome::ConnectFailed(s("refused")), 1);
    assert!(!r.success);
    assert_eq!(r.message, "Connection to example.com:443 failed: refused");
    let r = ssl_check::run(&request, TlsOutcome::ConnectTimedOut, 2000);
    assert!(!r.success);
    assert_eq!(r.message, "Connection to example.com:443 timed out after 2000 ms");
    let r = ssl_check::run(&request, TlsOutcome::HandshakeFailed(s("certificate expired")), 33);
    assert!(!r.success);
    assert_eq!(r.message, "TLS handshake with example.com:443 failed: certificate expired");
}

#[test]
fn plan_dispatches_on_the_check_type() {
    let svc = service("a", "https://example.com:8443/path", vec![]);
    match plan(&svc, &cfg(CheckType::Http, 1, 10)) {
        ProbeRequest::Http(r) => assert_eq!((r.url.as_str(), r.timeout_ms), ("https://example.com:8443/path", 10)),
        other => panic!("{:?}", other),
    }
    match plan(&svc, &cfg(CheckType::Tcp, 1, 11)) {
        ProbeRequest::Tcp(r) => assert_eq!((r.host.as_str(), r.port, r.timeout_ms), ("example.com", 8443, 11)),
        other => panic!("{:?}", other),
    }
    match plan(&svc, &cfg(CheckType::Dns, 1, 12)) {
        ProbeRequest::Dns(r) => assert_eq!(r.host, "example.com"),
        other => panic!("{:?}", other),
    }
    match plan(&svc, &cfg(CheckType::Tls, 1, 13)) {
        ProbeRequest::Tls(r) => assert_eq!((r.host.as_str(), r.port, r.timeout_ms), ("example.com", 8443, 13)),
        other => panic!("{:?}", other),
    }
    let bare = service("b", "example.org", vec![]);
    match plan(&bare, &cfg(CheckType::Tcp, 1, 1)) {
        ProbeRequest::Tcp(r) => assert_eq!(r.port, 80),
        other => panic!("{:?}", other),
    }
    match plan(&bare, &cfg(CheckType::Tls, 1, 1)) {
        ProbeRequest::Tls(r) => assert_eq!(r.port, 443),
        other => panic!("{:?}", other),
    }
}

#[test]
fn one_task_for_every_check_of_every_service() {
    let config = Config {
        services: vec![
            service("a", "a", vec![cfg(CheckType::Http, 1, 1), cfg(CheckType::Tcp, 1, 1)]),
            service("b", "b", vec![]),
            service("c", "c", vec![cfg(CheckType::Dns, 1, 1)]),
            service("d", "d", vec![cfg(CheckType::Tls, 1, 1), cfg(CheckType::Http, 1, 1), cfg(CheckType::Dns, 1, 1)]),
        ],
    };
    let tasks = start_monitoring(&config);
    let expected: Vec<Task> = [(0, 0), (0, 1), (2, 0), (3, 0), (3, 1), (3, 2)]
        .iter()
        .map(|&(service, check)| Task { service, check })
        .collect();
    assert_eq!(tasks, expected);
    assert!(start_monitoring(&Config { services: vec![] }).is_empty());
    assert!(start_monitoring(&Config { services: vec![service("x", "x", vec![])] }).is_empty());
}

#[test]
fn many_services_get_a_task_each() {
    let services: Vec<Service> =
        (0..500).map(|i| service(&format!("s{}", i), "u", vec![cfg(CheckType::Tcp, 1, 1)])).collect();
    let tasks = start_monitoring(&Config { services });
    assert_eq!(tasks.len(), 500);
    for (i, task) in tasks.iter().enumerate() {
        assert_eq!(*task, Task { service: i, check: 0 });
    }
}

#[test]
fn a_loop_probes_records_and_sleeps() {
    let svc = service("api", "http://api.example/health", vec![cfg(CheckType::Http, 1, 2000)]);
    let check = svc.checks[0];
    let mut state = AppState::new();
    let action = step_at(&mut state, &svc, &check, Event::Started, 0);
    match action {
        Action::Probe(ProbeRequest::Http(r)) => {
            assert_eq!(r.url, "http://api.example/health");
            assert_eq!(r.timeout_ms, 2000);
        },
        other => panic!("{:?}", other),
    }
    assert!(state.get_all_services().is_empty());
    let codes = [200u16, 200, 200, 503];
    for (i, code) in codes.iter().enumerate() {
        let result = http_check::run(HttpOutcome::Status(*code), 20 + i as u64);
        match step_at(&mut state, &svc, &check, Event::ProbeFinished(result), 1000 + i as i64) {
            Action::Sleep(seconds) => assert_eq!(seconds, 1),
            other => panic!("{:?}", other),
        }
        match step_at(&mut state, &svc, &check, Event::Woke, 1000 + i as i64) {
            Action::Probe(ProbeRequest::Http(_)) => {},
            other => panic!("{:?}", other),
        }
    }
    let all = state.get_all_services();
    assert_eq!(all.len(), 1);
    let summary = &all[0];
    assert_eq!(summary.name, "api");
    assert_eq!(summary.url, "http://api.example/health");
    assert_eq!(summary.total_checks, 4);
    assert_eq!(summary.successful_checks, 3);
    assert_eq!(summary.uptime_basis_points as f64 / 100.0, 75.0);
    assert_eq!(summary.status, HealthStatus::Down);
    assert!(summary.message.contains("HTTP 503"));
    assert_eq!(summary.message, "HTTP: HTTP 503");
    assert_eq!(summary.last_check_time, 1003);
    assert_eq!(summary.response_time_ms, Some(23));
    assert_eq!(summary.checks[0].check_type, "HTTP");
    assert_eq!(summary.checks[0].interval_seconds, 1);
}

#[test]
fn a_loop_with_the_clock() {
    let svc = service("db", "db:5432", vec![cfg(CheckType::Tcp, 30, 500)]);
    let check = svc.checks[0];
    let mut state = AppState::new();
    match step(&mut state, &svc, &check, Event::Started) {
        Action::Probe(ProbeRequest::Tcp(r)) => assert_eq!((r.host.as_str(), r.port), ("db", 5432)),
        other => panic!("{:?}", other),
    }
    let result = ProbeResult { success: true, elapsed_ms: 3, message: s("Connected to db:5432") };
    match step(&mut state, &svc, &check, Event::ProbeFinished(result)) {
        Action::Sleep(seconds) => assert_eq!(seconds, 30),
        other => panic!("{:?}", other),
    }
    let all = state.get_all_services();
    assert_eq!(all[0].checks[0].check_type, "TCP");
    assert_eq!(all[0].status, HealthStatus::Up);
    assert!(all[0].last_check_time > 1_600_000_000_000);
}

#[test]
fn loops_of_two_checks_share_one_summary() {
    let svc = service(
        "web",
        "https://web.example",
        vec![cfg(CheckType::Tls, 10, 500), cfg(CheckType::Dns, 20, 500)],
    );
    let mut state = AppState::new();
    for round in 0..3 {
        let down = ssl_check::run(
            &TlsRequest { host: s("web.example"), port: 443, timeout_ms: 500 },
            TlsOutcome::HandshakeFailed(s("bad certificate")),
            40,
        );
        step_at(&mut state, &svc, &svc.checks[0], Event::ProbeFinished(down), round);
        let up = dns_check::run(DnsOutcome::Resolved(vec![s("192.0.2.1")]), 20);
        step_at(&mut state, &svc, &svc.checks[1], Event::ProbeFinished(up), round);
    }
    let all = state.get_all_services();
    assert_eq!(all.len(), 1);
    assert_eq!(all[0].status, HealthStatus::Down);
    assert_eq!(all[0].message, "TLS: TLS handshake with web.example:443 failed: bad certificate");
    assert_eq!(all[0].total_checks, 6);
    assert_eq!(all[0].successful_checks, 3);
    assert_eq!(all[0].response_time_ms, Some(30));
}
