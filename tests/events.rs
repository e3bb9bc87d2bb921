use cargo_msrv::config::{Action, Config};
use cargo_msrv::event::{
    CheckToolchain, Compatibility, CompatibilityReport, Event, EventScope, Message, Method,
    MsrvResult,
};
use cargo_msrv::reporter::EventLog;
use cargo_msrv::search::SearchMethod;
use cargo_msrv::toolchain::OwnedToolchainSpec;
use cargo_msrv::version::{BareVersion, Version};

#[test]
fn reported_event() {
    let mut reporter = EventLog::new();
    let event = CheckToolchain::new(OwnedToolchainSpec::new(
        &Version::new(1, 2, 3),
        "test_target",
    ));

    reporter.report_event(Event::new(Message::CheckToolchain(event.clone())));

    assert_eq!(
        reporter.events(),
        &vec![Event::new(Message::CheckToolchain(event))]
    );
}

#[test]
fn reported_msrv_determined_event() {
    let mut reporter = EventLog::new();
    let config = Config::new(Action::Find, "".to_string());
    let version = Version::new(1, 3, 0);
    let min = BareVersion::TwoComponents(1, 0);
    let max = BareVersion::ThreeComponents(1, 4, 0);

    let event = MsrvResult::new_msrv(version, &config, min, max);

    reporter.report_event(Event::new(Message::MsrvResult(event.clone())));

    let events = reporter.events();
    assert_eq!(events, &vec![Event::new(Message::MsrvResult(event))]);

    let inner = &events[0].message;
    if let Message::MsrvResult(res) = inner {
        assert_eq!(res.msrv(), Some(&Version::new(1, 3, 0)));
    }
}

#[test]
fn reported_msrv_undetermined_event() {
    let mut reporter = EventLog::new();
    let config = Config::new(Action::Find, "".to_string());
    let min = BareVersion::TwoComponents(1, 0);
    let max = BareVersion::ThreeComponents(1, 4, 0);

    let event = MsrvResult::none(&config, min, max);

    reporter.report_event(Event::new(Message::MsrvResult(event.clone())));

    let events = reporter.events();
    assert_eq!(events, &vec![Event::new(Message::MsrvResult(event))]);

    let inner = &events[0].message;
    if let Message::MsrvResult(res) = inner {
        assert_eq!(res.msrv(), None);
    }
}

#[test]
fn msrv_result_prefers_configured_bounds() {
    let mut config = Config::new(Action::Find, "x86_64-unknown-linux-gnu".to_string());
    config.minimum_version = Some(BareVersion::TwoComponents(1, 50));
    let r = MsrvResult::new_msrv(
        Version::new(1, 55, 0),
        &config,
        BareVersion::ThreeComponents(1, 40, 0),
        BareVersion::ThreeComponents(1, 60, 0),
    );
    assert_eq!(r.minimum_version, BareVersion::TwoComponents(1, 50));
    assert_eq!(r.maximum_version, BareVersion::ThreeComponents(1, 60, 0));
    assert_eq!(r.target, "x86_64-unknown-linux-gnu");
    assert_eq!(r.search_method, SearchMethod::Bisect);
    assert!(r.success());
    assert!(!MsrvResult::none(
        &config,
        BareVersion::TwoComponents(1, 0),
        BareVersion::TwoComponents(1, 1)
    )
    .success());
}

#[test]
fn event_log_keeps_publication_order() {
    let mut log = EventLog::new();
    let t = OwnedToolchainSpec::new(&Version::new(1, 58, 0), "t");
    log.start_scope(Message::CheckToolchain(CheckToolchain::new(t.clone())));
    log.report_event(Event::new(Message::Compatibility(Compatibility::compatible(t.clone()))));
    log.end_scope(Message::CheckToolchain(CheckToolchain::new(t.clone())));
    let events = log.events();
    assert_eq!(events.len(), 3);
    assert_eq!(events[0].scope, Some(EventScope::Start));
    assert!(events[0].is_scope_start());
    assert!(events[1].is_scope_start());
    assert!(!events[2].is_scope_start());
    assert_eq!(events[0].message, events[2].message);
    assert_eq!(log.len(), 3);
}

#[test]
fn compatibility_reports() {
    let t = OwnedToolchainSpec::new(&Version::new(1, 2, 3), "t");
    let c = Compatibility::compatible(t.clone());
    assert!(c.decision);
    assert_eq!(c.compatibility_report, CompatibilityReport::Compatible);
    let i = Compatibility::incompatible(t, Some("boom".to_string()));
    assert!(!i.decision);
    assert_eq!(
        i.compatibility_report,
        CompatibilityReport::Incompatible { error: Some("boom".to_string()) }
    );
}

#[test]
fn rustup_run_method_holds_its_arguments() {
    let m = Method::rustup_run(vec!["cargo".to_string(), "check".to_string()], None);
    assert_eq!(
        m,
        Method::RustupRun { args: vec!["cargo".to_string(), "check".to_string()], path: None }
    );
}

#[test]
fn conversions() {
    let m = Message::CheckToolchain(CheckToolchain::new(OwnedToolchainSpec::new(
        &Version::new(1, 0, 0),
        "t",
    )));
    let e: Event = m.clone().into();
    assert_eq!(e, Event::new(m));
    assert_eq!(e.scope(), None);
    let err: cargo_msrv::errors::CargoMSRVError = "oops".to_string().into();
    assert_eq!(err, cargo_msrv::errors::CargoMSRVError::GenericMessage("oops".to_string()));
}
