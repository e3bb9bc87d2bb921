use cargo_msrv::check::{Probe, ProbeAction, RustupToolchainCheck, StepReport};
use cargo_msrv::config::{Action, Config};
use cargo_msrv::errors::CargoMSRVError;
use cargo_msrv::event::{CompatibilityReport, EventScope, Message, ResultDetails};
use cargo_msrv::find::{Find, Write};
use cargo_msrv::reporter::EventLog;
use cargo_msrv::search::{search_with_answers, SearchMethod, Searcher};
use cargo_msrv::toolchain::OwnedToolchainSpec;
use cargo_msrv::version::Version;

fn v(major: u64, minor: u64, patch: u64) -> Version {
    Version::new(major, minor, patch)
}

fn slice() -> Vec<Version> {
    vec![v(1, 60, 0), v(1, 59, 0), v(1, 58, 0), v(1, 57, 0), v(1, 56, 0)]
}

/// Runs a session to its end, answering each action; the check passes when
/// `compatible` says so. Returns the versions whose check ran, in order.
fn drive(find: &mut Find, compatible: &dyn Fn(&Version) -> bool, lockfile: bool) -> Vec<Version> {
    let mut ran = Vec::new();
    loop {
        let report = match find.next_action() {
            ProbeAction::Done => break,
            ProbeAction::MoveLockfile => {
                if lockfile {
                    StepReport::Completed
                } else {
                    StepReport::LockfileAbsent
                }
            }
            ProbeAction::Install(_) => StepReport::Completed,
            ProbeAction::RemoveLockfile => StepReport::Completed,
            ProbeAction::RunCheck { args, .. } => {
                let version = find
                    .releases()
                    .iter()
                    .find(|r| args[0].starts_with(&format!("{}-", r.to_text())))
                    .copied()
                    .unwrap();
                ran.push(version);
                StepReport::CheckExited {
                    success: compatible(&version),
                    stderr: "error[E0658]".to_string(),
                }
            }
            ProbeAction::RestoreLockfile => StepReport::Completed,
        };
        find.advance(report);
    }
    ran
}

fn config(method: SearchMethod) -> Config {
    let mut c = Config::new(Action::Find, "x86_64-unknown-linux-gnu".to_string());
    c.search_method = method;
    c.include_all_patch_releases = true;
    c
}

#[test]
fn linear_find_middle_hit() {
    let answers = vec![true, true, true, false, false];
    let (found, probes) = search_with_answers(SearchMethod::Linear, &answers);
    assert_eq!(found, Some(2));
    assert_eq!(probes, vec![4, 3, 2]);

    let mut find = Find::new(&config(SearchMethod::Linear), &slice());
    let ran = drive(&mut find, &|r| v(1, 58, 0).le(r), false);
    assert_eq!(ran, vec![v(1, 56, 0), v(1, 57, 0), v(1, 58, 0)]);
    assert_eq!(find.outcome(), &Some(Ok(v(1, 58, 0))));
}

#[test]
fn bisect_find_same_predicate() {
    let answers = vec![true, true, true, false, false];
    let (found, probes) = search_with_answers(SearchMethod::Bisect, &answers);
    assert_eq!(found, Some(2));
    assert!(probes.len() <= 3);

    let mut find = Find::new(&config(SearchMethod::Bisect), &slice());
    let ran = drive(&mut find, &|r| v(1, 58, 0).le(r), false);
    assert!(ran.len() <= 3);
    assert_eq!(find.outcome(), &Some(Ok(v(1, 58, 0))));
}

#[test]
fn no_compatible_toolchain() {
    for method in [SearchMethod::Linear, SearchMethod::Bisect] {
        let (found, _) = search_with_answers(method, &vec![false, false]);
        assert_eq!(found, None);

        let mut find = Find::new(&config(method), &vec![v(1, 40, 0), v(1, 39, 0)]);
        drive(&mut find, &|_| false, false);
        assert_eq!(
            find.outcome(),
            &Some(Err(CargoMSRVError::UnableToFindAnyGoodVersion {
                command: "cargo check".to_string()
            }))
        );
        let results: Vec<_> = find
            .events()
            .iter()
            .filter_map(|e| match &e.message {
                Message::MsrvResult(m) => Some(m.clone()),
                _ => None,
            })
            .collect();
        assert_eq!(results.len(), 1);
        assert!(!results[0].success());
        assert_eq!(results[0].result, ResultDetails::Undetermined);
        assert!(matches!(
            find.events().last().map(|e| &e.message),
            Some(Message::TerminateWithFailure(_))
        ));
    }
}

#[test]
fn lockfile_restored_on_failure() {
    let mut c = config(SearchMethod::Linear);
    c.ignore_lockfile = true;
    let mut find = Find::new(&c, &slice());
    let mut runs = 0;
    let mut displaced = false;
    let mut actions = Vec::new();
    loop {
        let action = find.next_action();
        let report = match &action {
            ProbeAction::Done => break,
            ProbeAction::MoveLockfile => {
                assert!(!displaced);
                displaced = true;
                StepReport::Completed
            }
            ProbeAction::RestoreLockfile => {
                assert!(displaced);
                displaced = false;
                StepReport::Completed
            }
            ProbeAction::RunCheck { .. } => {
                runs += 1;
                if runs == 2 {
                    StepReport::Failed(CargoMSRVError::UnableToRunCheck)
                } else {
                    StepReport::CheckExited { success: false, stderr: String::new() }
                }
            }
            _ => StepReport::Completed,
        };
        actions.push(action);
        find.advance(report);
    }
    assert!(!displaced);
    assert_eq!(runs, 2);
    assert_eq!(actions.last(), Some(&ProbeAction::RestoreLockfile));
    assert_eq!(find.outcome(), &Some(Err(CargoMSRVError::UnableToRunCheck)));
}

#[test]
fn event_bracketing() {
    for method in [SearchMethod::Linear, SearchMethod::Bisect] {
        let mut find = Find::new(&config(method), &slice());
        let ran = drive(&mut find, &|r| v(1, 58, 0).le(r), false);
        let mut open: Option<OwnedToolchainSpec> = None;
        let mut closed = Vec::new();
        let mut results = 0;
        for e in find.events() {
            match (&e.message, e.scope) {
                (Message::NewCompatibilityCheck(c), Some(EventScope::Start)) => {
                    assert!(open.is_none());
                    open = Some(c.toolchain.clone());
                }
                (Message::NewCompatibilityCheck(c), Some(EventScope::End)) => {
                    assert_eq!(open.take(), Some(c.toolchain.clone()));
                    closed.push(c.toolchain.version);
                }
                (Message::MsrvResult(_), None) => results += 1,
                _ => {}
            }
        }
        assert!(open.is_none());
        assert_eq!(closed, ran);
        assert_eq!(results, 1);
    }
}

#[test]
fn strategies_agree_on_monotone_answers() {
    for n in 0..9usize {
        for k in 0..=n {
            let answers: Vec<bool> = (0..n).map(|i| i < k).collect();
            let (linear, lp) = search_with_answers(SearchMethod::Linear, &answers);
            let (bisect, bp) = search_with_answers(SearchMethod::Bisect, &answers);
            assert_eq!(linear, bisect);
            assert_eq!(linear, if k == 0 { None } else { Some(k - 1) });
            for probes in [lp, bp] {
                let mut seen = probes.clone();
                seen.sort();
                seen.dedup();
                assert_eq!(seen.len(), probes.len());
                assert!(probes.iter().all(|&i| i < n));
            }
        }
    }
}

#[test]
fn linear_finds_oldest_even_when_not_monotone() {
    let answers = vec![true, false, true, false];
    let (found, probes) = search_with_answers(SearchMethod::Linear, &answers);
    assert_eq!(found, Some(2));
    assert_eq!(probes, vec![3, 2]);
}

#[test]
fn searcher_steps() {
    let mut s = Searcher::new(SearchMethod::Bisect, 5);
    assert_eq!(s.method(), SearchMethod::Bisect);
    assert_eq!(s.next_index(), Some(2));
    s.record(2, true);
    assert_eq!(s.next_index(), Some(4));
    s.record(4, false);
    assert_eq!(s.next_index(), Some(3));
    s.record(3, false);
    assert_eq!(s.next_index(), None);
    assert_eq!(s.result(), Some(2));
}

#[test]
fn empty_release_set() {
    let mut c = config(SearchMethod::Bisect);
    c.minimum_version = Some(cargo_msrv::version::BareVersion::TwoComponents(2, 0));
    let find = Find::new(&c, &slice());
    assert_eq!(find.next_action(), ProbeAction::Done);
    assert_eq!(find.outcome(), &Some(Err(CargoMSRVError::RustReleasesEmptyReleaseSet)));
    assert_eq!(find.events().len(), 1);
}

#[test]
fn probe_runs_through_the_toolchain_manager() {
    let mut c = config(SearchMethod::Linear);
    c.no_check_feedback = true;
    c.crate_path = Some("/work/pkg".to_string());
    let rustup_check = RustupToolchainCheck::new(&c);
    let mut log = EventLog::new();
    let t = OwnedToolchainSpec::new(&v(1, 58, 0), "t");
    let mut p: Probe = rustup_check.check(t.clone(), &mut log);
    assert_eq!(p.next_action(), ProbeAction::Install(t.clone()));
    p.advance(&mut log, StepReport::Completed);
    assert_eq!(
        p.next_action(),
        ProbeAction::RunCheck {
            args: vec!["1.58.0-t".to_string(), "cargo".to_string(), "check".to_string()],
            dir: Some("/work/pkg".to_string()),
        }
    );
    p.advance(&mut log, StepReport::CheckExited { success: false, stderr: "boom".to_string() });
    assert!(p.is_done());
    let incompatible = log.events().iter().find_map(|e| match &e.message {
        Message::Compatibility(c) => Some(c.compatibility_report.clone()),
        _ => None,
    });
    assert_eq!(incompatible, Some(CompatibilityReport::Incompatible { error: None }));
    let outcome = p.finish().unwrap();
    assert!(!outcome.is_success());
    assert_eq!(outcome.toolchain(), &t);
}

#[test]
fn probe_install_failure() {
    let mut c = config(SearchMethod::Linear);
    c.ignore_lockfile = true;
    let rustup_check = RustupToolchainCheck::new(&c);
    let mut log = EventLog::new();
    let t = OwnedToolchainSpec::new(&v(1, 58, 0), "t");
    let mut p = rustup_check.check(t.clone(), &mut log);
    assert_eq!(p.next_action(), ProbeAction::MoveLockfile);
    p.advance(&mut log, StepReport::Completed);
    p.advance(&mut log, StepReport::Failed(CargoMSRVError::RustupInstallFailed(t.clone())));
    assert_eq!(p.next_action(), ProbeAction::RestoreLockfile);
    p.advance(&mut log, StepReport::Completed);
    assert!(p.is_done());
    assert_eq!(p.finish(), Err(CargoMSRVError::RustupInstallFailed(t)));
}

#[test]
fn probe_without_lockfile_skips_restore() {
    let mut c = config(SearchMethod::Linear);
    c.ignore_lockfile = true;
    let rustup_check = RustupToolchainCheck::new(&c);
    let mut log = EventLog::new();
    let t = OwnedToolchainSpec::new(&v(1, 58, 0), "t");
    let mut p = rustup_check.check(t.clone(), &mut log);
    p.advance(&mut log, StepReport::LockfileAbsent);
    p.advance(&mut log, StepReport::Completed);
    assert_eq!(p.next_action(), ProbeAction::RemoveLockfile);
    p.advance(&mut log, StepReport::Completed);
    p.advance(&mut log, StepReport::CheckExited { success: true, stderr: String::new() });
    assert!(p.is_done());
    assert!(p.finish().unwrap().is_success());
    let first = &log.events()[0];
    assert_eq!(first.scope, Some(EventScope::Start));
    let last = log.events().last().unwrap();
    assert_eq!(last.scope, Some(EventScope::End));
}

#[test]
fn progress_events_count_probes() {
    let mut find = Find::new(&config(SearchMethod::Linear), &slice());
    let ran = drive(&mut find, &|r| v(1, 58, 0).le(r), false);
    let progress: Vec<(Version, u64, u64)> = find
        .events()
        .iter()
        .filter_map(|e| match &e.message {
            Message::Progress(p) => Some((p.current, p.search_space_size, p.iteration)),
            _ => None,
        })
        .collect();
    assert_eq!(progress.len(), ran.len());
    for (k, (current, total, iteration)) in progress.iter().enumerate() {
        assert_eq!(*current, ran[k]);
        assert_eq!(*total, 5);
        assert_eq!(*iteration, k as u64 + 1);
    }
}

#[test]
fn single_terminal_result_event() {
    let mut find = Find::new(&config(SearchMethod::Bisect), &slice());
    drive(&mut find, &|r| v(1, 58, 0).le(r), false);
    let events = find.events();
    let results: Vec<usize> = events
        .iter()
        .enumerate()
        .filter(|(_, e)| matches!(e.message, Message::MsrvResult(_)))
        .map(|(i, _)| i)
        .collect();
    assert_eq!(results, vec![events.len() - 1]);
    match &events[events.len() - 1].message {
        Message::MsrvResult(m) => assert_eq!(m.msrv(), Some(&v(1, 58, 0))),
        _ => unreachable!(),
    }
}

#[test]
fn probe_error_publishes_no_result() {
    let mut find = Find::new(&config(SearchMethod::Linear), &slice());
    loop {
        let report = match find.next_action() {
            ProbeAction::Done => break,
            ProbeAction::Install(_) => StepReport::Failed(CargoMSRVError::GenericMessage(
                "exit status 1".to_string(),
            )),
            _ => StepReport::Completed,
        };
        find.advance(report);
    }
    let t = OwnedToolchainSpec::new(&v(1, 56, 0), "x86_64-unknown-linux-gnu");
    assert_eq!(find.outcome(), &Some(Err(CargoMSRVError::RustupInstallFailed(t))));
    assert!(!find.events().iter().any(|e| matches!(e.message, Message::MsrvResult(_))));
    assert!(find.pending_writes().is_empty());
}

#[test]
fn empty_window_publishes_termination_only() {
    let mut c = config(SearchMethod::Linear);
    c.maximum_version = Some(cargo_msrv::version::BareVersion::TwoComponents(1, 0));
    let find = Find::new(&c, &slice());
    assert_eq!(find.events().len(), 1);
    assert!(matches!(find.events()[0].message, Message::TerminateWithFailure(_)));
}

#[test]
fn writes_after_a_found_version() {
    let mut c = config(SearchMethod::Bisect);
    c.output_toolchain_file = true;
    c.write_msrv = true;
    let mut find = Find::new(&c, &slice());
    assert!(find.pending_writes().is_empty());
    drive(&mut find, &|r| v(1, 58, 0).le(r), false);
    assert_eq!(
        find.pending_writes(),
        vec![Write::ToolchainFile(v(1, 58, 0)), Write::Msrv(v(1, 58, 0))]
    );
    let mut none = Find::new(&c, &slice());
    drive(&mut none, &|_| false, false);
    assert!(none.pending_writes().is_empty());
}

#[test]
fn probe_events_in_order() {
    for (success, feedback) in [(true, false), (false, false), (false, true)] {
        let mut c = config(SearchMethod::Linear);
        c.no_check_feedback = !feedback;
        let rustup_check = RustupToolchainCheck::new(&c);
        let mut log = EventLog::new();
        let t = OwnedToolchainSpec::new(&v(1, 58, 0), "t");
        let mut p = rustup_check.check(t.clone(), &mut log);
        p.advance(&mut log, StepReport::Completed);
        p.advance(&mut log, StepReport::CheckExited { success, stderr: "E".to_string() });
        let kinds: Vec<(&str, Option<EventScope>)> = log
            .events()
            .iter()
            .map(|e| {
                let kind = match &e.message {
                    Message::CheckToolchain(c) => {
                        assert_eq!(c.toolchain, t);
                        "check_toolchain"
                    }
                    Message::SetupToolchain(_) => "setup_toolchain",
                    Message::CompatibilityCheckMethod(m) => {
                        assert_eq!(
                            m.method,
                            cargo_msrv::event::Method::RustupRun {
                                args: vec!["cargo".to_string(), "check".to_string()],
                                path: None
                            }
                        );
                        "method"
                    }
                    Message::Compatibility(c) => {
                        let expected = if success {
                            CompatibilityReport::Compatible
                        } else {
                            CompatibilityReport::Incompatible {
                                error: if feedback { Some("E".to_string()) } else { None },
                            }
                        };
                        assert_eq!(c.compatibility_report, expected);
                        "compatibility"
                    }
                    _ => "other",
                };
                (kind, e.scope)
            })
            .collect();
        assert_eq!(
            kinds,
            vec![
                ("check_toolchain", Some(EventScope::Start)),
                ("setup_toolchain", Some(EventScope::Start)),
                ("setup_toolchain", Some(EventScope::End)),
                ("method", None),
                ("compatibility", None),
                ("check_toolchain", Some(EventScope::End)),
            ]
        );
    }
}

#[test]
fn run_failure_is_unable_to_run_check() {
    let c = config(SearchMethod::Linear);
    let rustup_check = RustupToolchainCheck::new(&c);
    let mut log = EventLog::new();
    let t = OwnedToolchainSpec::new(&v(1, 58, 0), "t");
    let mut p = rustup_check.check(t, &mut log);
    p.advance(&mut log, StepReport::Completed);
    p.advance(
        &mut log,
        StepReport::Failed(CargoMSRVError::GenericMessage("spawn failed".to_string())),
    );
    assert!(p.is_done());
    assert_eq!(p.finish(), Err(CargoMSRVError::UnableToRunCheck));
    assert!(!log.events().last().unwrap().is_scope_start());
}
