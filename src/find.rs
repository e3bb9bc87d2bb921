//! Finding the MSRV: the orchestration of filter, search and probes.
//!
//! `Find` is a state machine. It filters the releases, picks the strategy,
//! and asks for one action at a time (through `next_action`); the caller
//! performs it and hands back a `StepReport` (through `advance`). Every step
//! is published to the session's event log.
use vstd::prelude::*;

use crate::check::{
    action_for,
    scoped,
    single,
    Probe,
    ProbeAction,
    ProbeStage,
    RustupToolchainCheck,
    StepReport,
};
use crate::config::{joined, Config};
use crate::errors::{CargoMSRVError, TResult};
use crate::event::{
    bound_or,
    Event,
    EventScope,
    Message,
    MsrvResult,
    NewCompatibilityCheck,
    Progress,
    ResultDetails,
    Search,
    TerminateWithFailure,
};
use crate::filter::{filter_releases, filtered};
use crate::reporter::{
    bracket_open,
    bracketed,
    lemma_close_probe,
    lemma_open_probe,
    probe_trace,
    result_count,
    EventLog,
};
use crate::search::{
    lemma_oldest_facts,
    lemma_strategies_agree,
    lemma_linear_finds_oldest,
    oldest_compatible,
    monotone,
    probe_index,
    run,
    search_of,
    step,
    SearchMethod,
    Searcher,
};
use crate::toolchain::OwnedToolchainSpec;
use crate::version::{version_le, BareVersion, Version};

verus! {

/// The answer of a search.
#[derive(Debug, PartialEq)]
pub enum MinimalCompatibility {
    CapableToolchain { toolchain: OwnedToolchainSpec },
    NoCompatibleToolchains,
}

/// A version as a bound with all three components.
pub open spec fn bare_of(v: Version) -> BareVersion {
    BareVersion::ThreeComponents(v.major, v.minor, v.patch)
}

/// The toolchain of release `v` for `target`.
pub open spec fn toolchain_for(v: Version, target: String) -> OwnedToolchainSpec {
    OwnedToolchainSpec { version: v, target }
}

/// The oldest and the newest release of a newest-first list, as bounds.
pub fn min_max_releases(releases: &Vec<Version>) -> (r: TResult<(BareVersion, BareVersion)>)
    ensures
        releases@.len() == 0 ==> r == Err::<(BareVersion, BareVersion), CargoMSRVError>(
            CargoMSRVError::RustReleasesEmptyReleaseSet,
        ),
        releases@.len() > 0 ==> r == Ok::<(BareVersion, BareVersion), CargoMSRVError>(
            (bare_of(releases@.last()), bare_of(releases@[0])),
        ),
{
    if releases.len() == 0 {
        return Err(CargoMSRVError::RustReleasesEmptyReleaseSet);
    }
    let min = releases[releases.len() - 1];
    let max = releases[0];
    Ok(
        (
            BareVersion::ThreeComponents(min.major, min.minor, min.patch),
            BareVersion::ThreeComponents(max.major, max.minor, max.patch),
        ),
    )
}

/// `m` reports the result `found` of a search over `releases` with `config`.
pub open spec fn reports_result(
    m: MsrvResult,
    config: Config,
    releases: Seq<Version>,
    found: Option<Version>,
) -> bool {
    &&& m.target@ == config.target@
    &&& m.minimum_version == bound_or(config.minimum_version, bare_of(releases.last()))
    &&& m.maximum_version == bound_or(config.maximum_version, bare_of(releases[0]))
    &&& m.search_method == config.search_method
    &&& m.result == match found {
        Some(v) => ResultDetails::Determined { version: v },
        None => ResultDetails::Undetermined,
    }
}

/// `e` is the single-shot `MsrvResult` event for the result `found`.
pub open spec fn is_result_event(
    e: Event,
    config: Config,
    releases: Seq<Version>,
    found: Option<Version>,
) -> bool {
    &&& e.scope is None
    &&& e.message is MsrvResult
    &&& reports_result(e.message->MsrvResult_0, config, releases, found)
}

/// Publishes the `MsrvResult` event for the answer of a search over `releases`.
pub fn report_outcome(
    minimum_capable: &MinimalCompatibility,
    releases: &Vec<Version>,
    config: &Config,
    log: &mut EventLog,
) -> (r: TResult<()>)
    ensures
        releases@.len() == 0 ==> r == Err::<(), CargoMSRVError>(
            CargoMSRVError::RustReleasesEmptyReleaseSet,
        ) && final(log)@ == old(log)@,
        releases@.len() > 0 ==> r is Ok && final(log)@.len() == old(log)@.len() + 1
            && final(log)@.drop_last() == old(log)@ && is_result_event(
            final(log)@.last(),
            *config,
            releases@,
            match *minimum_capable {
                MinimalCompatibility::CapableToolchain { toolchain } => Some(toolchain.version),
                MinimalCompatibility::NoCompatibleToolchains => None,
            },
        ),
        probe_trace(final(log)@) == probe_trace(old(log)@),
{
    let (min, max) = match min_max_releases(releases) {
        Ok(bounds) => bounds,
        Err(e) => return Err(e),
    };
    let m = match minimum_capable {
        MinimalCompatibility::CapableToolchain { toolchain } => MsrvResult::new_msrv(
            toolchain.version,
            config,
            min,
            max,
        ),
        MinimalCompatibility::NoCompatibleToolchains => MsrvResult::none(config, min, max),
    };
    log.report_event(Event::new(Message::MsrvResult(m)));
    proof {
        assert(log@.drop_last() =~= old(log)@);
    }
    Ok(())
}

/// The run settled without a compatible toolchain.
pub open spec fn is_no_match(r: Option<TResult<Version>>) -> bool {
    match r {
        Some(Err(CargoMSRVError::UnableToFindAnyGoodVersion { .. })) => true,
        _ => false,
    }
}

/// A write the caller performs once a run found its version.
#[derive(Debug, PartialEq)]
pub enum Write {
    /// Pin the toolchain of the version in a toolchain file.
    ToolchainFile(Version),
    /// Record the version as the package's MSRV in its manifest.
    Msrv(Version),
}

/// The writes a run with result `r` asks for: the toolchain file first, then
/// the manifest, each only when configured, and none unless a version was
/// found.
pub open spec fn writes_for(config: Config, r: Option<TResult<Version>>) -> Seq<Write> {
    match r {
        Some(Ok(v)) => (if config.output_toolchain_file {
            seq![Write::ToolchainFile(v)]
        } else {
            seq![]
        }) + (if config.write_msrv {
            seq![Write::Msrv(v)]
        } else {
            seq![]
        }),
        _ => seq![],
    }
}

/// The `Progress` event of the `k`-th probe (from 0), which probes the
/// release at index `i`: the release, the slice length, the 1-based count.
pub open spec fn progress_event(releases: Seq<Version>, i: int, k: int) -> Event {
    single(
        Message::Progress(
            Progress {
                current: releases[i],
                search_space_size: releases.len() as u64,
                iteration: (k + 1) as u64,
            },
        ),
    )
}

/// Each probe's `Progress` event was published.
pub open spec fn progress_logged(log: Seq<Event>, releases: Seq<Version>, probed: Seq<int>) -> bool {
    forall|k: int|
        0 <= k < probed.len() ==> exists|j: int|
            0 <= j < log.len() && #[trigger] log[j] == progress_event(releases, #[trigger] probed[k], k)
}

proof fn lemma_progress_prefix(a: Seq<Event>, b: Seq<Event>, releases: Seq<Version>, probed: Seq<int>)
    requires
        progress_logged(a, releases, probed),
        a.is_prefix_of(b),
    ensures
        progress_logged(b, releases, probed),
{
    assert forall|k: int| 0 <= k < probed.len() implies exists|j: int|
        0 <= j < b.len() && #[trigger] b[j] == progress_event(releases, #[trigger] probed[k], k) by {
        let j = choose|j: int| 0 <= j < a.len() && #[trigger] a[j] == progress_event(releases, probed[k], k);
        assert(b[j] == a[j]);
    }
}

/// `r` is how a search that settled on `best` over `releases` ends: with the
/// version found, or with `UnableToFindAnyGoodVersion` carrying the
/// verification command as one line.
pub open spec fn settled_as(
    r: Option<TResult<Version>>,
    best: Option<int>,
    releases: Seq<Version>,
    config: Config,
) -> bool {
    match best {
        Some(b) => r == Some(Ok::<Version, CargoMSRVError>(releases[b])),
        None => match r {
            Some(Err(CargoMSRVError::UnableToFindAnyGoodVersion { command })) => command@ == joined(
                config.check_command@,
            ),
            _ => false,
        },
    }
}

/// The fixed answers `a` over `n` releases agree with the answers reported
/// for the probed indices.
pub open spec fn consistent(a: Seq<bool>, n: int, probed: Seq<int>, answers: Seq<bool>) -> bool {
    &&& a.len() == n
    &&& probed.len() == answers.len()
    &&& forall|k: int| 0 <= k < probed.len() ==> a[#[trigger] probed[k]] == answers[k]
}

/// From the window `[lo, hi)` with best-known success `best`, reached after
/// probing `done`, the search under any consistent fixed answers goes on as
/// the whole search would.
pub open spec fn follows(
    method: SearchMethod,
    n: int,
    done: Seq<int>,
    answers: Seq<bool>,
    lo: int,
    hi: int,
    best: Option<int>,
) -> bool {
    forall|a: Seq<bool>|
        #[trigger] consistent(a, n, done, answers) ==> run(method, a, 0, n, None) == (
            run(method, a, lo, hi, best).0,
            done + run(method, a, lo, hi, best).1,
        )
}

/// What one step of a run does with the report `report` for the action of
/// its open probe `p`: the probe takes the report in and publishes its
/// events. While the probe goes on, nothing else happens. Once it is done,
/// the probe's scope closes; an error ends the run with that error and no
/// further probe; an outcome is recorded as the answer for the probed index,
/// and the strategy either opens the next probe or settles the run.
pub open spec fn stepped(before: Find, after: Find, report: StepReport) -> bool {
    let p = before.probe_spec()->Some_0;
    let q = p.after(report);
    let mid = before.events_spec() + p.step_events(report);
    let (lo, hi, best) = before.window_spec();
    let method = before.config_spec().search_method;
    &&& after.events_spec().len() >= mid.len()
    &&& after.events_spec().subrange(0, mid.len() as int) == mid
    &&& q.stage != ProbeStage::Done ==> {
        &&& after.probe_spec() == Some(q)
        &&& after.events_spec() == mid
        &&& after.result_spec() is None
        &&& after.probed_spec() == before.probed_spec()
        &&& after.answers_spec() == before.answers_spec()
    }
    &&& q.stage == ProbeStage::Done ==> {
        &&& after.events_spec().len() > mid.len()
        &&& after.events_spec()[mid.len() as int] == scoped(
            Message::NewCompatibilityCheck(NewCompatibilityCheck { toolchain: p.toolchain }),
            EventScope::End,
        )
    }
    &&& (q.stage == ProbeStage::Done && q.error is Some) ==> {
        &&& after.result_spec() == Some(Err::<Version, CargoMSRVError>(q.error->Some_0))
        &&& after.probed_spec() == before.probed_spec()
        &&& after.answers_spec() == before.answers_spec()
        &&& after.aborted_spec()
        &&& result_count(after.events_spec()) == 0
    }
    &&& (q.stage == ProbeStage::Done && q.error is None) ==> ({
        let ok = q.outcome->Some_0 is Success;
        let (lo2, hi2, best2) = step(method, lo, hi, best, before.probed_spec().last(), ok);
        &&& after.answers_spec() == before.answers_spec().push(ok)
        &&& !after.aborted_spec()
        &&& lo2 < hi2 ==> after.result_spec() is None && after.probed_spec()
            == before.probed_spec().push(probe_index(method, lo2, hi2)) && result_count(
            after.events_spec(),
        ) == 0
        &&& lo2 >= hi2 ==> after.probed_spec() == before.probed_spec() && settled_as(
            after.result_spec(),
            best2,
            before.releases_spec(),
            before.config_spec(),
        ) && result_count(after.events_spec()) == 1
    })
}

/// A run of the search for the minimum supported version.
pub struct Find {
    config: Config,
    releases: Vec<Version>,
    rustup_check: RustupToolchainCheck,
    searcher: Searcher,
    probe: Option<Probe>,
    index: usize,
    iteration: usize,
    log: EventLog,
    result: Option<TResult<Version>>,
    /// The toolchains probed, in order.
    probes: Ghost<Seq<OwnedToolchainSpec>>,
    /// The indices probed, in order.
    probed: Ghost<Seq<int>>,
    /// Whether each probe that completed found its toolchain compatible.
    answers: Ghost<Seq<bool>>,
    /// Whether the last probe ended the run with an error.
    aborted: Ghost<bool>,
}

impl Find {
    pub closed spec fn config_spec(&self) -> Config {
        self.config
    }

    /// The candidate releases, newest first.
    pub closed spec fn releases_spec(&self) -> Seq<Version> {
        self.releases@
    }

    pub closed spec fn events_spec(&self) -> Seq<Event> {
        self.log@
    }

    pub closed spec fn probes_spec(&self) -> Seq<OwnedToolchainSpec> {
        self.probes@
    }

    pub closed spec fn probed_spec(&self) -> Seq<int> {
        self.probed@
    }

    pub closed spec fn answers_spec(&self) -> Seq<bool> {
        self.answers@
    }

    pub closed spec fn result_spec(&self) -> Option<TResult<Version>> {
        self.result
    }

    /// Whether a probe ended the run with an error.
    pub closed spec fn aborted_spec(&self) -> bool {
        self.aborted@
    }

    /// The probe in progress, if any.
    pub closed spec fn probe_spec(&self) -> Option<Probe> {
        self.probe
    }

    /// The strategy's undecided window `[lo, hi)` and best-known success.
    pub closed spec fn window_spec(&self) -> (int, int, Option<int>) {
        (self.searcher.lo_spec(), self.searcher.hi_spec(), self.searcher.best_spec())
    }

    /// The run settled by completing its search.
    pub closed spec fn concluded(&self) -> bool {
        self.result is Some && !self.aborted@ && self.releases@.len() > 0
    }

    /// The indices of the probes that completed.
    pub closed spec fn completed(&self) -> Seq<int> {
        if self.probe is Some || self.aborted@ {
            self.probed@.drop_last()
        } else {
            self.probed@
        }
    }

    fn toolchain_at(&self, i: usize) -> (r: OwnedToolchainSpec)
        requires
            i < self.releases@.len(),
        ensures
            r == toolchain_for(self.releases@[i as int], self.config.target),
    {
        OwnedToolchainSpec { version: self.releases[i], target: self.config.target.clone() }
    }

    /// Starts a run over the releases of the index, newest first: filters
    /// them, then opens the first probe. With no release in the window the
    /// run ends at once with `RustReleasesEmptyReleaseSet`.
    pub fn new(config: &Config, releases: &Vec<Version>) -> (r: Find)
        ensures
            r.wf(),
            r.config_spec() == (Config { check_command: r.config_spec().check_command, ..*config }),
            r.config_spec().check_command@ == config.check_command@,
            r.releases_spec() == filtered(
                releases@,
                config.minimum_version,
                config.maximum_version,
                config.include_all_patch_releases,
            ),
            r.releases_spec().len() == 0 ==> r.result_spec() == Some(
                Err::<Version, CargoMSRVError>(CargoMSRVError::RustReleasesEmptyReleaseSet),
            ) && r.events_spec().len() == 1 && r.events_spec()[0].message is TerminateWithFailure
                && result_count(r.events_spec()) == 0 && r.probed_spec().len() == 0,
            r.releases_spec().len() > 0 ==> r.events_spec().len() > 0 && r.events_spec()[0]
                == single(Message::Search(Search { search_method: config.search_method })),
            r.releases_spec().len() > 0 ==> r.result_spec() is None && r.probed_spec() == seq![
                probe_index(config.search_method, 0, r.releases_spec().len() as int),
            ],
    {
        let included = filter_releases(config, releases);
        let n = included.len();
        let mut f = Find {
            config: config.clone(),
            releases: included,
            rustup_check: RustupToolchainCheck::new(config),
            searcher: Searcher::new(config.search_method, n),
            probe: None,
            index: 0,
            iteration: 0,
            log: EventLog::new(),
            result: None,
            probes: Ghost(Seq::empty()),
            probed: Ghost(Seq::empty()),
            answers: Ghost(Seq::empty()),
            aborted: Ghost(false),
        };
        proof {
            let m = config.search_method;
            assert forall|a: Seq<bool>| #[trigger]
                consistent(a, n as int, f.probed@, f.answers@) implies run(m, a, 0, n as int, None)
                == (run(m, a, 0, n as int, None).0, f.probed@ + run(m, a, 0, n as int, None).1) by {
                assert(f.probed@ + run(m, a, 0, n as int, None).1 =~= run(m, a, 0, n as int, None).1);
            }
        }
        if n == 0 {
            f.fail_with(CargoMSRVError::RustReleasesEmptyReleaseSet);
        } else {
            let search = Search { search_method: config.search_method };
            f.log.report_event(Event::new(Message::Search(search)));
            f.begin_next();
            proof {
                let first = probe_index(config.search_method, 0, n as int);
                assert(Seq::<int>::empty().push(first) =~= seq![first]);
            }
        }
        f
    }

    /// Ends the run with an error.
    fn fail_with(&mut self, e: CargoMSRVError)
        requires
            old(self).probe is None,
            bracketed(probe_trace(old(self).log@), old(self).probes@),
        ensures
            *final(self) == (Find { log: final(self).log, result: Some(Err(e)), ..*old(self) }),
            old(self).log@.is_prefix_of(final(self).log@),
            probe_trace(final(self).log@) == probe_trace(old(self).log@),
            result_count(final(self).log@) == result_count(old(self).log@),
            final(self).log@ == old(self).log@.push(final(self).log@.last()),
            final(self).log@.last().message is TerminateWithFailure,
    {
        let shown = e.clone();
        let terminate = TerminateWithFailure { error: shown };
        self.log.report_event(Event::new(Message::TerminateWithFailure(terminate)));
        self.result = Some(Err(e));
        proof {
            assert(old(self).log@.is_prefix_of(self.log@));
        }
    }

    /// Opens the next probe the strategy asks for, or settles the run.
    fn begin_next(&mut self)
        requires
            old(self).probe is None,
            old(self).result is None,
            old(self).between(),
            old(self).releases@.len() > 0,
        ensures
            final(self).wf(),
            final(self).config == old(self).config,
            final(self).releases@ == old(self).releases@,
            old(self).log@.is_prefix_of(final(self).log@),
            old(self).probed@.is_prefix_of(final(self).probed@),
            old(self).answers@ == final(self).answers@,
            old(self).searcher.lo_spec() < old(self).searcher.hi_spec()
                ==> final(self).result is None,
            final(self).result is None ==> final(self).probed@ == old(self).probed@.push(
                probe_index(
                    old(self).config.search_method,
                    old(self).searcher.lo_spec(),
                    old(self).searcher.hi_spec(),
                ),
            ),
    {
        let ghost start = self.log@;
        proof {
            self.searcher.lemma_bounds();
        }
        match self.searcher.next_index() {
            Some(i) => {
                let t = self.toolchain_at(i);
                let n = self.releases.len();
                assert(self.iteration < n);
                self.iteration = self.iteration + 1;
                self.log.report_event(
                    Event::new(
                        Message::Progress(
                            Progress {
                                current: self.releases[i],
                                search_space_size: self.releases.len() as u64,
                                iteration: self.iteration as u64,
                            },
                        ),
                    ),
                );
                let ghost before_open = self.log@;
                self.log.start_scope(
                    Message::NewCompatibilityCheck(NewCompatibilityCheck { toolchain: t.clone() }),
                );
                proof {
                    lemma_open_probe(before_open, self.probes@, t);
                    self.probes@ = self.probes@.push(t);
                    self.probed@ = self.probed@.push(i as int);
                }
                self.index = i;
                let ghost before_check = self.log@;
                let p = self.rustup_check.check(t, &mut self.log);
                self.probe = Some(p);
                proof {
                    let kn = old(self).probed@.len() as int;
                    let rel = self.releases@;
                    assert(start.is_prefix_of(self.log@));
                    assert(self.log@[start.len() as int] == progress_event(rel, i as int, kn));
                    assert forall|k: int| 0 <= k < self.probed@.len() implies exists|j: int|
                        0 <= j < self.log@.len() && #[trigger] self.log@[j] == progress_event(
                            rel,
                            #[trigger] self.probed@[k],
                            k,
                        ) by {
                        if k < kn {
                            assert(self.probed@[k] == old(self).probed@[k]);
                            let j = choose|j: int|
                                0 <= j < start.len() && #[trigger] start[j] == progress_event(
                                    rel,
                                    old(self).probed@[k],
                                    k,
                                );
                            assert(self.log@[j] == start[j]);
                        } else {
                            assert(self.probed@[k] == i);
                            assert(self.log@[start.len() as int] == progress_event(rel, i as int, k));
                        }
                    }
                    assert(self.probed@.drop_last() =~= old(self).probed@);
                    assert(self.probed@.last() == i);
                    let target = self.config.target;
                    assert forall|k: int| 0 <= k < self.probed@.len() implies 0
                        <= #[trigger] self.probed@[k] < self.releases@.len() && self.probes@[k]
                        == toolchain_for(self.releases@[self.probed@[k]], target) by {
                        if k < old(self).probed@.len() {
                            assert(self.probed@[k] == old(self).probed@[k]);
                        }
                    }
                    let (lo, hi) = (self.searcher.lo_spec(), self.searcher.hi_spec());
                    assert forall|k: int| 0 <= k < self.completed().len() implies !(lo
                        <= #[trigger] self.completed()[k] < hi) by {
                        assert(self.completed()[k] == old(self).probed@[k]);
                    }
                    if let Some(b) = self.searcher.best_spec() {
                        let k = choose|k: int|
                            0 <= k < old(self).probed@.len() && #[trigger] old(self).probed@[k] == b
                                && old(self).answers@[k];
                        assert(self.completed()[k] == b);
                    }
                    assert(start.is_prefix_of(self.log@));
                    assert(old(self).probed@.is_prefix_of(self.probed@));
                    assert forall|x: int, y: int| 0 <= x < y < self.probed@.len() implies self.probed@[x]
                        != self.probed@[y] by {
                        if y == self.probed@.len() - 1 {
                            assert(self.probed@[x] == old(self).probed@[x]);
                        } else {
                            assert(self.probed@[x] == old(self).probed@[x]);
                            assert(self.probed@[y] == old(self).probed@[y]);
                        }
                    }
                }
            },
            None => {
                self.conclude();
                proof {
                    assert(old(self).probed@.is_prefix_of(self.probed@));
                }
            },
        }
    }

    /// The state between two probes: no probe open, the run not settled.
    closed spec fn between(&self) -> bool {
        &&& self.searcher.wf()
        &&& self.searcher.total_spec() == self.releases@.len()
        &&& self.searcher.method_spec() == self.config.search_method
        &&& self.iteration == self.probed@.len()
        &&& self.rustup_check.check_command@ == self.config.check_command@
        &&& self.rustup_check.crate_path == self.config.crate_path
        &&& self.rustup_check.ignore_lockfile == self.config.ignore_lockfile
        &&& self.probes@.len() == self.probed@.len()
        &&& self.probed@.no_duplicates()
        &&& forall|k: int|
            0 <= k < self.probed@.len() ==> 0 <= #[trigger] self.probed@[k] < self.releases@.len()
                && self.probes@[k] == toolchain_for(
                self.releases@[self.probed@[k]],
                self.config.target,
            )
        &&& forall|k: int|
            0 <= k < self.probed@.len() ==> !(self.searcher.lo_spec() <= #[trigger] self.probed@[k]
                < self.searcher.hi_spec())
        &&& self.answers@.len() == self.probed@.len()
        &&& self.probed@.len() + (self.searcher.hi_spec() - self.searcher.lo_spec())
            <= self.releases@.len()
        &&& !self.aborted@
        &&& follows(
            self.config.search_method,
            self.releases@.len() as int,
            self.probed@,
            self.answers@,
            self.searcher.lo_spec(),
            self.searcher.hi_spec(),
            self.searcher.best_spec(),
        )
        &&& match self.searcher.best_spec() {
            Some(b) => exists|k: int|
                0 <= k < self.probed@.len() && #[trigger] self.probed@[k] == b && self.answers@[k],
            None => true,
        }
        &&& bracketed(probe_trace(self.log@), self.probes@)
        &&& progress_logged(self.log@, self.releases@, self.probed@)
        &&& result_count(self.log@) == 0
        &&& (self.searcher.best_spec() is None ==> forall|k: int|
            0 <= k < self.answers@.len() ==> !#[trigger] self.answers@[k])
        &&& self.probe is None
        &&& self.result is None
    }

    /// Settles the run once the strategy has nothing left to probe.
    fn conclude(&mut self)
        requires
            old(self).between(),
            old(self).releases@.len() > 0,
            old(self).searcher.lo_spec() >= old(self).searcher.hi_spec(),
        ensures
            final(self).wf(),
            final(self).config == old(self).config,
            final(self).releases@ == old(self).releases@,
            final(self).probed@ == old(self).probed@,
            final(self).answers@ == old(self).answers@,
            final(self).aborted@ == old(self).aborted@,
            final(self).searcher == old(self).searcher,
            settled_as(final(self).result, old(self).searcher.best_spec(), old(self).releases@, old(self).config),
            old(self).log@.is_prefix_of(final(self).log@),
    {
        let ghost start = self.log@;
        let ghost rel = self.releases@;
        let ghost probed = self.probed@;
        match self.searcher.result() {
            Some(b) => {
                let t = self.toolchain_at(b);
                let found = MinimalCompatibility::CapableToolchain { toolchain: t };
                let _ = report_outcome(&found, &self.releases, &self.config, &mut self.log);
                self.result = Some(Ok(self.releases[b]));
                proof {
                    self.searcher.lemma_bounds();
                    let k = choose|k: int|
                        0 <= k < self.probed@.len() && #[trigger] self.probed@[k] == b as int
                            && self.answers@[k];
                    assert(self.completed()[k] == b);
                    assert(self.releases@[self.completed()[k]] == self.releases@[b as int]);
                    let last = self.log@[self.log@.len() - 1];
                    assert(is_result_event(last, self.config, self.releases@, Some(self.releases@[b as int])));
                    assert(start.is_prefix_of(self.log@));
                    lemma_progress_prefix(start, self.log@, rel, probed);
                }
            },
            None => {
                let _ = report_outcome(
                    &MinimalCompatibility::NoCompatibleToolchains,
                    &self.releases,
                    &self.config,
                    &mut self.log,
                );
                let ghost at = (self.log@.len() - 1) as int;
                let command = self.config.check_command_string();
                self.fail_with(CargoMSRVError::UnableToFindAnyGoodVersion { command });
                proof {
                    assert(is_result_event(self.log@[at], self.config, self.releases@, None));
                    assert(start.is_prefix_of(self.log@));
                    lemma_progress_prefix(start, self.log@, rel, probed);
                }
            },
        }
    }

    /// The state right after the open probe ended, before its result is taken in.
    closed spec fn closing(&self) -> bool {
        let lo = self.searcher.lo_spec();
        let hi = self.searcher.hi_spec();
        let done = self.probed@.drop_last();
        &&& self.searcher.wf()
        &&& self.searcher.total_spec() == self.releases@.len()
        &&& self.searcher.method_spec() == self.config.search_method
        &&& self.iteration == self.probed@.len()
        &&& self.rustup_check.check_command@ == self.config.check_command@
        &&& self.rustup_check.crate_path == self.config.crate_path
        &&& self.rustup_check.ignore_lockfile == self.config.ignore_lockfile
        &&& self.probes@.len() == self.probed@.len()
        &&& self.probed@.no_duplicates()
        &&& forall|k: int|
            0 <= k < self.probed@.len() ==> 0 <= #[trigger] self.probed@[k] < self.releases@.len()
                && self.probes@[k] == toolchain_for(
                self.releases@[self.probed@[k]],
                self.config.target,
            )
        &&& forall|k: int| 0 <= k < done.len() ==> !(lo <= #[trigger] done[k] < hi)
        &&& self.answers@.len() == done.len()
        &&& done.len() + (hi - lo) <= self.releases@.len()
        &&& match self.searcher.best_spec() {
            Some(b) => exists|k: int|
                0 <= k < done.len() && #[trigger] done[k] == b && self.answers@[k],
            None => true,
        }
        &&& lo < hi
        &&& self.index == probe_index(self.config.search_method, lo, hi)
        &&& self.probed@.len() > 0
        &&& self.probed@.last() == self.index
        &&& bracket_open(probe_trace(self.log@), self.probes@)
        &&& progress_logged(self.log@, self.releases@, self.probed@)
        &&& result_count(self.log@) == 0
        &&& (self.searcher.best_spec() is None ==> forall|k: int|
            0 <= k < self.answers@.len() ==> !#[trigger] self.answers@[k])
        &&& !self.aborted@
        &&& follows(
            self.config.search_method,
            self.releases@.len() as int,
            done,
            self.answers@,
            lo,
            hi,
            self.searcher.best_spec(),
        )
        &&& self.probe is None
        &&& self.result is None
    }

    /// Closes the probe that just ended and goes on with its result.
    #[verifier::rlimit(40)]
    fn settle(&mut self, p: Probe)
        requires
            old(self).probe is None,
            old(self).result is None,
            p.wf(),
            p.stage_spec() == ProbeStage::Done,
            old(self).closing(),
            p.toolchain == old(self).probes@.last(),
        ensures
            final(self).wf(),
            final(self).config == old(self).config,
            final(self).releases@ == old(self).releases@,
            old(self).log@.is_prefix_of(final(self).log@),
            final(self).log@.len() > old(self).log@.len(),
            final(self).log@[old(self).log@.len() as int] == scoped(
                Message::NewCompatibilityCheck(NewCompatibilityCheck { toolchain: p.toolchain }),
                EventScope::End,
            ),
            p.error is Some ==> {
                &&& final(self).result == Some(Err::<Version, CargoMSRVError>(p.error->Some_0))
                &&& final(self).probed@ == old(self).probed@
                &&& final(self).answers@ == old(self).answers@
                &&& final(self).aborted@
            },
            p.error is None ==> ({
                let ok = p.outcome->Some_0 is Success;
                let (lo, hi, best) = (
                    old(self).searcher.lo_spec(),
                    old(self).searcher.hi_spec(),
                    old(self).searcher.best_spec(),
                );
                let method = old(self).config.search_method;
                let (lo2, hi2, best2) = step(method, lo, hi, best, old(self).index as int, ok);
                &&& final(self).answers@ == old(self).answers@.push(ok)
                &&& !final(self).aborted@
                &&& lo2 < hi2 ==> final(self).result is None && final(self).probed@
                    == old(self).probed@.push(probe_index(method, lo2, hi2))
                &&& lo2 >= hi2 ==> final(self).probed@ == old(self).probed@ && settled_as(
                    final(self).result,
                    best2,
                    old(self).releases@,
                    old(self).config,
                )
            }),
    {
        let ghost start = self.log@;
        let t = self.toolchain_at(self.index);
        self.log.end_scope(Message::NewCompatibilityCheck(NewCompatibilityCheck { toolchain: t }));
        proof {
            lemma_close_probe(start, self.probes@);
            assert(start.is_prefix_of(self.log@));
            lemma_progress_prefix(start, self.log@, self.releases@, self.probed@);
        }
        match p.finish() {
            Err(e) => {
                self.fail_with(e);
                proof {
                    self.aborted@ = true;
                    assert(start.is_prefix_of(self.log@));
                    lemma_progress_prefix(start, self.log@, self.releases@, self.probed@);
                    assert(!self.concluded());
                    assert(self.completed() == self.probed@.drop_last());
                }
            },
            Ok(outcome) => {
                let ok = outcome.is_success();
                let ghost before = *self;
                self.searcher.record(self.index, ok);
                proof {
                    self.answers@ = self.answers@.push(ok);
                    self.searcher.lemma_bounds();
                    let (lo, hi) = (self.searcher.lo_spec(), self.searcher.hi_spec());
                    let best = self.searcher.best_spec();
                    assert forall|k: int| 0 <= k < self.probed@.len() - 1 implies self.probed@[k]
                        == before.probed@.drop_last()[k] by {}
                    assert forall|k: int| 0 <= k < self.probed@.len() implies !(lo
                        <= #[trigger] self.probed@[k] < hi) by {
                        if k == self.probed@.len() - 1 {
                            assert(self.probed@[k] == self.index);
                        }
                    }
                    let method = self.config.search_method;
                    let n = self.releases@.len() as int;
                    let done = before.probed@.drop_last();
                    let i = self.index as int;
                    assert forall|a: Seq<bool>| #[trigger]
                        consistent(a, n, self.probed@, self.answers@) implies run(method, a, 0, n, None)
                        == (run(method, a, lo, hi, best).0, self.probed@ + run(method, a, lo, hi, best).1) by {
                        assert forall|k: int| 0 <= k < done.len() implies a[#[trigger] done[k]]
                            == before.answers@[k] by {
                            assert(self.probed@[k] == done[k]);
                            assert(self.answers@[k] == before.answers@[k]);
                        }
                        assert(consistent(a, n, done, before.answers@));
                        assert(self.probed@[self.probed@.len() - 1] == i);
                        assert(a[i] == ok);
                        let rest = run(method, a, lo, hi, best);
                        let (lo0, hi0) = (before.searcher.lo_spec(), before.searcher.hi_spec());
                        let best0 = before.searcher.best_spec();
                        assert(run(method, a, lo0, hi0, best0) == (rest.0, seq![i] + rest.1));
                        assert(self.probed@ =~= done.push(i));
                        assert(done + (seq![i] + rest.1) =~= self.probed@ + rest.1);
                    }
                    if let Some(b) = self.searcher.best_spec() {
                        if ok && b == self.index {
                            assert(self.probed@[self.probed@.len() - 1] == b);
                            assert(self.answers@[self.probed@.len() - 1]);
                        } else {
                            let done = before.probed@.drop_last();
                            let k = choose|k: int|
                                0 <= k < done.len() && #[trigger] done[k] == b && before.answers@[k];
                            assert(self.probed@[k] == b && self.answers@[k]);
                        }
                    }
                }
                if self.searcher.next_index().is_none() {
                    self.conclude();
                } else {
                    self.begin_next();
                }
                proof {
                    assert(start.is_prefix_of(self.log@));
                }
            },
        }
    }

    /// The action the caller performs next: that of the probe in progress,
    /// or `Done` once the run is settled.
    pub fn next_action(&self) -> (r: ProbeAction)
        requires
            self.wf(),
        ensures
            (r == ProbeAction::Done) <==> self.result_spec() is Some,
            match self.probe_spec() {
                Some(p) => action_for(p, r) && p.toolchain == self.probes_spec().last()
                    && p.check_command@ == self.config_spec().check_command@ && p.crate_path
                    == self.config_spec().crate_path && p.ignore_lockfile
                    == self.config_spec().ignore_lockfile,
                None => r == ProbeAction::Done,
            },
    {
        match &self.probe {
            Some(p) => p.next_action(),
            None => ProbeAction::Done,
        }
    }

    /// Takes in what happened when the caller performed the current action.
    pub fn advance(&mut self, report: StepReport)
        requires
            old(self).wf(),
            old(self).result_spec() is None,
        ensures
            final(self).wf(),
            final(self).config_spec() == old(self).config_spec(),
            final(self).releases_spec() == old(self).releases_spec(),
            old(self).events_spec().is_prefix_of(final(self).events_spec()),
            stepped(*old(self), *final(self), report),
    {
        let ghost start = self.log@;
        let ghost p0 = self.probe->Some_0;
        let finished = match &mut self.probe {
            Some(p) => {
                p.advance(&mut self.log, report);
                p.is_done()
            },
            None => false,
        };
        proof {
            assert(start.is_prefix_of(self.log@));
            lemma_progress_prefix(start, self.log@, self.releases@, self.probed@);
            if finished {
                let done = self.probed@.drop_last();
                assert(self.completed() == done);
            }
        }
        if finished {
            match self.probe.take() {
                Some(p) => {
                    let ghost mid = self.log@;
                    self.settle(p);
                    proof {
                        assert(self.log@.subrange(0, mid.len() as int) =~= mid);
                    }
                },
                None => {},
            }
        }
        proof {
            assert(start.is_prefix_of(self.log@));
            assert(self.log@.subrange(0, (start + p0.step_events(report)).len() as int)
                =~= start + p0.step_events(report));
        }
    }

    /// The result, once the run is settled: the minimum supported version,
    /// or the error that ended the run.
    pub fn outcome(&self) -> (r: &Option<TResult<Version>>)
        ensures
            *r == self.result_spec(),
    {
        &self.result
    }

    /// The writes to perform after the run: none until it found a version.
    pub fn pending_writes(&self) -> (r: Vec<Write>)
        ensures
            r@ == writes_for(self.config_spec(), self.result_spec()),
    {
        let mut r: Vec<Write> = Vec::new();
        match &self.result {
            Some(Ok(v)) => {
                if self.config.output_toolchain_file {
                    r.push(Write::ToolchainFile(*v));
                }
                if self.config.write_msrv {
                    r.push(Write::Msrv(*v));
                }
                proof {
                    assert(r@ =~= writes_for(self.config, self.result));
                }
            },
            _ => {
                proof {
                    assert(r@ =~= writes_for(self.config, self.result));
                }
            },
        }
        r
    }

    /// The events published so far.
    pub fn events(&self) -> (r: &Vec<Event>)
        ensures
            r@ == self.events_spec(),
    {
        self.log.events()
    }

    /// The candidate releases, newest first.
    pub fn releases(&self) -> (r: &Vec<Version>)
        ensures
            r@ == self.releases_spec(),
    {
        &self.releases
    }

    pub closed spec fn wf(&self) -> bool {
        let n = self.releases@.len();
        let lo = self.searcher.lo_spec();
        let hi = self.searcher.hi_spec();
        &&& self.searcher.wf()
        &&& self.searcher.total_spec() == n
        &&& self.searcher.method_spec() == self.config.search_method
        &&& self.iteration == self.probed@.len()
        &&& self.rustup_check.check_command@ == self.config.check_command@
        &&& self.rustup_check.crate_path == self.config.crate_path
        &&& self.rustup_check.ignore_lockfile == self.config.ignore_lockfile
        &&& self.probes@.len() == self.probed@.len()
        &&& self.probed@.no_duplicates()
        &&& forall|k: int|
            0 <= k < self.probed@.len() ==> 0 <= #[trigger] self.probed@[k] < n
                && self.probes@[k] == toolchain_for(
                self.releases@[self.probed@[k]],
                self.config.target,
            )
        &&& forall|k: int|
            0 <= k < self.completed().len() ==> !(lo <= #[trigger] self.completed()[k] < hi)
        &&& self.answers@.len() == self.completed().len()
        &&& self.completed().len() + (hi - lo) <= n
        &&& match self.searcher.best_spec() {
            Some(b) => exists|k: int|
                0 <= k < self.completed().len() && #[trigger] self.completed()[k] == b
                    && self.answers@[k],
            None => true,
        }
        &&& (self.probe is Some <==> self.result is None)
        &&& (self.aborted@ ==> self.probe is None && self.probed@.len() > 0)
        &&& (!self.aborted@ ==> follows(
            self.config.search_method,
            n as int,
            self.completed(),
            self.answers@,
            lo,
            hi,
            self.searcher.best_spec(),
        ))
        &&& (self.result is Some && !self.aborted@ ==> lo >= hi)
        &&& progress_logged(self.log@, self.releases@, self.probed@)
        &&& result_count(self.log@) == (if self.concluded() {
            1nat
        } else {
            0nat
        })
        &&& self.concluded() ==> settled_as(
            self.result,
            self.searcher.best_spec(),
            self.releases@,
            self.config,
        )
        &&& (self.searcher.best_spec() is None ==> forall|k: int|
            0 <= k < self.answers@.len() ==> !#[trigger] self.answers@[k])
        &&& match self.probe {
            Some(p) => {
                &&& p.wf()
                &&& p.stage_spec() != ProbeStage::Done
                &&& p.toolchain_spec() == self.probes@.last()
                &&& p.check_command_spec() == self.config.check_command@
                &&& p.crate_path_spec() == self.config.crate_path
                &&& p.ignore_lockfile_spec() == self.config.ignore_lockfile
                &&& lo < hi
                &&& self.index == probe_index(self.config.search_method, lo, hi)
                &&& self.probed@.len() > 0
                &&& self.probed@.last() == self.index
                &&& bracket_open(probe_trace(self.log@), self.probes@)
            },
            None => bracketed(probe_trace(self.log@), self.probes@),
        }
        &&& match self.result {
            Some(Ok(v)) => {
                &&& exists|k: int|
                    0 <= k < self.completed().len() && self.answers@[k]
                        && #[trigger] self.releases@[self.completed()[k]] == v
                &&& self.log@.len() > 0
                &&& is_result_event(self.log@.last(), self.config, self.releases@, Some(v))
            },
            Some(Err(CargoMSRVError::UnableToFindAnyGoodVersion { .. })) => self.aborted@ || (
            self.log@.len() >= 2 && is_result_event(
                self.log@[self.log@.len() - 2],
                self.config,
                self.releases@,
                None,
            )),
            _ => true,
        }
    }
}

/// Every probe of a run is bracketed in the event stream by exactly one
/// `NewCompatibilityCheck` Start and End carrying the probe's toolchain, in
/// probe order, and no End comes without its Start. While a probe runs, its
/// Start is the last mark of the stream.
pub proof fn lemma_probe_bracketing(f: Find)
    requires
        f.wf(),
    ensures
        f.result_spec() is Some ==> bracketed(probe_trace(f.events_spec()), f.probes_spec()),
        f.result_spec() is None ==> bracket_open(probe_trace(f.events_spec()), f.probes_spec()),
        f.probes_spec().len() == f.probed_spec().len(),
        forall|k: int|
            0 <= k < f.probes_spec().len() ==> #[trigger] f.probes_spec()[k] == toolchain_for(
                f.releases_spec()[f.probed_spec()[k]],
                f.config_spec().target,
            ),
{
}

/// A run probes each candidate release at most once, and only candidates.
pub proof fn lemma_run_probes_once(f: Find)
    requires
        f.wf(),
    ensures
        f.probed_spec().no_duplicates(),
        forall|k: int|
            0 <= k < f.probed_spec().len() ==> 0 <= #[trigger] f.probed_spec()[k]
                < f.releases_spec().len(),
{
}

/// A run that settles on a version settles on a candidate that a probe found
/// compatible, and reports it in a `MsrvResult` event with `success` set.
pub proof fn lemma_found_version_was_compatible(f: Find, v: Version)
    requires
        f.wf(),
        f.result_spec() == Some(Ok::<Version, CargoMSRVError>(v)),
    ensures
        exists|k: int|
            0 <= k < f.answers_spec().len() && k < f.probed_spec().len() && f.answers_spec()[k]
                && 0 <= f.probed_spec()[k] < f.releases_spec().len()
                && #[trigger] f.releases_spec()[f.probed_spec()[k]] == v,
        exists|k: int|
            0 <= k < f.events_spec().len() && is_result_event(
                #[trigger] f.events_spec()[k],
                f.config_spec(),
                f.releases_spec(),
                Some(v),
            ),
{
    let k = choose|k: int|
        0 <= k < f.completed().len() && f.answers@[k]
            && #[trigger] f.releases@[f.completed()[k]] == v;
    assert(f.completed()[k] == f.probed@[k]);
    assert(0 <= k < f.answers_spec().len() && k < f.probed_spec().len() && f.answers_spec()[k]);
    assert(f.releases_spec()[f.probed_spec()[k]] == v);
    let j = choose|j: int|
        0 <= j < f.log@.len() && is_result_event(#[trigger] f.log@[j], f.config, f.releases@, Some(v));
    assert(is_result_event(f.events_spec()[j], f.config_spec(), f.releases_spec(), Some(v)));
}

/// When every probe of a run that completed its search found its toolchain
/// incompatible, the run settles on no version, and the `MsrvResult` event
/// it published carries `success = false`.
pub proof fn lemma_run_no_false_positive(f: Find)
    requires
        f.wf(),
        f.result_spec() is Some,
        !f.aborted_spec(),
        f.releases_spec().len() > 0,
        forall|k: int| 0 <= k < f.answers_spec().len() ==> !#[trigger] f.answers_spec()[k],
    ensures
        is_no_match(f.result_spec()),
        exists|k: int|
            0 <= k < f.events_spec().len() && is_result_event(
                #[trigger] f.events_spec()[k],
                f.config_spec(),
                f.releases_spec(),
                None,
            ),
{
    if let Some(b) = f.searcher.best_spec() {
        let k = choose|k: int|
            0 <= k < f.completed().len() && #[trigger] f.completed()[k] == b && f.answers@[k];
        assert(!f.answers_spec()[k]);
    }
    let j = choose|j: int|
        0 <= j < f.log@.len() && is_result_event(#[trigger] f.log@[j], f.config, f.releases@, None);
    assert(is_result_event(f.events_spec()[j], f.config_spec(), f.releases_spec(), None));
}

/// A run that settled by completing its search did exactly what its strategy
/// does under any fixed answers that agree with the reported ones: it probed
/// the same releases in the same order and settled on the same one.
pub proof fn lemma_run_follows_strategy(f: Find, a: Seq<bool>)
    requires
        f.wf(),
        f.result_spec() is Some,
        !f.aborted_spec(),
        f.releases_spec().len() > 0,
        a.len() == f.releases_spec().len(),
        forall|k: int|
            0 <= k < f.probed_spec().len() && k < f.answers_spec().len() ==> a[#[trigger] f.probed_spec()[k]]
                == f.answers_spec()[k],
    ensures
        f.answers_spec().len() == f.probed_spec().len(),
        f.probed_spec() == search_of(f.config_spec().search_method, a).1,
        match search_of(f.config_spec().search_method, a).0 {
            Some(b) => f.result_spec() == Some(Ok::<Version, CargoMSRVError>(f.releases_spec()[b])),
            None => is_no_match(f.result_spec()),
        },
{
    let n = f.releases@.len() as int;
    assert(f.completed() == f.probed@);
    assert forall|k: int| 0 <= k < f.probed@.len() implies a[#[trigger] f.probed@[k]]
        == f.answers@[k] by {
        assert(f.probed_spec()[k] == f.probed@[k]);
    }
    assert(consistent(a, n, f.completed(), f.answers@));
    let lo = f.searcher.lo_spec();
    let hi = f.searcher.hi_spec();
    let best = f.searcher.best_spec();
    assert(run(f.config.search_method, a, lo, hi, best).1 =~= Seq::<int>::empty());
    assert(f.completed() + Seq::<int>::empty() =~= f.completed());
}

/// Two settled runs over the same candidates, one Linear and one Bisect,
/// whose reported answers agree with one monotone predicate, settle on the
/// same result.
pub proof fn lemma_linear_and_bisect_runs_agree(linear: Find, bisect: Find, a: Seq<bool>)
    requires
        linear.wf(),
        bisect.wf(),
        linear.config_spec().search_method == SearchMethod::Linear,
        bisect.config_spec().search_method == SearchMethod::Bisect,
        linear.releases_spec() == bisect.releases_spec(),
        monotone(a),
        linear.result_spec() is Some && !linear.aborted_spec(),
        bisect.result_spec() is Some && !bisect.aborted_spec(),
        linear.releases_spec().len() > 0,
        a.len() == linear.releases_spec().len(),
        forall|k: int|
            0 <= k < linear.probed_spec().len() && k < linear.answers_spec().len() ==> a[#[trigger] linear.probed_spec()[k]]
                == linear.answers_spec()[k],
        forall|k: int|
            0 <= k < bisect.probed_spec().len() && k < bisect.answers_spec().len() ==> a[#[trigger] bisect.probed_spec()[k]]
                == bisect.answers_spec()[k],
    ensures
        is_no_match(linear.result_spec()) <==> is_no_match(bisect.result_spec()),
        !is_no_match(linear.result_spec()) ==> linear.result_spec() == bisect.result_spec(),
{
    lemma_run_follows_strategy(linear, a);
    lemma_run_follows_strategy(bisect, a);
    lemma_strategies_agree(a);
}

/// A settled run that found no version saw only failed probes, one answer
/// per probe.
pub proof fn lemma_no_version_means_all_failed(f: Find)
    requires
        f.wf(),
        f.result_spec() is Some,
        !f.aborted_spec(),
        f.releases_spec().len() > 0,
        is_no_match(f.result_spec()),
    ensures
        f.answers_spec().len() == f.probed_spec().len(),
        forall|k: int| 0 <= k < f.answers_spec().len() ==> !#[trigger] f.answers_spec()[k],
{
}

/// A run publishes exactly one `MsrvResult` event when it settles by
/// completing its search, and none otherwise. The event comes after every
/// probe event: it is the last event, or is followed only by the
/// `TerminateWithFailure` of a run that found no version.
pub proof fn lemma_single_result_event(f: Find)
    requires
        f.wf(),
    ensures
        f.concluded() ==> result_count(f.events_spec()) == 1,
        !f.concluded() ==> result_count(f.events_spec()) == 0,
        f.concluded() && f.result_spec()->Some_0 is Ok ==> is_result_event(
            f.events_spec().last(),
            f.config_spec(),
            f.releases_spec(),
            Some(f.result_spec()->Some_0->Ok_0),
        ),
        f.concluded() && is_no_match(f.result_spec()) ==> f.events_spec().len() >= 2
            && is_result_event(
            f.events_spec()[f.events_spec().len() - 2],
            f.config_spec(),
            f.releases_spec(),
            None,
        ),
{
}

/// With distinct candidate versions, no version is probed twice.
pub proof fn lemma_versions_probed_once(f: Find)
    requires
        f.wf(),
        f.releases_spec().no_duplicates(),
    ensures
        forall|x: int, y: int|
            0 <= x < y < f.probes_spec().len() ==> f.probes_spec()[x].version
                != f.probes_spec()[y].version,
{
    assert forall|x: int, y: int| 0 <= x < y < f.probes_spec().len() implies f.probes_spec()[x].version
        != f.probes_spec()[y].version by {
        assert(f.probed@[x] != f.probed@[y]);
        assert(f.probes@[x].version == f.releases@[f.probed@[x]]);
        assert(f.probes@[y].version == f.releases@[f.probed@[y]]);
    }
}

/// Each probe of a run is announced by its `Progress` event, carrying the
/// probed release, the number of candidates and the probe's 1-based count.
pub proof fn lemma_progress_events(f: Find)
    requires
        f.wf(),
    ensures
        progress_logged(f.events_spec(), f.releases_spec(), f.probed_spec()),
{
}

/// Over a newest-first slice, a settled Linear run, or a settled run under
/// a monotone predicate, leaves no compatible release older than the version
/// it found, and finds one whenever some release is compatible.
pub proof fn lemma_no_older_compatible(f: Find, a: Seq<bool>)
    requires
        f.wf(),
        f.result_spec() is Some,
        !f.aborted_spec(),
        f.releases_spec().len() > 0,
        a.len() == f.releases_spec().len(),
        forall|k: int|
            0 <= k < f.probed_spec().len() && k < f.answers_spec().len() ==> a[#[trigger] f.probed_spec()[k]]
                == f.answers_spec()[k],
        f.config_spec().search_method == SearchMethod::Linear || monotone(a),
        forall|i: int, j: int|
            0 <= i < j < f.releases_spec().len() ==> version_le(
                #[trigger] f.releases_spec()[j],
                #[trigger] f.releases_spec()[i],
            ),
    ensures
        (exists|i: int| 0 <= i < a.len() && a[i]) ==> f.result_spec()->Some_0 is Ok,
        match f.result_spec()->Some_0 {
            Ok(v) => forall|i: int|
                0 <= i < a.len() && #[trigger] a[i] ==> version_le(v, f.releases_spec()[i]),
            Err(_) => forall|i: int| 0 <= i < a.len() ==> !#[trigger] a[i],
        },
{
    let n = a.len() as int;
    lemma_run_follows_strategy(f, a);
    lemma_linear_finds_oldest(a);
    if f.config_spec().search_method == SearchMethod::Bisect {
        lemma_strategies_agree(a);
    }
    lemma_oldest_facts(a, n);
    match oldest_compatible(a, n) {
        Some(b) => {
            assert forall|i: int| 0 <= i < a.len() && #[trigger] a[i] implies version_le(
                f.releases_spec()[b],
                f.releases_spec()[i],
            ) by {
                if i < b {
                    assert(version_le(f.releases_spec()[b], f.releases_spec()[i]));
                }
            }
        },
        None => {},
    }
}

} // verus!
