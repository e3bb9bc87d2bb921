//! The two search strategies, as state machines over newest-first indices.
//!
//! A strategy never runs a check itself. It names the index of the release to
//! probe next, is told whether that release was compatible, and eventually
//! settles on the oldest compatible index it found, or on none.
use vstd::prelude::*;

verus! {

/// How the candidate releases are searched.
#[derive(Clone, Copy, Debug, PartialEq, Eq, Structural)]
pub enum SearchMethod {
    /// Probe from the oldest release towards the newest; the first success is the answer.
    Linear,
    /// Halve the undecided window at each probe.
    Bisect,
}

/// The index a strategy probes next within the undecided window `[lo, hi)`.
pub open spec fn probe_index(method: SearchMethod, lo: int, hi: int) -> int {
    match method {
        SearchMethod::Linear => hi - 1,
        SearchMethod::Bisect => lo + (hi - lo) / 2,
    }
}

/// The window and best-known success after probing `i` with answer `ok`.
pub open spec fn step(
    method: SearchMethod,
    lo: int,
    hi: int,
    best: Option<int>,
    i: int,
    ok: bool,
) -> (int, int, Option<int>) {
    match method {
        SearchMethod::Linear => if ok {
            (lo, lo, Some(i))
        } else {
            (lo, i, best)
        },
        SearchMethod::Bisect => if ok {
            (i + 1, hi, Some(i))
        } else {
            (lo, i, best)
        },
    }
}

/// A whole search from the given state against fixed answers `a` (indexed
/// newest-first): the index settled on, and the indices probed, in order.
pub open spec fn run(method: SearchMethod, a: Seq<bool>, lo: int, hi: int, best: Option<int>) -> (
    Option<int>,
    Seq<int>,
)
    decreases hi - lo,
{
    if lo < hi {
        let i = probe_index(method, lo, hi);
        let (lo2, hi2, best2) = step(method, lo, hi, best, i, a[i]);
        if 0 <= hi2 - lo2 < hi - lo {
            let (r, ps) = run(method, a, lo2, hi2, best2);
            (r, seq![i] + ps)
        } else {
            (best, seq![i])
        }
    } else {
        (best, seq![])
    }
}

/// The search of a whole slice of `a.len()` releases.
pub open spec fn search_of(method: SearchMethod, a: Seq<bool>) -> (Option<int>, Seq<int>) {
    run(method, a, 0, a.len() as int, None)
}

/// The oldest compatible index below `hi`: the largest `i < hi` with `a[i]`.
pub open spec fn oldest_compatible(a: Seq<bool>, hi: int) -> Option<int>
    decreases hi,
{
    if hi <= 0 {
        None
    } else if a[hi - 1] {
        Some(hi - 1)
    } else {
        oldest_compatible(a, hi - 1)
    }
}

/// Compatibility only grows towards newer releases (smaller indices).
pub open spec fn monotone(a: Seq<bool>) -> bool {
    forall|i: int, j: int| 0 <= i <= j < a.len() && #[trigger] a[j] ==> #[trigger] a[i]
}

proof fn lemma_run_probes(method: SearchMethod, a: Seq<bool>, lo: int, hi: int, best: Option<int>)
    requires
        0 <= lo <= hi <= a.len(),
    ensures
        forall|k: int| 0 <= k < run(method, a, lo, hi, best).1.len() ==> lo <= #[trigger] run(
            method,
            a,
            lo,
            hi,
            best,
        ).1[k] < hi,
        run(method, a, lo, hi, best).1.no_duplicates(),
    decreases hi - lo,
{
    if lo < hi {
        let i = probe_index(method, lo, hi);
        let (lo2, hi2, best2) = step(method, lo, hi, best, i, a[i]);
        lemma_run_probes(method, a, lo2, hi2, best2);
        let rest = run(method, a, lo2, hi2, best2).1;
        let ps = run(method, a, lo, hi, best).1;
        assert(ps == seq![i] + rest);
        assert forall|k: int| 0 <= k < ps.len() implies lo <= #[trigger] ps[k] < hi by {
            if k > 0 {
                assert(ps[k] == rest[k - 1]);
            }
        }
        assert forall|x: int, y: int| 0 <= x < ps.len() && 0 <= y < ps.len() && x != y implies ps[x]
            != ps[y] by {
            if x > 0 && y > 0 {
                assert(ps[x] == rest[x - 1] && ps[y] == rest[y - 1]);
            } else if x == 0 {
                assert(ps[y] == rest[y - 1]);
            } else {
                assert(ps[x] == rest[x - 1]);
            }
        }
    }
}

/// Each release of the slice is probed at most once in a search, and no
/// index outside the slice is ever probed.
pub proof fn lemma_at_most_once(method: SearchMethod, a: Seq<bool>)
    ensures
        search_of(method, a).1.no_duplicates(),
        forall|k: int| 0 <= k < search_of(method, a).1.len() ==> 0 <= #[trigger] search_of(
            method,
            a,
        ).1[k] < a.len(),
{
    lemma_run_probes(method, a, 0, a.len() as int, None);
}

proof fn lemma_run_sound(method: SearchMethod, a: Seq<bool>, lo: int, hi: int, best: Option<int>)
    requires
        0 <= lo <= hi <= a.len(),
        match best {
            Some(b) => 0 <= b < a.len() && a[b],
            None => true,
        },
    ensures
        match run(method, a, lo, hi, best).0 {
            Some(b) => 0 <= b < a.len() && a[b] && (best == Some(b) || run(
                method,
                a,
                lo,
                hi,
                best,
            ).1.contains(b)),
            None => best == None::<int>,
        },
    decreases hi - lo,
{
    if lo < hi {
        let i = probe_index(method, lo, hi);
        let (lo2, hi2, best2) = step(method, lo, hi, best, i, a[i]);
        lemma_run_sound(method, a, lo2, hi2, best2);
        let rest = run(method, a, lo2, hi2, best2).1;
        let ps = run(method, a, lo, hi, best).1;
        assert(ps == seq![i] + rest);
        assert(ps[0] == i);
        if let Some(b) = run(method, a, lo2, hi2, best2).0 {
            if rest.contains(b) {
                let k = choose|k: int| 0 <= k < rest.len() && rest[k] == b;
                assert(ps[k + 1] == b);
            }
        }
    }
}

/// The answer of a search is always a release that was probed and found
/// compatible.
pub proof fn lemma_answer_was_probed_compatible(method: SearchMethod, a: Seq<bool>)
    ensures
        match search_of(method, a).0 {
            Some(b) => 0 <= b < a.len() && a[b] && search_of(method, a).1.contains(b),
            None => true,
        },
{
    lemma_run_sound(method, a, 0, a.len() as int, None);
}

/// When no release of the slice is compatible, both strategies settle on no
/// toolchain.
pub proof fn lemma_no_false_positive(method: SearchMethod, a: Seq<bool>)
    requires
        forall|i: int| 0 <= i < a.len() ==> !a[i],
    ensures
        search_of(method, a).0 == None::<int>,
{
    lemma_run_sound(method, a, 0, a.len() as int, None);
}

proof fn lemma_linear_run(a: Seq<bool>, hi: int)
    requires
        0 <= hi <= a.len(),
    ensures
        run(SearchMethod::Linear, a, 0, hi, None).0 == oldest_compatible(a, hi),
    decreases hi,
{
    if hi > 0 {
        if a[hi - 1] {
            assert(run(SearchMethod::Linear, a, 0, 0, Some(hi - 1)).0 == Some(hi - 1));
        } else {
            lemma_linear_run(a, hi - 1);
        }
    }
}

/// Linear search settles on the oldest compatible release of the slice,
/// whatever the answers.
pub proof fn lemma_linear_finds_oldest(a: Seq<bool>)
    ensures
        search_of(SearchMethod::Linear, a).0 == oldest_compatible(a, a.len() as int),
{
    lemma_linear_run(a, a.len() as int);
}

/// What `oldest_compatible` settles on is compatible, and nothing older below `hi` is.
pub proof fn lemma_oldest_facts(a: Seq<bool>, hi: int)
    requires
        0 <= hi <= a.len(),
    ensures
        match oldest_compatible(a, hi) {
            Some(m) => 0 <= m < hi && a[m] && forall|j: int| m < j < hi ==> !#[trigger] a[j],
            None => forall|j: int| 0 <= j < hi ==> !#[trigger] a[j],
        },
    decreases hi,
{
    if hi > 0 && !a[hi - 1] {
        lemma_oldest_facts(a, hi - 1);
    }
}

proof fn lemma_bisect_threshold(a: Seq<bool>, lo: int, hi: int, best: Option<int>, k: int)
    requires
        0 <= lo <= k <= hi <= a.len(),
        forall|i: int| 0 <= i < a.len() ==> (#[trigger] a[i] <==> i < k),
        best == (if lo == 0 {
            None::<int>
        } else {
            Some(lo - 1)
        }),
    ensures
        run(SearchMethod::Bisect, a, lo, hi, best).0 == (if k == 0 {
            None::<int>
        } else {
            Some(k - 1)
        }),
    decreases hi - lo,
{
    if lo < hi {
        let i = probe_index(SearchMethod::Bisect, lo, hi);
        let (lo2, hi2, best2) = step(SearchMethod::Bisect, lo, hi, best, i, a[i]);
        lemma_bisect_threshold(a, lo2, hi2, best2, k);
    }
}

/// Under a monotone compatibility predicate, Linear and Bisect settle on the
/// same answer, the oldest compatible release.
pub proof fn lemma_strategies_agree(a: Seq<bool>)
    requires
        monotone(a),
    ensures
        search_of(SearchMethod::Linear, a).0 == search_of(SearchMethod::Bisect, a).0,
        search_of(SearchMethod::Bisect, a).0 == oldest_compatible(a, a.len() as int),
{
    let n = a.len() as int;
    lemma_linear_run(a, n);
    lemma_oldest_facts(a, n);
    let k = match oldest_compatible(a, n) {
        Some(m) => m + 1,
        None => 0,
    };
    assert forall|i: int| 0 <= i < a.len() implies (#[trigger] a[i] <==> i < k) by {
        if let Some(m) = oldest_compatible(a, n) {
            if i <= m {
                assert(a[m]);
            }
        }
    }
    lemma_bisect_threshold(a, 0, n, None, k);
}

/// A search in progress.
pub struct Searcher {
    method: SearchMethod,
    total: usize,
    lo: usize,
    hi: usize,
    best: Option<usize>,
}

pub open spec fn opt_int(o: Option<usize>) -> Option<int> {
    match o {
        Some(i) => Some(i as int),
        None => None,
    }
}

impl Searcher {
    pub closed spec fn method_spec(&self) -> SearchMethod {
        self.method
    }

    pub closed spec fn total_spec(&self) -> nat {
        self.total as nat
    }

    pub closed spec fn lo_spec(&self) -> int {
        self.lo as int
    }

    pub closed spec fn hi_spec(&self) -> int {
        self.hi as int
    }

    pub closed spec fn best_spec(&self) -> Option<int> {
        opt_int(self.best)
    }

    pub closed spec fn wf(&self) -> bool {
        self.lo <= self.hi <= self.total && match self.best {
            Some(b) => b < self.total,
            None => true,
        }
    }

    /// The window lies within the slice, and so does the best-known success.
    pub proof fn lemma_bounds(&self)
        requires
            self.wf(),
        ensures
            0 <= self.lo_spec() <= self.hi_spec() <= self.total_spec(),
            match self.best_spec() {
                Some(b) => 0 <= b < self.total_spec(),
                None => true,
            },
    {
    }

    /// A fresh search over `total` releases.
    pub fn new(method: SearchMethod, total: usize) -> (r: Searcher)
        ensures
            r.wf(),
            r.method_spec() == method,
            r.total_spec() == total,
            r.lo_spec() == 0,
            r.hi_spec() == total,
            r.best_spec() == None::<int>,
    {
        Searcher { method, total, lo: 0, hi: total, best: None }
    }

    pub fn method(&self) -> (r: SearchMethod)
        ensures
            r == self.method_spec(),
    {
        self.method
    }

    /// The index to probe next, or `None` once the search is settled.
    pub fn next_index(&self) -> (r: Option<usize>)
        requires
            self.wf(),
        ensures
            match r {
                Some(i) => self.lo_spec() < self.hi_spec() && i == probe_index(
                    self.method_spec(),
                    self.lo_spec(),
                    self.hi_spec(),
                ) && self.lo_spec() <= i < self.hi_spec(),
                None => self.lo_spec() >= self.hi_spec(),
            },
    {
        if self.lo < self.hi {
            match self.method {
                SearchMethod::Linear => Some(self.hi - 1),
                SearchMethod::Bisect => Some(self.lo + (self.hi - self.lo) / 2),
            }
        } else {
            None
        }
    }

    /// Records the answer for the index `next_index` named.
    pub fn record(&mut self, i: usize, compatible: bool)
        requires
            old(self).wf(),
            old(self).lo_spec() < old(self).hi_spec(),
            i == probe_index(old(self).method_spec(), old(self).lo_spec(), old(self).hi_spec()),
        ensures
            final(self).wf(),
            final(self).method_spec() == old(self).method_spec(),
            final(self).total_spec() == old(self).total_spec(),
            (final(self).lo_spec(), final(self).hi_spec(), final(self).best_spec()) == step(
                old(self).method_spec(),
                old(self).lo_spec(),
                old(self).hi_spec(),
                old(self).best_spec(),
                i as int,
                compatible,
            ),
            0 <= final(self).hi_spec() - final(self).lo_spec() < old(self).hi_spec()
                - old(self).lo_spec(),
    {
        match self.method {
            SearchMethod::Linear => {
                if compatible {
                    self.best = Some(i);
                    self.hi = self.lo;
                } else {
                    self.hi = i;
                }
            },
            SearchMethod::Bisect => {
                if compatible {
                    self.best = Some(i);
                    self.lo = i + 1;
                } else {
                    self.hi = i;
                }
            },
        }
    }

    /// The settled answer: the oldest compatible index found, if any.
    pub fn result(&self) -> (r: Option<usize>)
        requires
            self.wf(),
        ensures
            opt_int(r) == self.best_spec(),
            match r {
                Some(b) => b < self.total_spec(),
                None => true,
            },
    {
        self.best
    }
}

/// Runs a whole search against fixed answers, `compatible[i]` being the
/// answer for the release at newest-first index `i`. Returns the index
/// settled on and the indices probed, in order.
pub fn search_with_answers(method: SearchMethod, compatible: &Vec<bool>) -> (r: (
    Option<usize>,
    Vec<usize>,
))
    ensures
        opt_int(r.0) == search_of(method, compatible@).0,
        r.1@.map_values(|i: usize| i as int) == search_of(method, compatible@).1,
{
    let mut s = Searcher::new(method, compatible.len());
    let mut probes: Vec<usize> = Vec::new();
    loop
        invariant
            s.wf(),
            s.method_spec() == method,
            s.total_spec() == compatible@.len(),
            run(method, compatible@, 0, compatible@.len() as int, None) == (
                run(method, compatible@, s.lo_spec(), s.hi_spec(), s.best_spec()).0,
                probes@.map_values(|i: usize| i as int) + run(
                    method,
                    compatible@,
                    s.lo_spec(),
                    s.hi_spec(),
                    s.best_spec(),
                ).1,
            ),
        decreases s.hi_spec() - s.lo_spec(),
    {
        match s.next_index() {
            Some(i) => {
                let ok = compatible[i];
                let ghost before = probes@.map_values(|i: usize| i as int);
                let ghost (lo, hi, best) = (s.lo_spec(), s.hi_spec(), s.best_spec());
                s.record(i, ok);
                probes.push(i);
                proof {
                    assert(probes@.map_values(|i: usize| i as int) =~= before.push(i as int));
                    assert(run(method, compatible@, lo, hi, best).1 == seq![i as int] + run(
                        method,
                        compatible@,
                        s.lo_spec(),
                        s.hi_spec(),
                        s.best_spec(),
                    ).1);
                    assert(before.push(i as int) + run(
                        method,
                        compatible@,
                        s.lo_spec(),
                        s.hi_spec(),
                        s.best_spec(),
                    ).1 =~= before + (seq![i as int] + run(
                        method,
                        compatible@,
                        s.lo_spec(),
                        s.hi_spec(),
                        s.best_spec(),
                    ).1));
                }
            },
            None => {
                proof {
                    assert(run(method, compatible@, s.lo_spec(), s.hi_spec(), s.best_spec()).1
                        =~= seq![]);
                    assert(probes@.map_values(|i: usize| i as int) + seq![] =~= probes@.map_values(
                        |i: usize| i as int,
                    ));
                }
                return (s.result(), probes);
            },
        }
    }
}

} // verus!
