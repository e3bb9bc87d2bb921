//! Narrowing the release list to the configured window.
use vstd::prelude::*;

use crate::config::Config;
use crate::version::{at_least, at_most, BareVersion, Version};

verus! {

/// Whether the release at `i` stays: it lies within both bounds and, unless
/// every patch release is wanted, no earlier (newer) release shares its
/// major and minor version.
pub open spec fn keeps(
    r: Seq<Version>,
    i: int,
    min: Option<BareVersion>,
    max: Option<BareVersion>,
    all_patches: bool,
) -> bool {
    &&& all_patches || forall|j: int|
        0 <= j < i ==> !(#[trigger] r[j].major == r[i].major && r[j].minor == r[i].minor)
    &&& match min {
        Some(b) => at_least(r[i], b),
        None => true,
    }
    &&& match max {
        Some(b) => at_most(r[i], b),
        None => true,
    }
}

/// The releases of `r` that stay, in the order they came.
pub open spec fn filtered(
    r: Seq<Version>,
    min: Option<BareVersion>,
    max: Option<BareVersion>,
    all_patches: bool,
) -> Seq<Version>
    decreases r.len(),
{
    if r.len() == 0 {
        seq![]
    } else {
        let rest = filtered(r.drop_last(), min, max, all_patches);
        if keeps(r, r.len() - 1, min, max, all_patches) {
            rest.push(r.last())
        } else {
            rest
        }
    }
}

/// The releases of a newest-first list that fall within the configured
/// window, newest first. Without `include_all_patch_releases` only the newest
/// release of each minor version is kept; the bounds are applied after that.
pub fn filter_releases(config: &Config, releases: &Vec<Version>) -> (r: Vec<Version>)
    ensures
        r@ == filtered(
            releases@,
            config.minimum_version,
            config.maximum_version,
            config.include_all_patch_releases,
        ),
{
    let min = config.minimum_version;
    let max = config.maximum_version;
    let all = config.include_all_patch_releases;
    let mut out: Vec<Version> = Vec::new();
    let n = releases.len();
    let mut i: usize = 0;
    while i < n
        invariant
            n == releases@.len(),
            i <= n,
            out@ == filtered(releases@.subrange(0, i as int), min, max, all),
        decreases n - i,
    {
        let v = releases[i];
        let mut fresh = true;
        if !all {
            let mut j: usize = 0;
            while j < i
                invariant
                    i < n == releases@.len(),
                    j <= i,
                    v == releases@[i as int],
                    fresh == forall|k: int|
                        0 <= k < j ==> !(#[trigger] releases@[k].major == v.major
                            && releases@[k].minor == v.minor),
                decreases i - j,
            {
                if releases[j].same_minor(&v) {
                    fresh = false;
                }
                j = j + 1;
            }
        }
        let in_window = match min {
            Some(b) => b.admits_from_below(&v),
            None => true,
        } && match max {
            Some(b) => b.admits_from_above(&v),
            None => true,
        };
        let ghost prefix = releases@.subrange(0, i as int);
        let ghost next = releases@.subrange(0, i + 1);
        proof {
            assert(next.drop_last() =~= prefix);
            assert(next.last() == v);
            if !all {
                if fresh {
                    assert forall|j: int| 0 <= j < i implies !(#[trigger] next[j].major
                        == next[i as int].major && next[j].minor == next[i as int].minor) by {
                        assert(next[j] == releases@[j]);
                    }
                } else {
                    let k = choose|k: int|
                        0 <= k < i && (#[trigger] releases@[k].major == v.major
                            && releases@[k].minor == v.minor);
                    assert(next[k] == releases@[k]);
                }
            }
            assert(keeps(next, i as int, min, max, all) == ((all || fresh) && in_window));
        }
        if (all || fresh) && in_window {
            out.push(v);
        }
        i = i + 1;
    }
    proof {
        assert(releases@.subrange(0, n as int) =~= releases@);
    }
    out
}

proof fn lemma_filtered_shape(
    r: Seq<Version>,
    min: Option<BareVersion>,
    max: Option<BareVersion>,
    all: bool,
)
    ensures
        forall|x: int|
            0 <= x < filtered(r, min, max, all).len() ==> exists|j: int|
                0 <= j < r.len() && r[j] == #[trigger] filtered(r, min, max, all)[x],
        forall|x: int|
            0 <= x < filtered(r, min, max, all).len() ==> keeps(
                filtered(r, min, max, all),
                x,
                min,
                max,
                all,
            ),
    decreases r.len(),
{
    if r.len() > 0 {
        let s = r.drop_last();
        lemma_filtered_shape(s, min, max, all);
        let rest = filtered(s, min, max, all);
        let f = filtered(r, min, max, all);
        assert forall|x: int| 0 <= x < f.len() implies exists|j: int|
            0 <= j < r.len() && r[j] == #[trigger] f[x] by {
            if x < rest.len() {
                let j = choose|j: int| 0 <= j < s.len() && s[j] == rest[x];
                assert(r[j] == f[x]);
            } else {
                assert(r[r.len() - 1] == f[x]);
            }
        }
        assert forall|x: int| 0 <= x < f.len() implies keeps(f, x, min, max, all) by {
            if x < rest.len() {
                assert(keeps(rest, x, min, max, all));
                assert forall|k: int| 0 <= k < x implies f[k] == rest[k] by {}
                assert(f[x] == rest[x]);
            } else {
                assert(keeps(r, r.len() - 1, min, max, all));
                if !all {
                    assert forall|k: int| 0 <= k < x implies !(#[trigger] f[k].major == f[x].major
                        && f[k].minor == f[x].minor) by {
                        assert(f[k] == rest[k]);
                        let j = choose|j: int| 0 <= j < s.len() && s[j] == rest[k];
                        assert(r[j] == f[k]);
                    }
                }
            }
        }
    }
}

proof fn lemma_filtered_fixed(
    r: Seq<Version>,
    min: Option<BareVersion>,
    max: Option<BareVersion>,
    all: bool,
)
    requires
        forall|x: int| 0 <= x < r.len() ==> keeps(r, x, min, max, all),
    ensures
        filtered(r, min, max, all) == r,
    decreases r.len(),
{
    if r.len() > 0 {
        let s = r.drop_last();
        assert forall|x: int| 0 <= x < s.len() implies keeps(s, x, min, max, all) by {
            assert(keeps(r, x, min, max, all));
            assert forall|k: int| 0 <= k <= x implies s[k] == r[k] by {}
        }
        lemma_filtered_fixed(s, min, max, all);
        assert(keeps(r, r.len() - 1, min, max, all));
        assert(s.push(r.last()) =~= r);
    }
}

/// Filtering is idempotent: filtering an already filtered list changes nothing.
pub proof fn lemma_filter_idempotent(
    r: Seq<Version>,
    min: Option<BareVersion>,
    max: Option<BareVersion>,
    all_patches: bool,
)
    ensures
        filtered(filtered(r, min, max, all_patches), min, max, all_patches) == filtered(
            r,
            min,
            max,
            all_patches,
        ),
{
    lemma_filtered_shape(r, min, max, all_patches);
    lemma_filtered_fixed(filtered(r, min, max, all_patches), min, max, all_patches);
}

} // verus!
