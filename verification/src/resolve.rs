//! Release resolution: find the `latest` release and pick the one asset to
//! install on the host.
//!
//! Selection filters a release's assets to those whose parsed metadata
//! matches the host, then takes the lexicographically greatest filename
//! among them.  That tie-break stands in for "highest version" and is only
//! correct while version strings sort lexicographically like they sort
//! semantically — a known limitation of the naming scheme.

use vstd::prelude::*;

use crate::platform::{spec_applies, PlatformDescriptor, PlatformDescriptorView};
use crate::release::{parse_name, Asset, Release};
use crate::strutil::{
    lemma_lex_le_refl, lemma_lex_le_total, lemma_lex_le_trans, lex_le, str_eq, str_le,
};

verus! {

/// Why resolution failed.
#[derive(Debug, Clone, Copy, PartialEq, Eq, Structural)]
pub enum ResolveError {
    /// No release in the feed carries the sentinel tag `latest`.
    NotFound,
    /// The latest release has no asset installable on this host.
    NoMatchingAsset,
}

/// Does this release carry the sentinel tag `latest`?
pub open spec fn is_latest(r: Release) -> bool {
    r.tag_name@ == "latest"@
}

/// The first index `>= i` of a release tagged `latest`, or `rs.len()`.
pub open spec fn first_latest(rs: Seq<Release>, i: int) -> int
    decreases rs.len() - i,
{
    if i >= rs.len() {
        rs.len() as int
    } else if is_latest(rs[i]) {
        i
    } else {
        first_latest(rs, i + 1)
    }
}

pub proof fn lemma_first_latest_is(rs: Seq<Release>, i0: int, k: int)
    requires
        0 <= i0 <= k <= rs.len(),
        forall|j: int| i0 <= j < k ==> !is_latest(#[trigger] rs[j]),
        k < rs.len() ==> is_latest(rs[k]),
    ensures
        first_latest(rs, i0) == k,
    decreases k - i0,
{
    if i0 < k {
        lemma_first_latest_is(rs, i0 + 1, k)
    }
}

/// Scans the feed's releases for the first one tagged `latest`; its absence
/// is fatal to the install flow and reported as [`ResolveError::NotFound`].
pub fn resolve_latest(releases: Vec<Release>) -> (r: Result<Release, ResolveError>)
    ensures
        ({
            let k = first_latest(releases@, 0);
            if k < releases@.len() {
                r is Ok && r->Ok_0@ == releases@[k]@
            } else {
                r == Err::<Release, ResolveError>(ResolveError::NotFound)
            }
        }),
        (forall|j: int| 0 <= j < releases@.len() ==> !is_latest(#[trigger] releases@[j])) <==> r
            == Err::<Release, ResolveError>(ResolveError::NotFound),
{
    let mut i: usize = 0;
    while i < releases.len()
        invariant
            0 <= i <= releases@.len(),
            forall|j: int| 0 <= j < i ==> !is_latest(#[trigger] releases@[j]),
        decreases releases@.len() - i,
    {
        if str_eq(releases[i].tag_name.as_str(), "latest") {
            proof {
                lemma_first_latest_is(releases@, 0, i as int);
                assert(is_latest(releases@[i as int]));
            }
            return Ok(releases[i].duplicate());
        }
        i += 1;
    }
    proof {
        lemma_first_latest_is(releases@, 0, releases@.len() as int);
    }
    Err(ResolveError::NotFound)
}

/// Is this asset a candidate for the host: its name parses, and the parsed
/// metadata matches the host platform?
pub open spec fn is_candidate(a: Asset, host: PlatformDescriptorView) -> bool {
    parse_name(a.name@) is Ok && spec_applies(parse_name(a.name@)->Ok_0, host)
}

/// The index of the chosen candidate after scanning `assets[i..]` with `cur`
/// the best index so far (`-1`: none yet): the last index among those whose
/// filename is lexicographically greatest.
pub open spec fn best_candidate_from(
    assets: Seq<Asset>,
    host: PlatformDescriptorView,
    i: int,
    cur: int,
) -> int
    decreases assets.len() - i,
{
    if i >= assets.len() {
        cur
    } else {
        let cur2 = if is_candidate(assets[i], host) && (cur < 0 || lex_le(
            assets[cur].name@,
            assets[i].name@,
        )) {
            i
        } else {
            cur
        };
        best_candidate_from(assets, host, i + 1, cur2)
    }
}

/// What the scan's result means: it lands on a candidate whose name bounds
/// every candidate's name from above, and no later candidate shares that
/// name; it is negative exactly when there is no candidate at all.
pub proof fn lemma_best_candidate_props(
    assets: Seq<Asset>,
    host: PlatformDescriptorView,
    i: int,
    cur: int,
)
    requires
        0 <= i <= assets.len(),
        cur >= 0 ==> 0 <= cur < i && is_candidate(assets[cur], host),
        cur >= 0 ==> forall|j: int|
            0 <= j < i && is_candidate(#[trigger] assets[j], host) ==> lex_le(
                assets[j].name@,
                assets[cur].name@,
            ) && (j > cur ==> assets[j].name@ != assets[cur].name@),
        cur < 0 ==> forall|j: int| 0 <= j < i ==> !is_candidate(#[trigger] assets[j], host),
    ensures
        ({
            let b = best_candidate_from(assets, host, i, cur);
            &&& b >= 0 ==> 0 <= b < assets.len() && is_candidate(assets[b], host)
            &&& b >= 0 ==> forall|j: int|
                0 <= j < assets.len() && is_candidate(#[trigger] assets[j], host) ==> lex_le(
                    assets[j].name@,
                    assets[b].name@,
                ) && (j > b ==> assets[j].name@ != assets[b].name@)
            &&& b < 0 ==> forall|j: int|
                0 <= j < assets.len() ==> !is_candidate(#[trigger] assets[j], host)
        }),
    decreases assets.len() - i,
{
    if i >= assets.len() {
    } else {
        let take = is_candidate(assets[i], host) && (cur < 0 || lex_le(
            assets[cur].name@,
            assets[i].name@,
        ));
        if take {
            assert forall|j: int|
                0 <= j < i + 1 && is_candidate(#[trigger] assets[j], host) implies lex_le(
                assets[j].name@,
                assets[i].name@,
            ) && (j > i ==> assets[j].name@ != assets[i].name@) by {
                if j == i {
                    lemma_lex_le_refl(assets[i].name@);
                } else if cur >= 0 {
                    lemma_lex_le_trans(assets[j].name@, assets[cur].name@, assets[i].name@);
                }
            }
            lemma_best_candidate_props(assets, host, i + 1, i);
        } else {
            if is_candidate(assets[i], host) && cur >= 0 {
                lemma_lex_le_total(assets[cur].name@, assets[i].name@);
                if assets[i].name@ == assets[cur].name@ {
                    lemma_lex_le_refl(assets[cur].name@);
                }
            }
            lemma_best_candidate_props(assets, host, i + 1, cur);
        }
    }
}

/// Decides [`is_candidate`].
fn asset_candidate(a: &Asset, host: &PlatformDescriptor) -> (r: bool)
    ensures
        r == is_candidate(*a, host@),
{
    match a.get_asset_info() {
        Ok(info) => info.applies_to_this_machine(host),
        Err(_) => false,
    }
}

/// Picks the single asset of `release` to install on `host`: among the
/// candidates — assets whose name parses and whose metadata matches the
/// host — the one with the lexicographically greatest filename, taking the
/// last such asset when several share that name.  An empty candidate set is
/// fatal and reported as [`ResolveError::NoMatchingAsset`].
pub fn select_asset(release: &Release, host: &PlatformDescriptor) -> (r: Result<
    Asset,
    ResolveError,
>)
    ensures
        (r is Ok) <==> exists|j: int|
            0 <= j < release.assets@.len() && is_candidate(#[trigger] release.assets@[j], host@),
        r is Err ==> r == Err::<Asset, ResolveError>(ResolveError::NoMatchingAsset),
        r matches Ok(a) ==> exists|i: int|
            {
                &&& 0 <= i < release.assets@.len()
                &&& a == #[trigger] release.assets@[i]
                &&& is_candidate(release.assets@[i], host@)
                &&& forall|j: int|
                    0 <= j < release.assets@.len() && is_candidate(
                        #[trigger] release.assets@[j],
                        host@,
                    ) ==> lex_le(release.assets@[j].name@, release.assets@[i].name@) && (j > i
                        ==> release.assets@[j].name@ != release.assets@[i].name@)
            },
{
    let ghost assets = release.assets@;
    let mut best: usize = 0;
    let mut have = false;
    let mut i: usize = 0;
    while i < release.assets.len()
        invariant
            0 <= i <= assets.len(),
            release.assets@ == assets,
            have ==> best < i,
            best_candidate_from(assets, host@, 0, -1) == best_candidate_from(
                assets,
                host@,
                i as int,
                if have {
                    best as int
                } else {
                    -1
                },
            ),
        decreases assets.len() - i,
    {
        let cand = asset_candidate(&release.assets[i], host);
        if cand && (!have || str_le(release.assets[best].name.as_str(), release.assets[i].name.as_str())) {
            best = i;
            have = true;
        }
        i += 1;
    }
    proof {
        lemma_best_candidate_props(assets, host@, 0, -1);
    }
    if have {
        let chosen = release.assets[best].duplicate();
        proof {
            let b = best_candidate_from(assets, host@, 0, -1);
            assert(b == best as int);
            assert(0 <= b < assets.len() && chosen == assets[b] && is_candidate(assets[b], host@)
                && forall|j: int|
                0 <= j < assets.len() && is_candidate(#[trigger] assets[j], host@) ==> lex_le(
                    assets[j].name@,
                    assets[b].name@,
                ) && (j > b ==> assets[j].name@ != assets[b].name@));
        }
        Ok(chosen)
    } else {
        Err(ResolveError::NoMatchingAsset)
    }
}

} // verus!
