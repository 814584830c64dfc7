use vstd::prelude::*;

use crate::error::BuildError;
use crate::staleness::{needs_rebuild, stale, FileTime};
use crate::text::{has_tag, tagged};

verus! {

/// The compressed pixel format of a unit's artifact.
#[derive(Clone, Copy, Debug, PartialEq, Eq, Structural)]
pub enum TexEncoding {
    /// BC7, linear colour.
    Bc7Unorm,
    /// BC7, sRGB colour space.
    Bc7Srgb,
}

/// One buildable artifact and the channel-image files it is built from.
///
/// The file name of exactly one source path should contain `Flat` (the opaque
/// composite) and that of at most one other `Alpha` (the separate alpha channel).
/// Paths are paired by these tags, never by their position in the list.
#[derive(Clone, Debug, PartialEq, Eq)]
pub struct TexUnit {
    pub encoding: TexEncoding,
    pub source_paths: Vec<String>,
}

/// Positions in a unit's source paths of the files to read for a rebuild.
#[derive(Clone, Copy, Debug, PartialEq, Eq, Structural)]
pub struct ChannelSources {
    /// The opaque composite.
    pub flat: usize,
    /// The separate alpha channel, if the unit has one.
    pub alpha: Option<usize>,
}

/// What a build does with one unit. Either way the cached artifact is then copied to the
/// output directory, since that directory may have been cleaned while the cache stayed.
#[derive(Clone, Copy, Debug, PartialEq, Eq, Structural)]
pub enum UnitPlan {
    /// The cached artifact is up to date: copy it only.
    Stage,
    /// Re-encode the artifact from these sources, then copy it.
    Rebuild(ChannelSources),
}

/// The position of the last path in `ps` whose file name contains `tag`.
pub open spec fn last_tagged(ps: Seq<String>, tag: Seq<char>) -> Option<int>
    decreases ps.len(),
{
    if ps.len() == 0 {
        None
    } else if tagged(ps.last()@, tag) {
        Some(ps.len() - 1)
    } else {
        last_tagged(ps.drop_last(), tag)
    }
}

/// The tag of the opaque composite.
pub open spec fn flat_tag() -> Seq<char> {
    "Flat"@
}

/// The tag of the separate alpha channel.
pub open spec fn alpha_tag() -> Seq<char> {
    "Alpha"@
}

/// The sources a rebuild reads: the last `Flat`-tagged path, and the last `Alpha`-tagged
/// path if there is one. Several paths without an `Alpha`-tagged one break the unit.
pub open spec fn selected(ps: Seq<String>) -> Result<ChannelSources, BuildError> {
    match last_tagged(ps, flat_tag()) {
        None => Err(BuildError::MissingFlatChannel),
        Some(f) => match last_tagged(ps, alpha_tag()) {
            Some(a) => Ok(ChannelSources { flat: f as usize, alpha: Some(a as usize) }),
            None => if ps.len() > 1 {
                Err(BuildError::MissingAlphaChannel)
            } else {
                Ok(ChannelSources { flat: f as usize, alpha: None })
            },
        },
    }
}

/// The paths (rather than positions) that `selected` picks.
pub open spec fn paired_paths(ps: Seq<String>) -> Result<(Seq<char>, Option<Seq<char>>), BuildError> {
    match selected(ps) {
        Err(e) => Err(e),
        Ok(c) => Ok(
            (
                ps[c.flat as int]@,
                match c.alpha {
                    Some(a) => Some(ps[a as int]@),
                    None => None,
                },
            ),
        ),
    }
}

/// The plan for a unit with source paths `ps`: rebuild when forced or when the cached
/// artifact (modified at `cache`, `None` if absent) is stale against `sources`.
pub open spec fn planned(
    ps: Seq<String>,
    force: bool,
    cache: Option<FileTime>,
    sources: Seq<FileTime>,
) -> Result<UnitPlan, BuildError> {
    if force || stale(sources, cache) {
        match selected(ps) {
            Ok(c) => Ok(UnitPlan::Rebuild(c)),
            Err(e) => Err(e),
        }
    } else {
        Ok(UnitPlan::Stage)
    }
}

/// Picks the sources a rebuild of a unit with these paths reads, by file-name tag.
pub fn select_channels(paths: &Vec<String>) -> (r: Result<ChannelSources, BuildError>)
    ensures
        r == selected(paths@),
        r matches Ok(c) ==> c.flat < paths@.len() && (c.alpha matches Some(a) ==> a
            < paths@.len()),
{
    let mut flat: Option<usize> = None;
    let mut alpha: Option<usize> = None;
    let mut i: usize = 0;
    while i < paths.len()
        invariant
            i <= paths@.len(),
            flat == (match last_tagged(paths@.subrange(0, i as int), flat_tag()) {
                Some(f) => Some(f as usize),
                None => None::<usize>,
            }),
            alpha == (match last_tagged(paths@.subrange(0, i as int), alpha_tag()) {
                Some(a) => Some(a as usize),
                None => None::<usize>,
            }),
        decreases paths@.len() - i,
    {
        let ghost prefix = paths@.subrange(0, i + 1);
        assert(prefix.drop_last() =~= paths@.subrange(0, i as int));
        if has_tag(paths[i].as_str(), "Flat") {
            flat = Some(i);
        }
        if has_tag(paths[i].as_str(), "Alpha") {
            alpha = Some(i);
        }
        i = i + 1;
    }
    assert(paths@.subrange(0, paths@.len() as int) =~= paths@);
    proof {
        lemma_last_tagged(paths@, flat_tag());
        lemma_last_tagged(paths@, alpha_tag());
    }
    match flat {
        None => Err(BuildError::MissingFlatChannel),
        Some(f) => match alpha {
            Some(a) => Ok(ChannelSources { flat: f, alpha: Some(a) }),
            None => if paths.len() > 1 {
                Err(BuildError::MissingAlphaChannel)
            } else {
                Ok(ChannelSources { flat: f, alpha: None })
            },
        },
    }
}

/// Decides what a build does with `unit`: rebuild when `force` is set or the cached
/// artifact (modified at `cache`, `None` if absent) is stale against the sources'
/// modification times `sources`; otherwise only stage the cached artifact.
pub fn plan_unit(
    unit: &TexUnit,
    force: bool,
    cache: Option<FileTime>,
    sources: &Vec<FileTime>,
) -> (r: Result<UnitPlan, BuildError>)
    ensures
        r == planned(unit.source_paths@, force, cache, sources@),
        r matches Ok(UnitPlan::Rebuild(c)) ==> c.flat < unit.source_paths@.len() && (
        c.alpha matches Some(a) ==> a < unit.source_paths@.len()),
{
    if force || needs_rebuild(sources, cache) {
        match select_channels(&unit.source_paths) {
            Ok(c) => Ok(UnitPlan::Rebuild(c)),
            Err(e) => Err(e),
        }
    } else {
        Ok(UnitPlan::Stage)
    }
}

/// A forced build never only stages: it re-encodes from the unit's sources, or fails on
/// a unit whose paths are broken, whatever the modification times.
pub proof fn lemma_forced_build_rebuilds(
    ps: Seq<String>,
    cache: Option<FileTime>,
    sources: Seq<FileTime>,
)
    ensures
        planned(ps, true, cache, sources) != Ok::<UnitPlan, BuildError>(UnitPlan::Stage),
        selected(ps) matches Ok(c) ==> planned(ps, true, cache, sources) == Ok::<
            UnitPlan,
            BuildError,
        >(UnitPlan::Rebuild(c)),
{
}

/// Without force, an existing cached artifact that is strictly newer than every source
/// is staged as it is, with no re-encode.
pub proof fn lemma_fresh_cache_is_staged(ps: Seq<String>, t: FileTime, sources: Seq<FileTime>)
    requires
        forall|i: int| 0 <= i < sources.len() ==> (#[trigger] sources[i]).earlier(t),
    ensures
        planned(ps, false, Some(t), sources) == Ok::<UnitPlan, BuildError>(UnitPlan::Stage),
{
}

/// `last_tagged` finds a tagged path, and finds none only when no path is tagged.
pub proof fn lemma_last_tagged(ps: Seq<String>, t: Seq<char>)
    ensures
        match last_tagged(ps, t) {
            Some(k) => 0 <= k < ps.len() && tagged(ps[k]@, t),
            None => forall|i: int| 0 <= i < ps.len() ==> !tagged(#[trigger] ps[i]@, t),
        },
    decreases ps.len(),
{
    if ps.len() > 0 {
        let q = ps.drop_last();
        lemma_last_tagged(q, t);
        if !tagged(ps.last()@, t) {
            match last_tagged(q, t) {
                Some(k) => {
                    assert(q[k] == ps[k]);
                },
                None => {
                    assert forall|i: int| 0 <= i < ps.len() implies !tagged(#[trigger] ps[i]@, t) by {
                        if i < ps.len() - 1 {
                            assert(q[i] == ps[i]);
                        }
                    }
                },
            }
        }
    }
}

/// Two path lists of one length with the same paths, where all `t`-tagged paths of `a`
/// are one path, pick the same `t`-tagged path.
proof fn lemma_same_tagged_path(a: Seq<String>, b: Seq<String>, t: Seq<char>)
    requires
        forall|i: int| 0 <= i < a.len() ==> exists|j: int| 0 <= j < b.len() && #[trigger] b[j]@ == (#[trigger] a[i])@,
        forall|j: int| 0 <= j < b.len() ==> exists|i: int| 0 <= i < a.len() && #[trigger] a[i]@ == (#[trigger] b[j])@,
        forall|i: int, k: int|
            0 <= i < a.len() && 0 <= k < a.len() && tagged(#[trigger] a[i]@, t) && tagged(
                #[trigger] a[k]@,
                t,
            ) ==> a[i]@ == a[k]@,
    ensures
        last_tagged(a, t) is Some <==> last_tagged(b, t) is Some,
        last_tagged(a, t) matches Some(ka) ==> last_tagged(b, t) matches Some(kb) ==> a[ka]@
            == b[kb]@,
{
    lemma_last_tagged(a, t);
    lemma_last_tagged(b, t);
    if let Some(ka) = last_tagged(a, t) {
        let j = choose|j: int| 0 <= j < b.len() && #[trigger] b[j]@ == a[ka]@;
        assert(tagged(b[j]@, t));
    }
    if let Some(kb) = last_tagged(b, t) {
        let i = choose|i: int| 0 <= i < a.len() && #[trigger] a[i]@ == b[kb]@;
        assert(tagged(a[i]@, t));
    }
}

/// Pairing sources by tag does not depend on their order: two lists of one length that
/// hold the same paths (one a reordering of the other), with at most one distinct
/// `Flat`-tagged and one distinct `Alpha`-tagged path, pair the same files.
pub proof fn lemma_pairing_order_independent(a: Seq<String>, b: Seq<String>)
    requires
        a.len() == b.len(),
        a.len() <= usize::MAX,
        forall|i: int| 0 <= i < a.len() ==> exists|j: int| 0 <= j < b.len() && #[trigger] b[j]@ == (#[trigger] a[i])@,
        forall|j: int| 0 <= j < b.len() ==> exists|i: int| 0 <= i < a.len() && #[trigger] a[i]@ == (#[trigger] b[j])@,
        forall|i: int, k: int|
            0 <= i < a.len() && 0 <= k < a.len() && tagged(#[trigger] a[i]@, flat_tag())
                && tagged(#[trigger] a[k]@, flat_tag()) ==> a[i]@ == a[k]@,
        forall|i: int, k: int|
            0 <= i < a.len() && 0 <= k < a.len() && tagged(#[trigger] a[i]@, alpha_tag())
                && tagged(#[trigger] a[k]@, alpha_tag()) ==> a[i]@ == a[k]@,
    ensures
        paired_paths(a) == paired_paths(b),
{
    lemma_same_tagged_path(a, b, flat_tag());
    lemma_same_tagged_path(a, b, alpha_tag());
    lemma_last_tagged(a, flat_tag());
    lemma_last_tagged(b, flat_tag());
    lemma_last_tagged(a, alpha_tag());
    lemma_last_tagged(b, alpha_tag());
}

/// The positions that `selected` picks lie inside the list.
pub proof fn lemma_selected_in_range(ps: Seq<String>)
    ensures
        selected(ps) matches Ok(c) ==> c.flat < ps.len() || ps.len() > usize::MAX,
        selected(ps) matches Ok(c) ==> ps.len() <= usize::MAX ==> (c.flat as int) < ps.len()
            && (c.alpha matches Some(x) ==> (x as int) < ps.len()),
{
    lemma_last_tagged(ps, flat_tag());
    lemma_last_tagged(ps, alpha_tag());
}

} // verus!
