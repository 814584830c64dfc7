use gbt::builder::artifact_file_name;
use gbt::error::BuildError;
use gbt::schedule::{batch_outcome, Registry, RunState};
use gbt::staleness::FileTime;
use gbt::text::{contains_text, has_tag};
use gbt::unit::{plan_unit, select_channels, ChannelSources, TexEncoding, TexUnit, UnitPlan};

fn unit(paths: &[&str]) -> TexUnit {
    TexUnit {
        encoding: TexEncoding::Bc7Srgb,
        source_paths: paths.iter().map(|p| p.to_string()).collect(),
    }
}

fn at(seconds: i64) -> FileTime {
    FileTime { seconds, nanos: 0 }
}

#[test]
fn tags_are_read_from_the_file_name() {
    assert!(has_tag("Textures/XFlat.png", "Flat"));
    assert!(!has_tag("Flat/X.png", "Flat"));
    assert!(has_tag("C:\\Mods\\Hand_DiffuseAlpha.png", "Alpha"));
    assert!(!has_tag("Alpha\\X.png", "Alpha"));
    assert!(!has_tag("", "Flat"));
    assert!(contains_text("Body_LightMap", "LightMap"));
    assert!(!contains_text("Body_Normal", "LightMap"));
}

#[test]
fn pairing_does_not_depend_on_order() {
    let a = unit(&["Textures/XFlat.png", "Textures/XAlpha.png"]);
    let b = unit(&["Textures/XAlpha.png", "Textures/XFlat.png"]);
    let ca = select_channels(&a.source_paths).unwrap();
    let cb = select_channels(&b.source_paths).unwrap();
    assert_eq!(ca, ChannelSources { flat: 0, alpha: Some(1) });
    assert_eq!(cb, ChannelSources { flat: 1, alpha: Some(0) });
    assert_eq!(a.source_paths[ca.flat], b.source_paths[cb.flat]);
    assert_eq!(
        a.source_paths[ca.alpha.unwrap()],
        b.source_paths[cb.alpha.unwrap()]
    );
}

#[test]
fn single_flat_path_has_no_alpha() {
    let u = unit(&["Textures/Body_NormalMapFlat.png"]);
    assert_eq!(
        select_channels(&u.source_paths),
        Ok(ChannelSources { flat: 0, alpha: None })
    );
}

#[test]
fn missing_alpha_among_several_paths_fails() {
    let u = unit(&["Textures/XFlat.png", "Textures/XOther.png"]);
    assert_eq!(select_channels(&u.source_paths), Err(BuildError::MissingAlphaChannel));
}

#[test]
fn forced_build_rebuilds_a_fresh_unit() {
    let u = unit(&["XAlpha.png", "XFlat.png"]);
    let plan = plan_unit(&u, true, Some(at(100)), &vec![at(1), at(2)]);
    assert_eq!(plan, Ok(UnitPlan::Rebuild(ChannelSources { flat: 1, alpha: Some(0) })));
}

#[test]
fn fresh_cache_is_only_staged() {
    let u = unit(&["XAlpha.png", "XFlat.png"]);
    assert_eq!(plan_unit(&u, false, Some(at(100)), &vec![at(1), at(2)]), Ok(UnitPlan::Stage));
}

#[test]
fn hand_diffuse_builds_once_then_stages() {
    let u = unit(&["Textures/Hand_DiffuseAlpha.png", "Textures/Hand_DiffuseFlat.png"]);
    let t0 = at(1_000);
    let sources = vec![t0, t0];
    let first = plan_unit(&u, false, None, &sources);
    assert_eq!(first, Ok(UnitPlan::Rebuild(ChannelSources { flat: 1, alpha: Some(0) })));
    assert_eq!(artifact_file_name("Hand_Diffuse"), "Hand_Diffuse.dds");
    // The cache artifact written by the first run is newer than both sources.
    let second = plan_unit(&u, false, Some(at(1_001)), &sources);
    assert_eq!(second, Ok(UnitPlan::Stage));
}

#[test]
fn unit_without_flat_fails_its_batch() {
    let broken = unit(&["Textures/XAlpha.png", "Textures/XOther.png"]);
    let good = unit(&["Textures/YAlpha.png", "Textures/YFlat.png"]);
    let results: Vec<Result<(), BuildError>> = vec![
        plan_unit(&good, false, None, &vec![at(1), at(1)]).map(|_| ()),
        plan_unit(&broken, false, None, &vec![at(1), at(1)]).map(|_| ()),
    ];
    assert_eq!(results[1], Err(BuildError::MissingFlatChannel));
    assert_eq!(batch_outcome(&results), Err(BuildError::MissingFlatChannel));
    assert_eq!(RunState::start().next(false), RunState::Done(false));
}

#[test]
fn batch_reports_first_failure() {
    let results = vec![Ok(()), Err(BuildError::DecodeFailure), Err(BuildError::IoFailure)];
    assert_eq!(batch_outcome(&results), Err(BuildError::DecodeFailure));
    assert_eq!(batch_outcome(&vec![Ok(()), Ok(())]), Ok(()));
    assert_eq!(batch_outcome(&vec![]), Ok(()));
}

#[test]
fn run_needs_both_registries() {
    let s = RunState::start();
    assert_eq!(s, RunState::Building(Registry::Model));
    let s = s.next(true);
    assert_eq!(s, RunState::Building(Registry::TextureMod));
    assert_eq!(s.next(true), RunState::Done(true));
    assert_eq!(s.next(false), RunState::Done(false));
}
