use s2_tracts::asset::Asset;
use s2_tracts::install::{install_next, install_start, Cause, InstallAction, InstallEvent};

fn pin() -> Asset {
    Asset {
        raw_bytes: 100,
        raw_sha256: "r".repeat(64),
        archive_bytes: 40,
        archive_sha256: "a".repeat(64),
    }
}

fn run(events: Vec<InstallEvent>) -> Vec<InstallAction> {
    let pin = pin();
    let mut actions = vec![install_start()];
    for e in events {
        let next = install_next(&pin, *actions.last().unwrap(), &e);
        actions.push(next);
    }
    actions
}

use InstallAction::{
    CheckDirectory, Done, Download, Expand, Fail, HashArchive, HashExpanded, HashInstalled,
    HashRecovered, MeasureArchive, MeasureExpanded, MeasureInstalled, OpenInstalled, OpenStaged,
    Place, Recover, Refuse, Stage,
};
use InstallEvent::{Digest, Exists, Failed, Size, Succeeded};

#[test]
fn fresh_install_places_only_verified_data() {
    let actions = run(vec![
        Size(None),
        Exists(false),
        Succeeded,
        Succeeded,
        Size(Some(40)),
        Digest("a".repeat(64)),
        Succeeded,
        Size(Some(100)),
        Digest("r".repeat(64)),
        Succeeded,
        Succeeded,
    ]);
    assert_eq!(
        actions,
        vec![
            MeasureInstalled, CheckDirectory, Stage, Download, MeasureArchive, HashArchive, Expand,
            MeasureExpanded, HashExpanded, OpenStaged, Place, Done
        ]
    );
}

#[test]
fn matching_installed_file_is_reused() {
    let actions = run(vec![Size(Some(100)), Digest("r".repeat(64)), Succeeded]);
    assert_eq!(actions, vec![MeasureInstalled, HashInstalled, OpenInstalled, Done]);
}

#[test]
fn mismatching_directory_is_refused() {
    let actions = run(vec![Size(Some(100)), Digest("x".repeat(64)), Exists(true)]);
    assert_eq!(actions, vec![MeasureInstalled, HashInstalled, CheckDirectory, Refuse]);
    let actions = run(vec![Size(Some(7)), Exists(true)]);
    assert_eq!(actions, vec![MeasureInstalled, CheckDirectory, Refuse]);
}

#[test]
fn mismatching_downloads_are_never_placed() {
    let actions = run(vec![Size(None), Exists(false), Succeeded, Succeeded, Size(Some(41)), Size(None)]);
    assert_eq!(*actions.last().unwrap(), Fail(Cause::ArchiveMismatch));
    let actions = run(vec![
        Size(None),
        Exists(false),
        Succeeded,
        Succeeded,
        Size(Some(40)),
        Digest("a".repeat(64)),
        Succeeded,
        Size(Some(100)),
        Digest("q".repeat(64)),
        Size(None),
    ]);
    assert_eq!(actions[9], Recover(Cause::ExpandedMismatch));
    assert_eq!(*actions.last().unwrap(), Fail(Cause::ExpandedMismatch));
}

#[test]
fn recovery_accepts_a_matching_file_placed_meanwhile() {
    let actions = run(vec![
        Size(None),
        Exists(false),
        Succeeded,
        Failed,
        Size(Some(100)),
        Digest("r".repeat(64)),
    ]);
    assert_eq!(
        &actions[4..],
        &[Recover(Cause::StepError), HashRecovered(Cause::StepError), Done]
    );
    let actions = run(vec![Size(None), Exists(false), Succeeded, Failed, Size(Some(100)), Digest("z".into())]);
    assert_eq!(*actions.last().unwrap(), Fail(Cause::StepError));
}

#[test]
fn errors_before_staging_are_not_recovered() {
    assert_eq!(run(vec![Failed]), vec![MeasureInstalled, Fail(Cause::StepError)]);
    assert_eq!(
        run(vec![Size(None), Exists(false), Failed]),
        vec![MeasureInstalled, CheckDirectory, Stage, Fail(Cause::StepError)]
    );
}
