//! Installing a vintage's data as a sequence of decisions. The program
//! performs each action (file system, checksum tool, download, expansion,
//! opening the dataset) and reports what happened; this step function says
//! what to do next. A file is only ever placed after the archive and the
//! expanded file matched their pinned sizes and SHA-256 digests and the
//! expanded dataset opened.

use vstd::prelude::*;
use vstd::string::*;
use crate::asset::Asset;

verus! {

/// Why an installation is being recovered or has failed.
#[derive(Debug, Clone, Copy, PartialEq, Eq)]
pub enum Cause {
    /// The failing step's own error.
    StepError,
    /// The downloaded archive does not match its pin.
    ArchiveMismatch,
    /// The expanded dataset does not match its pin.
    ExpandedMismatch,
}

/// What to do next.
#[derive(Debug, Clone, Copy, PartialEq, Eq)]
pub enum InstallAction {
    /// Report the size of the installed file, `None` when it is not a file.
    MeasureInstalled,
    /// Report the digest of the installed file.
    HashInstalled,
    /// Open the installed dataset.
    OpenInstalled,
    /// Report whether the data directory exists.
    CheckDirectory,
    /// Create the parent directory and a private staging directory.
    Stage,
    /// Download the archive into the staging directory.
    Download,
    /// Report the archive's size.
    MeasureArchive,
    /// Report the archive's digest.
    HashArchive,
    /// Expand the archive into the staged dataset.
    Expand,
    /// Report the staged dataset's size.
    MeasureExpanded,
    /// Report the staged dataset's digest.
    HashExpanded,
    /// Open the staged dataset.
    OpenStaged,
    /// Remove the archive and rename the staging directory into place.
    Place,
    /// Remove the staging directory, then report the size of the installed
    /// file (`None` when it is not a file).
    Recover(Cause),
    /// Report the digest of a file another installation placed.
    HashRecovered(Cause),
    /// The data is installed.
    Done,
    /// The data directory exists but does not hold the pinned data.
    Refuse,
    /// Fail for the given cause.
    Fail(Cause),
}

/// What happened when the last action was performed.
#[derive(Debug, Clone)]
pub enum InstallEvent {
    Size(Option<u64>),
    Digest(String),
    Succeeded,
    Failed,
    Exists(bool),
}

/// The first action of an installation.
pub fn install_start() -> (a: InstallAction)
    ensures
        a == InstallAction::MeasureInstalled,
{
    InstallAction::MeasureInstalled
}

/// The next action after `performed` reported `event`, for the pinned asset
/// `pin`. Steps before staging fail with their own error; failures after
/// staging recover, and recovery succeeds only when a file matching the pin
/// was placed meanwhile.
pub open spec fn next_action(pin: Asset, performed: InstallAction, event: InstallEvent) -> InstallAction {
    match performed {
        InstallAction::MeasureInstalled => match event {
            InstallEvent::Size(Some(n)) => if n == pin.raw_bytes {
                InstallAction::HashInstalled
            } else {
                InstallAction::CheckDirectory
            },
            InstallEvent::Size(None) => InstallAction::CheckDirectory,
            _ => InstallAction::Fail(Cause::StepError),
        },
        InstallAction::HashInstalled => match event {
            InstallEvent::Digest(d) => if d@ == pin.raw_sha256@ {
                InstallAction::OpenInstalled
            } else {
                InstallAction::CheckDirectory
            },
            _ => InstallAction::Fail(Cause::StepError),
        },
        InstallAction::OpenInstalled => match event {
            InstallEvent::Succeeded => InstallAction::Done,
            _ => InstallAction::Fail(Cause::StepError),
        },
        InstallAction::CheckDirectory => match event {
            InstallEvent::Exists(true) => InstallAction::Refuse,
            InstallEvent::Exists(false) => InstallAction::Stage,
            _ => InstallAction::Fail(Cause::StepError),
        },
        InstallAction::Stage => match event {
            InstallEvent::Succeeded => InstallAction::Download,
            _ => InstallAction::Fail(Cause::StepError),
        },
        InstallAction::Download => match event {
            InstallEvent::Succeeded => InstallAction::MeasureArchive,
            _ => InstallAction::Recover(Cause::StepError),
        },
        InstallAction::MeasureArchive => match event {
            InstallEvent::Size(s) => if s == Some(pin.archive_bytes) {
                InstallAction::HashArchive
            } else {
                InstallAction::Recover(Cause::ArchiveMismatch)
            },
            _ => InstallAction::Recover(Cause::StepError),
        },
        InstallAction::HashArchive => match event {
            InstallEvent::Digest(d) => if d@ == pin.archive_sha256@ {
                InstallAction::Expand
            } else {
                InstallAction::Recover(Cause::ArchiveMismatch)
            },
            _ => InstallAction::Recover(Cause::StepError),
        },
        InstallAction::Expand => match event {
            InstallEvent::Succeeded => InstallAction::MeasureExpanded,
            _ => InstallAction::Recover(Cause::StepError),
        },
        InstallAction::MeasureExpanded => match event {
            InstallEvent::Size(s) => if s == Some(pin.raw_bytes) {
                InstallAction::HashExpanded
            } else {
                InstallAction::Recover(Cause::ExpandedMismatch)
            },
            _ => InstallAction::Recover(Cause::StepError),
        },
        InstallAction::HashExpanded => match event {
            InstallEvent::Digest(d) => if d@ == pin.raw_sha256@ {
                InstallAction::OpenStaged
            } else {
                InstallAction::Recover(Cause::ExpandedMismatch)
            },
            _ => InstallAction::Recover(Cause::StepError),
        },
        InstallAction::OpenStaged => match event {
            InstallEvent::Succeeded => InstallAction::Place,
            _ => InstallAction::Recover(Cause::StepError),
        },
        InstallAction::Place => match event {
            InstallEvent::Succeeded => InstallAction::Done,
            _ => InstallAction::Recover(Cause::StepError),
        },
        InstallAction::Recover(cause) => match event {
            InstallEvent::Size(Some(n)) => if n == pin.raw_bytes {
                InstallAction::HashRecovered(cause)
            } else {
                InstallAction::Fail(cause)
            },
            InstallEvent::Size(None) => InstallAction::Fail(cause),
            _ => InstallAction::Fail(Cause::StepError),
        },
        InstallAction::HashRecovered(cause) => match event {
            InstallEvent::Digest(d) => if d@ == pin.raw_sha256@ {
                InstallAction::Done
            } else {
                InstallAction::Fail(cause)
            },
            _ => InstallAction::Fail(Cause::StepError),
        },
        InstallAction::Done => InstallAction::Done,
        InstallAction::Refuse => InstallAction::Refuse,
        InstallAction::Fail(c) => InstallAction::Fail(c),
    }
}

/// Decides the next installation action.
pub fn install_next(pin: &Asset, performed: InstallAction, event: &InstallEvent) -> (next: InstallAction)
    ensures
        next == next_action(*pin, performed, *event),
{
    match performed {
        InstallAction::MeasureInstalled => match event {
            InstallEvent::Size(Some(n)) => if *n == pin.raw_bytes {
                InstallAction::HashInstalled
            } else {
                InstallAction::CheckDirectory
            },
            InstallEvent::Size(None) => InstallAction::CheckDirectory,
            _ => InstallAction::Fail(Cause::StepError),
        },
        InstallAction::HashInstalled => match event {
            InstallEvent::Digest(d) => if *d == pin.raw_sha256 {
                InstallAction::OpenInstalled
            } else {
                InstallAction::CheckDirectory
            },
            _ => InstallAction::Fail(Cause::StepError),
        },
        InstallAction::OpenInstalled => match event {
            InstallEvent::Succeeded => InstallAction::Done,
            _ => InstallAction::Fail(Cause::StepError),
        },
        InstallAction::CheckDirectory => match event {
            InstallEvent::Exists(true) => InstallAction::Refuse,
            InstallEvent::Exists(false) => InstallAction::Stage,
            _ => InstallAction::Fail(Cause::StepError),
        },
        InstallAction::Stage => match event {
            InstallEvent::Succeeded => InstallAction::Download,
            _ => InstallAction::Fail(Cause::StepError),
        },
        InstallAction::Download => match event {
            InstallEvent::Succeeded => InstallAction::MeasureArchive,
            _ => InstallAction::Recover(Cause::StepError),
        },
        InstallAction::MeasureArchive => match event {
            InstallEvent::Size(s) => if *s == Some(pin.archive_bytes) {
                InstallAction::HashArchive
            } else {
                InstallAction::Recover(Cause::ArchiveMismatch)
            },
            _ => InstallAction::Recover(Cause::StepError),
        },
        InstallAction::HashArchive => match event {
            InstallEvent::Digest(d) => if *d == pin.archive_sha256 {
                InstallAction::Expand
            } else {
                InstallAction::Recover(Cause::ArchiveMismatch)
            },
            _ => InstallAction::Recover(Cause::StepError),
        },
        InstallAction::Expand => match event {
            InstallEvent::Succeeded => InstallAction::MeasureExpanded,
            _ => InstallAction::Recover(Cause::StepError),
        },
        InstallAction::MeasureExpanded => match event {
            InstallEvent::Size(s) => if *s == Some(pin.raw_bytes) {
                InstallAction::HashExpanded
            } else {
                InstallAction::Recover(Cause::ExpandedMismatch)
            },
            _ => InstallAction::Recover(Cause::StepError),
        },
        InstallAction::HashExpanded => match event {
            InstallEvent::Digest(d) => if *d == pin.raw_sha256 {
                InstallAction::OpenStaged
            } else {
                InstallAction::Recover(Cause::ExpandedMismatch)
            },
            _ => InstallAction::Recover(Cause::StepError),
        },
        InstallAction::OpenStaged => match event {
            InstallEvent::Succeeded => InstallAction::Place,
            _ => InstallAction::Recover(Cause::StepError),
        },
        InstallAction::Place => match event {
            InstallEvent::Succeeded => InstallAction::Done,
            _ => InstallAction::Recover(Cause::StepError),
        },
        InstallAction::Recover(cause) => match event {
            InstallEvent::Size(Some(n)) => if *n == pin.raw_bytes {
                InstallAction::HashRecovered(cause)
            } else {
                InstallAction::Fail(cause)
            },
            InstallEvent::Size(None) => InstallAction::Fail(cause),
            _ => InstallAction::Fail(Cause::StepError),
        },
        InstallAction::HashRecovered(cause) => match event {
            InstallEvent::Digest(d) => if *d == pin.raw_sha256 {
                InstallAction::Done
            } else {
                InstallAction::Fail(cause)
            },
            _ => InstallAction::Fail(Cause::StepError),
        },
        InstallAction::Done => InstallAction::Done,
        InstallAction::Refuse => InstallAction::Refuse,
        InstallAction::Fail(c) => InstallAction::Fail(c),
    }
}


/// A run of an installation: it starts by measuring the installed file and
/// each action is the one decided after the previous action's event.
pub open spec fn is_install_run(pin: Asset, run: Seq<(InstallAction, InstallEvent)>) -> bool {
    &&& run.len() > 0
    &&& run[0].0 == InstallAction::MeasureInstalled
    &&& forall|i: int| 0 < i < run.len() ==> #[trigger] follows(pin, run, i)
}

/// Action `i` of the run is the one decided after action `i - 1`.
pub open spec fn follows(pin: Asset, run: Seq<(InstallAction, InstallEvent)>, i: int) -> bool {
    run[i].0 == next_action(pin, run[i - 1].0, run[i - 1].1)
}

/// The only ways into the steps that lead to placing data.
pub proof fn lemma_placement_predecessors(pin: Asset, a: InstallAction, e: InstallEvent)
    ensures
        next_action(pin, a, e) == InstallAction::Place ==> a == InstallAction::OpenStaged && e
            == InstallEvent::Succeeded,
        next_action(pin, a, e) == InstallAction::OpenStaged ==> a == InstallAction::HashExpanded
            && digest_is(e, pin.raw_sha256@),
        next_action(pin, a, e) == InstallAction::HashExpanded ==> a == InstallAction::MeasureExpanded
            && e == InstallEvent::Size(Some(pin.raw_bytes)),
        next_action(pin, a, e) == InstallAction::MeasureExpanded ==> a == InstallAction::Expand && e
            == InstallEvent::Succeeded,
        next_action(pin, a, e) == InstallAction::Expand ==> a == InstallAction::HashArchive
            && digest_is(e, pin.archive_sha256@),
        next_action(pin, a, e) == InstallAction::HashArchive ==> a == InstallAction::MeasureArchive
            && e == InstallEvent::Size(Some(pin.archive_bytes)),
{
}

/// The event is a digest equal to `sha`.
pub open spec fn digest_is(e: InstallEvent, sha: Seq<char>) -> bool {
    e matches InstallEvent::Digest(d) && d@ == sha
}

/// Nothing unverified is ever placed: in every run, the data is placed only
/// right after the archive matched its pinned size and digest, was
/// expanded, the expanded dataset matched its pinned size and digest, and
/// the staged dataset opened.
pub proof fn lemma_place_only_verified(pin: Asset, run: Seq<(InstallAction, InstallEvent)>, k: int)
    requires
        is_install_run(pin, run),
        0 <= k < run.len(),
        run[k].0 == InstallAction::Place,
    ensures
        k >= 6,
        run[k - 6].0 == InstallAction::MeasureArchive && run[k - 6].1 == InstallEvent::Size(Some(pin.archive_bytes)),
        run[k - 5].0 == InstallAction::HashArchive && digest_is(run[k - 5].1, pin.archive_sha256@),
        run[k - 4].0 == InstallAction::Expand && run[k - 4].1 == InstallEvent::Succeeded,
        run[k - 3].0 == InstallAction::MeasureExpanded && run[k - 3].1 == InstallEvent::Size(Some(pin.raw_bytes)),
        run[k - 2].0 == InstallAction::HashExpanded && digest_is(run[k - 2].1, pin.raw_sha256@),
        run[k - 1].0 == InstallAction::OpenStaged && run[k - 1].1 == InstallEvent::Succeeded,
{
    assert(k != 0);
    assert(follows(pin, run, k - 0));
    lemma_placement_predecessors(pin, run[k - 1].0, run[k - 1].1);
    assert(run[k - 1].0 == InstallAction::OpenStaged);
    assert(k - 1 != 0);
    assert(follows(pin, run, k - 1));
    lemma_placement_predecessors(pin, run[k - 2].0, run[k - 2].1);
    assert(run[k - 2].0 == InstallAction::HashExpanded);
    assert(k - 2 != 0);
    assert(follows(pin, run, k - 2));
    lemma_placement_predecessors(pin, run[k - 3].0, run[k - 3].1);
    assert(run[k - 3].0 == InstallAction::MeasureExpanded);
    assert(k - 3 != 0);
    assert(follows(pin, run, k - 3));
    lemma_placement_predecessors(pin, run[k - 4].0, run[k - 4].1);
    assert(run[k - 4].0 == InstallAction::Expand);
    assert(k - 4 != 0);
    assert(follows(pin, run, k - 4));
    lemma_placement_predecessors(pin, run[k - 5].0, run[k - 5].1);
    assert(run[k - 5].0 == InstallAction::HashArchive);
    assert(k - 5 != 0);
    assert(follows(pin, run, k - 5));
    lemma_placement_predecessors(pin, run[k - 6].0, run[k - 6].1);
}

/// An installation finishes only with the pinned data in place: through an
/// installed file that matched its pin and opened, through placing the
/// verified staged data, or through a file another installation placed
/// that matches the pin.
pub proof fn lemma_done_only_with_pinned_data(pin: Asset, a: InstallAction, e: InstallEvent)
    requires
        next_action(pin, a, e) == InstallAction::Done,
        a != InstallAction::Done,
    ensures
        (a == InstallAction::OpenInstalled && e == InstallEvent::Succeeded)
            || (a == InstallAction::Place && e == InstallEvent::Succeeded)
            || ((a matches InstallAction::HashRecovered(_)) && digest_is(e, pin.raw_sha256@)),
{
}

/// An installed file is reused only when its size and digest match the pin,
/// and a directory is refused only when it exists and that did not hold.
pub proof fn lemma_reuse_and_refusal(pin: Asset, a: InstallAction, e: InstallEvent)
    ensures
        next_action(pin, a, e) == InstallAction::OpenInstalled ==> a == InstallAction::HashInstalled
            && digest_is(e, pin.raw_sha256@),
        next_action(pin, a, e) == InstallAction::HashInstalled ==> a == InstallAction::MeasureInstalled
            && e == InstallEvent::Size(Some(pin.raw_bytes)),
        next_action(pin, a, e) == InstallAction::Refuse && a != InstallAction::Refuse ==> a
            == InstallAction::CheckDirectory && e == InstallEvent::Exists(true),
        next_action(pin, a, e) == InstallAction::CheckDirectory ==> (a == InstallAction::MeasureInstalled
            || a == InstallAction::HashInstalled),
{
}

} // verus!
