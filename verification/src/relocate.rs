//! Moving one file into its directory, one filesystem operation at a time.
//!
//! The caller performs each operation and reports how it went; what follows
//! is decided here. A rename that fails because source and destination lie
//! on different devices is followed by a copy, and the source is removed only
//! after that copy has succeeded.

use crate::paths::{file_name, file_name_of, is_same_path, join_path, joined, same_path};
use vstd::prelude::*;

verus! {

/// A filesystem operation for the caller to perform.
#[derive(Clone, Copy, Debug, PartialEq, Eq, Structural)]
pub enum FsAction {
    /// Make the destination directory and every missing directory above it.
    CreateDirAll,
    /// Rename the source to the destination file.
    Rename,
    /// Copy the source's bytes to the destination file.
    Copy,
    /// Remove the source.
    RemoveSource,
}

/// How an operation went.
#[derive(Clone, Copy, Debug, PartialEq, Eq, Structural)]
pub enum FsResult {
    /// It succeeded.
    Done,
    /// It failed because source and destination lie on different devices.
    CrossesDevices,
    /// It failed for another reason.
    Failed,
}

/// How the work on a file ended.
#[derive(Clone, Copy, Debug, PartialEq, Eq, Structural)]
pub enum Outcome {
    /// The destination directory could not be made. Nothing was moved.
    DirectoryFailed,
    /// The source has no file name. Nothing was moved.
    Nameless,
    /// The source is the destination file already. Nothing was moved.
    AlreadyInPlace,
    /// The source was renamed to the destination file.
    Renamed,
    /// The source was copied to the destination file and then removed.
    CopiedAcross,
    /// The rename failed, and not for crossing devices. The source is where
    /// it was.
    RenameFailed,
    /// The copy failed. The source is where it was; what the copy left at
    /// the destination stays there.
    CopyFailed,
    /// The copy succeeded, but the source could not be removed.
    SourceKept,
}

/// Where the work on a file stands.
#[derive(Clone, Copy, Debug, PartialEq, Eq, Structural)]
pub enum Stage {
    /// The destination directory is to be made.
    CreatingDir,
    /// The source is to be renamed.
    Renaming,
    /// The source is to be copied.
    Copying,
    /// The source is to be removed.
    Removing,
    /// Nothing is left to do.
    Finished(Outcome),
}

/// How the source relates to the destination file.
#[derive(Clone, Copy, Debug, PartialEq, Eq, Structural)]
pub enum Placement {
    /// There is no destination file, for want of a file name.
    Nameless,
    /// The source is the destination file, however the two are written.
    InPlace,
    /// The source is another path than the destination file.
    Elsewhere,
}

/// The destination file: the source's name below the destination directory.
pub open spec fn destination_file(dest_dir: Seq<char>, file_name: Option<Seq<char>>) -> Option<
    Seq<char>,
> {
    match file_name {
        Some(name) => Some(joined(dest_dir, name)),
        None => None,
    }
}

/// How `source` relates to the destination file. The two are compared as
/// paths, not as texts.
pub open spec fn placement(source: Seq<char>, dest_file: Option<Seq<char>>) -> Placement {
    match dest_file {
        None => Placement::Nameless,
        Some(file) => if same_path(file, source) {
            Placement::InPlace
        } else {
            Placement::Elsewhere
        },
    }
}

/// The operation that a stage asks for.
pub open spec fn action_of(stage: Stage) -> Option<FsAction> {
    match stage {
        Stage::CreatingDir => Some(FsAction::CreateDirAll),
        Stage::Renaming => Some(FsAction::Rename),
        Stage::Copying => Some(FsAction::Copy),
        Stage::Removing => Some(FsAction::RemoveSource),
        Stage::Finished(_) => None,
    }
}

/// The stage that follows `stage` when its operation went as `result` says.
pub open spec fn next_stage(stage: Stage, result: FsResult, placed: Placement) -> Stage {
    match stage {
        Stage::CreatingDir => match result {
            FsResult::Done => match placed {
                Placement::Nameless => Stage::Finished(Outcome::Nameless),
                Placement::InPlace => Stage::Finished(Outcome::AlreadyInPlace),
                Placement::Elsewhere => Stage::Renaming,
            },
            _ => Stage::Finished(Outcome::DirectoryFailed),
        },
        Stage::Renaming => match result {
            FsResult::Done => Stage::Finished(Outcome::Renamed),
            FsResult::CrossesDevices => Stage::Copying,
            FsResult::Failed => Stage::Finished(Outcome::RenameFailed),
        },
        Stage::Copying => match result {
            FsResult::Done => Stage::Removing,
            _ => Stage::Finished(Outcome::CopyFailed),
        },
        Stage::Removing => match result {
            FsResult::Done => Stage::Finished(Outcome::CopiedAcross),
            _ => Stage::Finished(Outcome::SourceKept),
        },
        Stage::Finished(outcome) => Stage::Finished(outcome),
    }
}

/// The stage reached from `stage` when the operations go as `results` say,
/// one after the other.
pub open spec fn stage_after(stage: Stage, results: Seq<FsResult>, placed: Placement) -> Stage
    decreases results.len(),
{
    if results.len() == 0 {
        stage
    } else {
        stage_after(next_stage(stage, results[0], placed), results.drop_first(), placed)
    }
}

/// How many operations lie behind a stage at least.
pub open spec fn progress(stage: Stage) -> int {
    match stage {
        Stage::CreatingDir => 0,
        Stage::Renaming => 1,
        Stage::Copying => 2,
        Stage::Removing => 3,
        Stage::Finished(_) => 4,
    }
}

/// The source is removed only after a copy that succeeded, copied only after
/// a rename that failed for crossing devices, and renamed only once the
/// directory is there and the destination file is another path.
pub proof fn lemma_each_step_has_its_reason(stage: Stage, result: FsResult, placed: Placement)
    ensures
        next_stage(stage, result, placed) == Stage::Removing ==> stage == Stage::Copying && result
            == FsResult::Done,
        next_stage(stage, result, placed) == Stage::Copying ==> stage == Stage::Renaming && result
            == FsResult::CrossesDevices,
        next_stage(stage, result, placed) == Stage::Renaming ==> stage == Stage::CreatingDir
            && result == FsResult::Done && placed == Placement::Elsewhere,
        next_stage(stage, result, placed) != Stage::CreatingDir,
{
}

/// Once nothing is left to do, no result changes that.
pub proof fn lemma_finished_stays(outcome: Outcome, results: Seq<FsResult>, placed: Placement)
    ensures
        stage_after(Stage::Finished(outcome), results, placed) == Stage::Finished(outcome),
    decreases results.len(),
{
    if results.len() > 0 {
        lemma_finished_stays(outcome, results.drop_first(), placed);
    }
}

/// Every result brings the work forward, so four results finish it.
pub proof fn lemma_run_makes_progress(stage: Stage, results: Seq<FsResult>, placed: Placement)
    ensures
        progress(stage_after(stage, results, placed)) >= progress(stage) + results.len()
            || stage_after(stage, results, placed) is Finished,
        results.len() >= 4 ==> stage_after(stage, results, placed) is Finished,
    decreases results.len(),
{
    if results.len() > 0 {
        lemma_run_makes_progress(next_stage(stage, results[0], placed), results.drop_first(), placed);
    }
}

/// A move across devices: when the directory is made, the rename fails for
/// crossing devices, and the copy and the removal succeed, the work ends
/// with the file copied across and its source removed.
pub proof fn lemma_move_across_devices(results: Seq<FsResult>)
    requires
        results.len() >= 4,
        results[0] == FsResult::Done,
        results[1] == FsResult::CrossesDevices,
        results[2] == FsResult::Done,
        results[3] == FsResult::Done,
    ensures
        stage_after(Stage::CreatingDir, results, Placement::Elsewhere) == Stage::Finished(
            Outcome::CopiedAcross,
        ),
{
    let placed = Placement::Elsewhere;
    let after_dir = results.drop_first();
    let after_rename = after_dir.drop_first();
    let after_copy = after_rename.drop_first();
    let rest = after_copy.drop_first();
    assert(stage_after(Stage::CreatingDir, results, placed) == stage_after(
        Stage::Renaming,
        after_dir,
        placed,
    ));
    assert(stage_after(Stage::Renaming, after_dir, placed) == stage_after(
        Stage::Copying,
        after_rename,
        placed,
    ));
    assert(stage_after(Stage::Copying, after_rename, placed) == stage_after(
        Stage::Removing,
        after_copy,
        placed,
    ));
    assert(stage_after(Stage::Removing, after_copy, placed) == stage_after(
        Stage::Finished(Outcome::CopiedAcross),
        rest,
        placed,
    ));
    lemma_finished_stays(Outcome::CopiedAcross, rest, placed);
}

/// A file that is where it belongs is left there: once the directory is
/// made, nothing is left to do, whatever is reported afterwards.
pub proof fn lemma_file_in_place_is_left(results: Seq<FsResult>)
    requires
        results.len() >= 1,
        results[0] == FsResult::Done,
    ensures
        stage_after(Stage::CreatingDir, results, Placement::InPlace) == Stage::Finished(
            Outcome::AlreadyInPlace,
        ),
{
    lemma_finished_stays(Outcome::AlreadyInPlace, results.drop_first(), Placement::InPlace);
}

/// What a [`Relocation`] holds.
pub struct RelocationView {
    pub source: Seq<char>,
    pub dest_dir: Seq<char>,
    pub dest_file: Option<Seq<char>>,
    pub stage: Stage,
}

/// The work of moving one file into its directory.
pub struct Relocation {
    source: String,
    dest_dir: String,
    dest_file: Option<String>,
    stage: Stage,
}

impl View for Relocation {
    type V = RelocationView;

    closed spec fn view(&self) -> RelocationView {
        RelocationView {
            source: self.source@,
            dest_dir: self.dest_dir@,
            dest_file: match self.dest_file {
                Some(file) => Some(file@),
                None => None,
            },
            stage: self.stage,
        }
    }
}

impl RelocationView {
    /// How the source relates to the destination file.
    pub open spec fn placement(self) -> Placement {
        placement(self.source, self.dest_file)
    }

    /// Whether the stage is in order: a rename, a copy or a removal is asked
    /// for only where the destination file is another path than the source.
    pub open spec fn stage_in_order(self) -> bool {
        self.stage == Stage::Renaming || self.stage == Stage::Copying || self.stage
            == Stage::Removing ==> self.placement() == Placement::Elsewhere
    }
}

impl Relocation {
    #[verifier::type_invariant]
    closed spec fn well_formed(self) -> bool {
        self@.stage_in_order()
    }

    /// The work of moving `source` into `dest_dir` under the name it has. It
    /// starts with making the directory.
    pub fn new(source: &str, dest_dir: &str) -> (work: Relocation)
        ensures
            work@.source == source@,
            work@.dest_dir == dest_dir@,
            work@.dest_file == destination_file(dest_dir@, file_name_of(source@)),
            work@.stage == Stage::CreatingDir,
    {
        let dest_file = match file_name(source) {
            Some(name) => Some(join_path(dest_dir, name.as_str())),
            None => None,
        };
        Relocation {
            source: source.to_owned(),
            dest_dir: dest_dir.to_owned(),
            dest_file,
            stage: Stage::CreatingDir,
        }
    }

    /// The file to move.
    pub fn source(&self) -> (path: &str)
        ensures
            path@ == self@.source,
    {
        self.source.as_str()
    }

    /// The directory to move it into.
    pub fn dest_dir(&self) -> (path: &str)
        ensures
            path@ == self@.dest_dir,
    {
        self.dest_dir.as_str()
    }

    /// The path to move it to, if the source has a file name.
    pub fn dest_file(&self) -> (path: Option<&str>)
        ensures
            path is Some <==> self@.dest_file is Some,
            path matches Some(file) ==> self@.dest_file == Some(file@),
    {
        match &self.dest_file {
            Some(file) => Some(file.as_str()),
            None => None,
        }
    }

    /// Where the work stands.
    pub fn stage(&self) -> (stage: Stage)
        ensures
            stage == self@.stage,
            self@.stage_in_order(),
    {
        proof {
            use_type_invariant(self);
        }
        self.stage
    }

    /// The operation to perform next, if any is left.
    pub fn next_action(&self) -> (action: Option<FsAction>)
        ensures
            action == action_of(self@.stage),
            action is Some && action != Some(FsAction::CreateDirAll) ==> self@.placement()
                == Placement::Elsewhere,
    {
        proof {
            use_type_invariant(self);
        }
        match self.stage {
            Stage::CreatingDir => Some(FsAction::CreateDirAll),
            Stage::Renaming => Some(FsAction::Rename),
            Stage::Copying => Some(FsAction::Copy),
            Stage::Removing => Some(FsAction::RemoveSource),
            Stage::Finished(_) => None,
        }
    }

    /// How the work ended, once nothing is left to do.
    pub fn outcome(&self) -> (outcome: Option<Outcome>)
        ensures
            outcome == match self@.stage {
                Stage::Finished(o) => Some(o),
                _ => None,
            },
    {
        match self.stage {
            Stage::Finished(o) => Some(o),
            _ => None,
        }
    }

    /// Takes in how the operation of [`Relocation::next_action`] went.
    pub fn record(&mut self, result: FsResult)
        ensures
            final(self)@.stage == next_stage(old(self)@.stage, result, old(self)@.placement()),
            final(self)@.source == old(self)@.source,
            final(self)@.dest_dir == old(self)@.dest_dir,
            final(self)@.dest_file == old(self)@.dest_file,
    {
        proof {
            use_type_invariant(&*self);
        }
        let next = match self.stage {
            Stage::CreatingDir => match result {
                FsResult::Done => match &self.dest_file {
                    None => Stage::Finished(Outcome::Nameless),
                    Some(file) => if is_same_path(file.as_str(), self.source.as_str()) {
                        Stage::Finished(Outcome::AlreadyInPlace)
                    } else {
                        Stage::Renaming
                    },
                },
                _ => Stage::Finished(Outcome::DirectoryFailed),
            },
            Stage::Renaming => match result {
                FsResult::Done => Stage::Finished(Outcome::Renamed),
                FsResult::CrossesDevices => Stage::Copying,
                FsResult::Failed => Stage::Finished(Outcome::RenameFailed),
            },
            Stage::Copying => match result {
                FsResult::Done => Stage::Removing,
                _ => Stage::Finished(Outcome::CopyFailed),
            },
            Stage::Removing => match result {
                FsResult::Done => Stage::Finished(Outcome::CopiedAcross),
                _ => Stage::Finished(Outcome::SourceKept),
            },
            Stage::Finished(outcome) => Stage::Finished(outcome),
        };
        self.stage = next;
    }
}

} // verus!
