//! From a file and its date to the work of moving it.

use crate::calendar::{view_of, CalendarDate, Ymd};
use crate::destination::{destination_dir, resolve_destination};
use crate::fallback::name_then_times;
use crate::labels::MonthNames;
use crate::paths::{file_name, file_name_of, is_plain_name, joined, lemma_file_name_of_joined};
use crate::pattern::{
    extracted_date, get_date_from_filename, lemma_no_occurrence_no_date, DatePattern,
};
use crate::relocate::{
    action_of, destination_file, next_stage, placement, FsResult, Outcome, Placement, Relocation,
    Stage,
};
use vstd::prelude::*;

verus! {

/// The date that the name at the end of a path carries. The directories
/// above it are never searched.
pub open spec fn date_of_path(path: Seq<char>) -> Option<Ymd> {
    match file_name_of(path) {
        Some(name) => extracted_date(name),
        None => None,
    }
}

/// The date that the file name of a path carries, if the path has a file
/// name and the name carries a date.
pub fn date_in_path(path: &str) -> (date: Option<CalendarDate>)
    ensures
        view_of(date) == date_of_path(path@),
{
    match file_name(path) {
        Some(name) => get_date_from_filename(name.as_str()),
        None => None,
    }
}

/// The work of sorting one file: moving `file_path` into the directory that
/// `date` maps to, under the name it has.
pub fn plan_file(
    file_path: &str,
    date: Option<CalendarDate>,
    dest_root: &str,
    no_date_root: &str,
    names: &MonthNames,
) -> (work: Relocation)
    ensures
        work@.source == file_path@,
        work@.dest_dir == destination_dir(view_of(date), dest_root@, no_date_root@, *names),
        work@.dest_file == destination_file(work@.dest_dir, file_name_of(file_path@)),
        work@.stage == Stage::CreatingDir,
{
    let dest_dir = resolve_destination(date, dest_root, no_date_root, names);
    Relocation::new(file_path, dest_dir.as_str())
}

/// A file whose name holds neither form of a date is sorted by its times.
pub proof fn lemma_name_without_date_leaves_it_to_times(name: Seq<char>, from_times: Option<Ymd>)
    requires
        forall|at: int| !DatePattern::Separated.matches_at(name, at),
        forall|at: int| !DatePattern::Compact.matches_at(name, at),
    ensures
        extracted_date(name) is None,
        name_then_times(extracted_date(name), from_times) == from_times,
{
    lemma_no_occurrence_no_date(name);
}

/// Sorting twice moves nothing the second time. A file that lies in the
/// directory of its date under its own name is where the plan would put it:
/// once that directory is seen to be there, nothing is left to do, and no
/// rename, copy or removal is asked for.
pub proof fn lemma_sorted_file_is_in_place(
    file_name: Seq<char>,
    date: Option<Ymd>,
    dest_root: Seq<char>,
    no_date_root: Seq<char>,
    names: MonthNames,
)
    requires
        is_plain_name(file_name),
    ensures
        ({
            let dest_dir = destination_dir(date, dest_root, no_date_root, names);
            let sorted_path = joined(dest_dir, file_name);
            let placed = placement(
                sorted_path,
                destination_file(dest_dir, file_name_of(sorted_path)),
            );
            &&& placed == Placement::InPlace
            &&& next_stage(Stage::CreatingDir, FsResult::Done, placed) == Stage::Finished(
                Outcome::AlreadyInPlace,
            )
            &&& action_of(next_stage(Stage::CreatingDir, FsResult::Done, placed)) is None
        }),
{
    lemma_file_name_of_joined(
        destination_dir(date, dest_root, no_date_root, names),
        file_name,
    );
}

} // verus!
