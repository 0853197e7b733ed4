use date_sorter::calendar::CalendarDate;
use date_sorter::fallback::{date_for_file, get_date_from_filesystem, Timestamp};
use date_sorter::labels::MonthNames;
use date_sorter::paths::join_path;
use date_sorter::pipeline::{date_in_path, plan_file};
use date_sorter::relocate::{FsAction, FsResult, Outcome};
use date_sorter::traverse::{EntryAction, EntryKind, Traverser};
use std::collections::{BTreeMap, BTreeSet};

/// A filesystem in memory. A path below one of `mounts` lies on another
/// device than the rest.
struct Disk {
    dirs: BTreeSet<String>,
    files: BTreeMap<String, String>,
    modified: BTreeMap<String, Timestamp>,
    mounts: Vec<String>,
    /// Seconds that the local time of the disk's machine is ahead of UTC.
    offset: i32,
    copies_fail: bool,
    removals_fail: bool,
    copies: u32,
    renames: u32,
}

impl Disk {
    fn new() -> Disk {
        Disk {
            dirs: BTreeSet::new(),
            files: BTreeMap::new(),
            modified: BTreeMap::new(),
            mounts: Vec::new(),
            offset: 0,
            copies_fail: false,
            removals_fail: false,
            copies: 0,
            renames: 0,
        }
    }

    fn parent(path: &str) -> Option<&str> {
        let cut = path.rfind('/')?;
        if cut == 0 {
            if path.len() > 1 {
                Some("/")
            } else {
                None
            }
        } else {
            Some(&path[..cut])
        }
    }

    fn device(&self, path: &str) -> usize {
        let mut best = 0;
        let mut length = 0;
        for (index, mount) in self.mounts.iter().enumerate() {
            let inside = path == mount || path.starts_with(&format!("{}/", mount));
            if inside && mount.len() >= length {
                best = index + 1;
                length = mount.len();
            }
        }
        best
    }

    fn create_dir_all(&mut self, path: &str) -> FsResult {
        let mut above = Some(path);
        while let Some(dir) = above {
            if self.files.contains_key(dir) {
                return FsResult::Failed;
            }
            above = Disk::parent(dir);
        }
        let mut current = Some(path);
        while let Some(dir) = current {
            self.dirs.insert(dir.to_string());
            current = Disk::parent(dir);
        }
        FsResult::Done
    }

    fn add_file(&mut self, path: &str, content: &str) {
        let parent = Disk::parent(path).unwrap().to_string();
        self.create_dir_all(&parent);
        self.files.insert(path.to_string(), content.to_string());
    }

    fn rename(&mut self, from: &str, to: &str) -> FsResult {
        if !self.files.contains_key(from) || self.dirs.contains(to) {
            return FsResult::Failed;
        }
        if self.device(from) != self.device(to) {
            return FsResult::CrossesDevices;
        }
        self.renames += 1;
        let content = self.files.remove(from).unwrap();
        self.files.insert(to.to_string(), content);
        if let Some(time) = self.modified.remove(from) {
            self.modified.insert(to.to_string(), time);
        }
        FsResult::Done
    }

    fn copy(&mut self, from: &str, to: &str) -> FsResult {
        if self.copies_fail || self.dirs.contains(to) {
            return FsResult::Failed;
        }
        match self.files.get(from).cloned() {
            Some(content) => {
                self.copies += 1;
                self.files.insert(to.to_string(), content);
                FsResult::Done
            }
            None => FsResult::Failed,
        }
    }

    fn remove(&mut self, path: &str) -> FsResult {
        if self.removals_fail {
            return FsResult::Failed;
        }
        match self.files.remove(path) {
            Some(_) => FsResult::Done,
            None => FsResult::Failed,
        }
    }

    fn list(&self, dir: &str) -> Vec<(String, EntryKind)> {
        let mut entries = Vec::new();
        for path in self.dirs.iter() {
            if Disk::parent(path) == Some(dir) {
                entries.push((path.clone(), EntryKind::classify(true, false)));
            }
        }
        for path in self.files.keys() {
            if Disk::parent(path) == Some(dir) {
                entries.push((path.clone(), EntryKind::classify(false, true)));
            }
        }
        entries
    }

    fn paths_of_files(&self) -> Vec<String> {
        self.files.keys().cloned().collect()
    }
}

/// What one run did.
struct Run {
    listed: Vec<String>,
    outcomes: Vec<(String, Outcome)>,
}

impl Run {
    fn moved(&self) -> Vec<&str> {
        let mut moved = Vec::new();
        for (path, outcome) in self.outcomes.iter() {
            if *outcome == Outcome::Renamed || *outcome == Outcome::CopiedAcross {
                moved.push(path.as_str());
            }
        }
        moved
    }
}

fn sort_file(disk: &mut Disk, path: &str, dest_root: &str, no_date_root: &str) -> Outcome {
    let from_name = date_in_path(path);
    let from_times = if from_name.is_none() {
        get_date_from_filesystem(None, disk.modified.get(path).copied(), disk.offset)
    } else {
        None
    };
    let date = date_for_file(from_name, from_times);
    let names = MonthNames::english();
    let mut work = plan_file(path, date, dest_root, no_date_root, &names);
    while let Some(action) = work.next_action() {
        let result = match action {
            FsAction::CreateDirAll => disk.create_dir_all(work.dest_dir()),
            FsAction::Rename => disk.rename(work.source(), work.dest_file().unwrap()),
            FsAction::Copy => disk.copy(work.source(), work.dest_file().unwrap()),
            FsAction::RemoveSource => disk.remove(work.source()),
        };
        work.record(result);
    }
    work.outcome().unwrap()
}

fn sort_tree(disk: &mut Disk, source: &str, dest_root: &str) -> Run {
    let no_date_root = join_path(dest_root, "NoDate");
    assert_eq!(disk.create_dir_all(dest_root), FsResult::Done);
    assert_eq!(disk.create_dir_all(&no_date_root), FsResult::Done);
    let mut run = Run { listed: Vec::new(), outcomes: Vec::new() };
    let mut walk = Traverser::new(dest_root, &no_date_root);
    let mut next = Some(source.to_string());
    while let Some(dir) = next {
        run.listed.push(dir.clone());
        for (path, kind) in disk.list(&dir) {
            match walk.visit(kind, &path) {
                EntryAction::Process => {
                    let outcome = sort_file(disk, &path, dest_root, &no_date_root);
                    run.outcomes.push((path, outcome));
                }
                EntryAction::Descend => {}
                EntryAction::Skip => {}
            }
        }
        next = walk.next_directory();
    }
    run
}

#[test]
fn a_photo_and_a_note_are_sorted() {
    let mut disk = Disk::new();
    disk.add_file("/src/IMG_20230615_beach.jpg", "sea");
    disk.add_file("/src/notes.txt", "words");
    let run = sort_tree(&mut disk, "/src", "/dst");
    assert_eq!(
        disk.paths_of_files(),
        vec!["/dst/2023/06 - June/15/IMG_20230615_beach.jpg", "/dst/NoDate/notes.txt"]
    );
    assert_eq!(disk.files["/dst/2023/06 - June/15/IMG_20230615_beach.jpg"], "sea");
    assert_eq!(disk.files["/dst/NoDate/notes.txt"], "words");
    assert_eq!(run.moved(), vec!["/src/IMG_20230615_beach.jpg", "/src/notes.txt"]);
}

#[test]
fn a_note_with_a_time_of_change_goes_to_the_day_of_that_time() {
    let mut disk = Disk::new();
    disk.add_file("/src/notes.txt", "words");
    // 2022-11-01 12:00:00 UTC
    let noon = Timestamp { secs: 1_667_304_000, nanos: 0 };
    disk.modified.insert("/src/notes.txt".to_string(), noon);
    sort_tree(&mut disk, "/src", "/dst");
    assert_eq!(disk.paths_of_files(), vec!["/dst/2022/11 - November/01/notes.txt"]);
}

#[test]
fn the_day_of_a_note_is_the_local_one() {
    let mut disk = Disk::new();
    disk.offset = 13 * 3600;
    disk.add_file("/src/notes.txt", "words");
    // 2022-11-01 12:00:00 UTC
    let noon = Timestamp { secs: 1_667_304_000, nanos: 0 };
    disk.modified.insert("/src/notes.txt".to_string(), noon);
    sort_tree(&mut disk, "/src", "/dst");
    assert_eq!(disk.paths_of_files(), vec!["/dst/2022/11 - November/02/notes.txt"]);
}

#[test]
fn only_the_name_of_a_file_is_searched_for_a_date() {
    assert_eq!(date_in_path("/2021-01-02/notes.txt"), None);
    assert_eq!(date_in_path("/2021-01-02/IMG_20230615.jpg"), CalendarDate::new(2023, 6, 15));
    assert_eq!(date_in_path("/photos/2021-01-02/"), CalendarDate::new(2021, 1, 2));
    assert_eq!(date_in_path("/photos/2021-01-02/."), CalendarDate::new(2021, 1, 2));
    assert_eq!(date_in_path("/photos/2021-01-02/.."), None);
    assert_eq!(date_in_path("2021-01-02"), CalendarDate::new(2021, 1, 2));
    assert_eq!(date_in_path("/"), None);
    assert_eq!(date_in_path(""), None);
    assert!(date_in_path("2021-01-02").is_some());
    let mut disk = Disk::new();
    disk.add_file("/src/2021-01-02/notes.txt", "words");
    sort_tree(&mut disk, "/src", "/dst");
    assert_eq!(disk.paths_of_files(), vec!["/dst/NoDate/notes.txt"]);
}

#[test]
fn a_second_run_moves_nothing() {
    let mut disk = Disk::new();
    disk.add_file("/src/IMG_20230615_beach.jpg", "sea");
    disk.add_file("/src/2021-01-02 report.pdf", "pages");
    disk.add_file("/src/deep/er/2020.05.06.txt", "text");
    disk.add_file("/src/notes.txt", "words");
    let first = sort_tree(&mut disk, "/src", "/dst");
    assert_eq!(first.moved().len(), 4);
    let files = disk.paths_of_files();
    let renames = disk.renames;
    let second = sort_tree(&mut disk, "/dst", "/dst");
    assert_eq!(second.moved(), Vec::<&str>::new());
    assert_eq!(disk.paths_of_files(), files);
    assert_eq!(disk.renames, renames);
    assert_eq!(disk.copies, 0);
    for (path, outcome) in second.outcomes.iter() {
        assert_eq!(*outcome, Outcome::AlreadyInPlace, "{}", path);
    }
    assert_eq!(second.outcomes.len(), 3);
}

#[test]
fn sorting_a_tree_into_itself_comes_to_rest() {
    let mut disk = Disk::new();
    disk.add_file("/box/IMG_20230615_beach.jpg", "sea");
    disk.add_file("/box/old/2021-01-02 report.pdf", "pages");
    sort_tree(&mut disk, "/box", "/box");
    let files = disk.paths_of_files();
    assert_eq!(
        files,
        vec!["/box/2021/01 - January/02/2021-01-02 report.pdf", "/box/2023/06 - June/15/IMG_20230615_beach.jpg"]
    );
    let again = sort_tree(&mut disk, "/box", "/box");
    assert_eq!(again.moved(), Vec::<&str>::new());
    assert_eq!(disk.paths_of_files(), files);
}

#[test]
fn a_destination_inside_the_source_is_never_listed() {
    let mut disk = Disk::new();
    disk.add_file("/src/a/IMG_20230615_beach.jpg", "sea");
    disk.add_file("/src/b/notes.txt", "words");
    disk.add_file("/src/sorted/2020/01 - January/01/20200101.txt", "kept");
    disk.add_file("/src/sorted/NoDate/old.txt", "kept");
    disk.add_file("/src/sorted/stray_20190203.txt", "kept");
    let run = sort_tree(&mut disk, "/src", "/src/sorted");
    for dir in run.listed.iter() {
        assert!(dir != "/src/sorted" && !dir.starts_with("/src/sorted/"), "{}", dir);
    }
    assert_eq!(run.listed, vec!["/src", "/src/b", "/src/a"]);
    assert_eq!(run.outcomes.len(), 2);
    assert_eq!(
        disk.paths_of_files(),
        vec![
            "/src/sorted/2020/01 - January/01/20200101.txt",
            "/src/sorted/2023/06 - June/15/IMG_20230615_beach.jpg",
            "/src/sorted/NoDate/notes.txt",
            "/src/sorted/NoDate/old.txt",
            "/src/sorted/stray_20190203.txt",
        ]
    );
}

#[test]
fn a_move_to_another_device_copies_and_removes() {
    let mut disk = Disk::new();
    disk.mounts.push("/mnt/usb".to_string());
    disk.add_file("/src/IMG_20230615_beach.jpg", "sea");
    let run = sort_tree(&mut disk, "/src", "/mnt/usb/sorted");
    assert_eq!(run.outcomes, vec![("/src/IMG_20230615_beach.jpg".to_string(), Outcome::CopiedAcross)]);
    assert_eq!(disk.paths_of_files(), vec!["/mnt/usb/sorted/2023/06 - June/15/IMG_20230615_beach.jpg"]);
    assert_eq!(disk.files["/mnt/usb/sorted/2023/06 - June/15/IMG_20230615_beach.jpg"], "sea");
    assert!(!disk.files.contains_key("/src/IMG_20230615_beach.jpg"));
    assert_eq!(disk.copies, 1);
    assert_eq!(disk.renames, 0);
}

#[test]
fn a_failed_copy_leaves_the_source_untouched() {
    let mut disk = Disk::new();
    disk.mounts.push("/mnt/usb".to_string());
    disk.copies_fail = true;
    disk.add_file("/src/IMG_20230615_beach.jpg", "sea");
    disk.add_file("/src/2021-01-02.txt", "next");
    let run = sort_tree(&mut disk, "/src", "/mnt/usb/sorted");
    assert_eq!(
        run.outcomes,
        vec![
            ("/src/2021-01-02.txt".to_string(), Outcome::CopyFailed),
            ("/src/IMG_20230615_beach.jpg".to_string(), Outcome::CopyFailed),
        ]
    );
    assert_eq!(disk.paths_of_files(), vec!["/src/2021-01-02.txt", "/src/IMG_20230615_beach.jpg"]);
    assert_eq!(disk.files["/src/IMG_20230615_beach.jpg"], "sea");
}

#[test]
fn a_source_that_cannot_be_removed_stays_beside_its_copy() {
    let mut disk = Disk::new();
    disk.mounts.push("/mnt/usb".to_string());
    disk.removals_fail = true;
    disk.add_file("/src/IMG_20230615_beach.jpg", "sea");
    let run = sort_tree(&mut disk, "/src", "/mnt/usb/sorted");
    assert_eq!(run.outcomes, vec![("/src/IMG_20230615_beach.jpg".to_string(), Outcome::SourceKept)]);
    assert_eq!(
        disk.paths_of_files(),
        vec!["/mnt/usb/sorted/2023/06 - June/15/IMG_20230615_beach.jpg", "/src/IMG_20230615_beach.jpg"]
    );
}

#[test]
fn a_failure_with_one_file_does_not_stop_the_others() {
    let mut disk = Disk::new();
    disk.add_file("/src/2021-01-02.txt", "first");
    disk.add_file("/src/2021-01-03.txt", "second");
    disk.create_dir_all("/dst/2021/01 - January/02/2021-01-02.txt");
    let run = sort_tree(&mut disk, "/src", "/dst");
    assert_eq!(
        run.outcomes,
        vec![
            ("/src/2021-01-02.txt".to_string(), Outcome::RenameFailed),
            ("/src/2021-01-03.txt".to_string(), Outcome::Renamed),
        ]
    );
    assert_eq!(disk.paths_of_files(), vec!["/dst/2021/01 - January/03/2021-01-03.txt", "/src/2021-01-02.txt"]);
}

#[test]
fn a_directory_that_cannot_be_made_leaves_the_file() {
    let mut disk = Disk::new();
    disk.add_file("/src/2021-01-02.txt", "first");
    disk.add_file("/dst/2021", "a file where the year should be");
    let run = sort_tree(&mut disk, "/src", "/dst");
    assert_eq!(run.outcomes, vec![("/src/2021-01-02.txt".to_string(), Outcome::DirectoryFailed)]);
    assert!(disk.files.contains_key("/src/2021-01-02.txt"));
}

#[test]
fn a_destination_written_with_a_trailing_slash_is_not_listed_either() {
    let mut disk = Disk::new();
    disk.add_file("/src/a/IMG_20230615_beach.jpg", "sea");
    disk.add_file("/src/sorted/stray_20190203.txt", "kept");
    disk.create_dir_all("/src/sorted");
    let no_date_root = join_path("/src/sorted/", "NoDate");
    let mut walk = Traverser::new("/src/sorted/", &no_date_root);
    let mut listed = Vec::new();
    let mut next = Some("/src".to_string());
    while let Some(dir) = next {
        listed.push(dir.clone());
        for (path, kind) in disk.list(&dir) {
            walk.visit(kind, &path);
        }
        next = walk.next_directory();
    }
    assert_eq!(listed, vec!["/src", "/src/a"]);
}

#[test]
fn the_plan_of_a_file_names_where_it_goes() {
    let names = MonthNames::english();
    let date = date_in_path("/src/IMG_20230615_beach.jpg");
    let work = plan_file("/src/IMG_20230615_beach.jpg", date, "/dst", "/dst/NoDate", &names);
    assert_eq!(work.source(), "/src/IMG_20230615_beach.jpg");
    assert_eq!(work.dest_dir(), "/dst/2023/06 - June/15");
    assert_eq!(work.dest_file(), Some("/dst/2023/06 - June/15/IMG_20230615_beach.jpg"));
    let work = plan_file("/src/notes.txt", None, "/dst", "/dst/NoDate", &names);
    assert_eq!(work.dest_dir(), "/dst/NoDate");
    assert_eq!(work.dest_file(), Some("/dst/NoDate/notes.txt"));
    let work = plan_file("/", None, "/dst", "/dst/NoDate", &names);
    assert_eq!(work.dest_dir(), "/dst/NoDate");
    assert_eq!(work.dest_file(), None);
}
