use filefox::cut::{cut, CutError, CutStep};
use filefox::entry::DirectoryEntry;
use filefox::mover::MoveError;
use filefox::request::{Reply, Request, Trouble};

/// A directory tree held in memory, to stand in for the filesystem.
struct Disk {
    paths: Vec<String>,
    refused_moves: Vec<(String, Trouble)>,
    refused_removal: Option<Trouble>,
    log: Vec<Request>,
}

impl Disk {
    fn with(paths: &[&str]) -> Disk {
        Disk {
            paths: paths.iter().map(|p| p.to_string()).collect(),
            refused_moves: Vec::new(),
            refused_removal: None,
            log: Vec::new(),
        }
    }

    fn has(&self, path: &str) -> bool {
        self.paths.iter().any(|p| p == path)
    }

    fn names_in(&self, dir: &str) -> Vec<String> {
        let prefix = format!("{}/", dir);
        let mut names = Vec::new();
        for path in &self.paths {
            if let Some(rest) = path.strip_prefix(&prefix) {
                if !rest.is_empty() && !rest.contains('/') {
                    names.push(rest.to_string());
                }
            }
        }
        names
    }

    fn perform(&mut self, request: &Request) -> Reply {
        self.log.push(request.clone());
        match request {
            Request::Scan { dir } => {
                if self.has(dir) {
                    Reply::Listed(self.names_in(dir))
                } else {
                    Reply::Failed(Trouble::Other)
                }
            }
            Request::CreateDir { path } => {
                if self.has(path) {
                    Reply::Failed(Trouble::AlreadyExists)
                } else {
                    self.paths.push(path.clone());
                    Reply::Done
                }
            }
            Request::Move { from, to } => {
                if let Some((_, trouble)) = self.refused_moves.iter().find(|(p, _)| p == from) {
                    return Reply::Failed(*trouble);
                }
                if self.has(to) {
                    return Reply::Failed(Trouble::AlreadyExists);
                }
                if !self.has(from) {
                    return Reply::Failed(Trouble::Other);
                }
                let below = format!("{}/", from);
                for path in self.paths.iter_mut() {
                    if path == from {
                        *path = to.clone();
                    } else if let Some(rest) = path.strip_prefix(&below) {
                        *path = format!("{}/{}", to, rest);
                    }
                }
                Reply::Done
            }
            Request::RemoveDir { path } => {
                if let Some(trouble) = self.refused_removal {
                    return Reply::Failed(trouble);
                }
                if !self.names_in(path).is_empty() {
                    Reply::Failed(Trouble::NotEmpty)
                } else if !self.has(path) {
                    Reply::Failed(Trouble::Other)
                } else {
                    self.paths.retain(|p| p != path);
                    Reply::Done
                }
            }
        }
    }

    fn run(&mut self, first: CutStep) -> Option<Result<usize, CutError>> {
        let mut step = first;
        loop {
            match step {
                CutStep::Refused => return None,
                CutStep::Continue(extractor, request) => {
                    let reply = self.perform(&request);
                    step = extractor.step(reply);
                }
                CutStep::Finished(result) => return Some(result),
            }
        }
    }
}

fn text(s: &str) -> String {
    s.to_string()
}

fn entry(name: &str, path: &str) -> DirectoryEntry {
    DirectoryEntry { name: text(name), path: text(path) }
}

fn listed(names: &[&str]) -> Reply {
    Reply::Listed(names.iter().map(|n| n.to_string()).collect())
}

fn next(step: CutStep, reply: Reply) -> CutStep {
    match step {
        CutStep::Continue(extractor, _) => extractor.step(reply),
        other => panic!("the cut is over: {:?}", other),
    }
}

fn request_of(step: &CutStep) -> Request {
    match step {
        CutStep::Continue(_, request) => request.clone(),
        other => panic!("the cut is over: {:?}", other),
    }
}

fn result_of(step: CutStep) -> Result<usize, CutError> {
    match step {
        CutStep::Finished(result) => result,
        other => panic!("the cut is not finished: {:?}", other),
    }
}

#[test]
fn cut_lifts_the_entries_and_removes_the_directory() {
    let mut disk = Disk::with(&["src", "src/temp", "src/temp/a.txt", "src/temp/b.txt"]);
    let result = disk.run(cut("src/temp", "/work"));
    assert_eq!(result, Some(Ok(2)));
    assert_eq!(disk.names_in("src"), vec!["a.txt", "b.txt"]);
    assert!(!disk.has("src/temp"));
    assert_eq!(disk.paths, vec!["src", "src/a.txt", "src/b.txt"]);
}

#[test]
fn cut_asks_for_scan_moves_and_removal_in_order() {
    let mut disk = Disk::with(&["src", "src/temp", "src/temp/a.txt", "src/temp/b.txt"]);
    let _ = disk.run(cut("src/temp", "/work"));
    assert_eq!(
        disk.log,
        vec![
            Request::Scan { dir: text("src/temp") },
            Request::Move { from: text("src/temp/a.txt"), to: text("src/a.txt") },
            Request::Move { from: text("src/temp/b.txt"), to: text("src/b.txt") },
            Request::RemoveDir { path: text("src/temp") },
        ]
    );
}

#[test]
fn cut_of_the_working_directory_is_refused() {
    for target in [".", "./", "", "./.", ".//", "/work", "/work/", "/work/.", "//work"] {
        let mut disk = Disk::with(&["/work", "/work/a.txt", ".", "./a.txt"]);
        let result = disk.run(cut(target, "/work"));
        assert_eq!(result, None, "target {:?}", target);
        assert_eq!(disk.log, Vec::<Request>::new());
        assert_eq!(disk.paths, vec!["/work", "/work/a.txt", ".", "./a.txt"]);
    }
}

#[test]
fn cut_of_another_directory_is_not_refused() {
    for target in ["temp", "./temp", "/work/temp", "/", "..", "/other"] {
        let first = cut(target, "/work");
        assert_eq!(request_of(&first), Request::Scan { dir: text(target) });
    }
}

#[test]
fn cut_of_a_bare_name_lifts_into_the_working_directory() {
    let moving = next(cut("temp", "/work"), listed(&["a.txt", "b.txt"]));
    assert_eq!(
        request_of(&moving),
        Request::Move { from: text("temp/a.txt"), to: text("/work/a.txt") }
    );
    let moving = next(moving, Reply::Done);
    assert_eq!(
        request_of(&moving),
        Request::Move { from: text("temp/b.txt"), to: text("/work/b.txt") }
    );
    let removing = next(moving, Reply::Done);
    assert_eq!(request_of(&removing), Request::RemoveDir { path: text("temp") });
    assert_eq!(result_of(next(removing, Reply::Done)), Ok(2));
}

#[test]
fn cut_of_a_root_lifts_into_the_working_directory() {
    let moving = next(cut("/", "/work"), listed(&["etc"]));
    assert_eq!(request_of(&moving), Request::Move { from: text("/etc"), to: text("/work/etc") });
}

#[test]
fn cut_lifts_into_the_parent_that_the_path_names() {
    let moving = next(cut("./temp", "/work"), listed(&["a"]));
    assert_eq!(request_of(&moving), Request::Move { from: text("./temp/a"), to: text("./a") });
    let moving = next(cut("/srv/data/temp/", "/work"), listed(&["a"]));
    assert_eq!(
        request_of(&moving),
        Request::Move { from: text("/srv/data/temp/a"), to: text("/srv/data/a") }
    );
    let moving = next(cut("/temp", "/work"), listed(&["a"]));
    assert_eq!(request_of(&moving), Request::Move { from: text("/temp/a"), to: text("/a") });
    let moving = next(cut("../temp", "/work"), listed(&["a"]));
    assert_eq!(request_of(&moving), Request::Move { from: text("../temp/a"), to: text("../a") });
}

#[test]
fn cut_of_an_empty_directory_only_removes_it() {
    let mut disk = Disk::with(&["src", "src/temp"]);
    let result = disk.run(cut("src/temp", "/work"));
    assert_eq!(result, Some(Ok(0)));
    assert_eq!(
        disk.log,
        vec![Request::Scan { dir: text("src/temp") }, Request::RemoveDir { path: text("src/temp") }]
    );
    assert_eq!(disk.paths, vec!["src"]);
}

#[test]
fn cut_lifts_subdirectories_with_what_they_hold() {
    let mut disk = Disk::with(&["src", "src/temp", "src/temp/sub", "src/temp/sub/x", "src/temp/a"]);
    assert_eq!(disk.run(cut("src/temp", "/work")), Some(Ok(2)));
    assert_eq!(disk.paths, vec!["src", "src/sub", "src/sub/x", "src/a"]);
}

#[test]
fn unreadable_target_fails_the_cut() {
    let mut disk = Disk::with(&["src"]);
    let result = disk.run(cut("src/temp", "/work"));
    assert_eq!(result, Some(Err(CutError::DirectoryUnreadable { dir: text("src/temp") })));
    assert_eq!(disk.log, vec![Request::Scan { dir: text("src/temp") }]);
    let result = result_of(next(cut("src/temp", "/work"), Reply::Done));
    assert_eq!(result, Err(CutError::DirectoryUnreadable { dir: text("src/temp") }));
}

#[test]
fn failed_move_stops_the_cut_and_keeps_the_directory() {
    let mut disk = Disk::with(&["src", "src/temp", "src/temp/a", "src/temp/b", "src/temp/c"]);
    disk.refused_moves.push((text("src/temp/b"), Trouble::Other));
    let result = disk.run(cut("src/temp", "/work"));
    assert_eq!(
        result,
        Some(Err(CutError::MoveFailed {
            entry: entry("b", "src/temp/b"),
            cause: MoveError::MoveFailed,
            moved: 1,
        }))
    );
    assert_eq!(disk.names_in("src"), vec!["temp", "a"]);
    assert_eq!(disk.names_in("src/temp"), vec!["b", "c"]);
    assert_eq!(
        disk.log,
        vec![
            Request::Scan { dir: text("src/temp") },
            Request::Move { from: text("src/temp/a"), to: text("src/a") },
            Request::Move { from: text("src/temp/b"), to: text("src/b") },
        ]
    );
}

#[test]
fn name_taken_in_the_parent_stops_the_cut() {
    let mut disk = Disk::with(&["src", "src/a", "src/temp", "src/temp/a", "src/temp/b"]);
    let result = disk.run(cut("src/temp", "/work"));
    assert_eq!(
        result,
        Some(Err(CutError::MoveFailed {
            entry: entry("a", "src/temp/a"),
            cause: MoveError::NameCollision,
            moved: 0,
        }))
    );
    assert!(disk.has("src/temp"));
    assert!(disk.has("src/temp/a"));
    assert!(disk.has("src/temp/b"));
}

#[test]
fn directory_found_not_empty_at_removal() {
    let mut disk = Disk::with(&["src", "src/temp", "src/temp/a"]);
    disk.refused_removal = Some(Trouble::NotEmpty);
    let result = disk.run(cut("src/temp", "/work"));
    assert_eq!(
        result,
        Some(Err(CutError::DirectoryNotEmpty { dir: text("src/temp"), moved: 1 }))
    );
    assert!(disk.has("src/a"));
    assert!(disk.has("src/temp"));
}

#[test]
fn directory_removal_refused() {
    let mut disk = Disk::with(&["src", "src/temp", "src/temp/a", "src/temp/b"]);
    disk.refused_removal = Some(Trouble::Other);
    let result = disk.run(cut("src/temp", "/work"));
    assert_eq!(
        result,
        Some(Err(CutError::DirectoryRemovalFailed { dir: text("src/temp"), moved: 2 }))
    );
    assert_eq!(disk.names_in("src"), vec!["temp", "a", "b"]);
    let removing = next(cut("t", "/work"), listed(&[]));
    let result = result_of(next(removing, Reply::Failed(Trouble::AlreadyExists)));
    assert_eq!(result, Err(CutError::DirectoryRemovalFailed { dir: text("t"), moved: 0 }));
    let removing = next(cut("t", "/work"), listed(&[]));
    let result = result_of(next(removing, listed(&[])));
    assert_eq!(result, Err(CutError::DirectoryRemovalFailed { dir: text("t"), moved: 0 }));
}

#[test]
fn cut_errors_name_the_path_and_the_operation() {
    assert_eq!(
        CutError::DirectoryUnreadable { dir: text("src/temp") }.describe(),
        "cannot list the directory src/temp"
    );
    assert_eq!(
        CutError::MoveFailed {
            entry: entry("a", "src/temp/a"),
            cause: MoveError::NameCollision,
            moved: 0
        }
        .describe(),
        "cannot move src/temp/a: the name is taken"
    );
    assert_eq!(
        CutError::MoveFailed {
            entry: entry("a", "src/temp/a"),
            cause: MoveError::MoveFailed,
            moved: 2
        }
        .describe(),
        "cannot move src/temp/a"
    );
    assert_eq!(
        CutError::DirectoryNotEmpty { dir: text("src/temp"), moved: 1 }.describe(),
        "cannot remove the directory src/temp: it is not empty"
    );
    assert_eq!(
        CutError::DirectoryRemovalFailed { dir: text("src/temp"), moved: 1 }.describe(),
        "cannot remove the directory src/temp"
    );
}
