use filefox::entry::DirectoryEntry;
use filefox::group::{group, GroupError, GroupStep};
use filefox::mover::MoveError;
use filefox::request::{Reply, Request, Trouble};

/// A directory tree held in memory, to stand in for the filesystem.
struct Disk {
    paths: Vec<String>,
    refused_moves: Vec<(String, Trouble)>,
    log: Vec<Request>,
}

impl Disk {
    fn with(paths: &[&str]) -> Disk {
        Disk {
            paths: paths.iter().map(|p| p.to_string()).collect(),
            refused_moves: Vec::new(),
            log: Vec::new(),
        }
    }

    fn has(&self, path: &str) -> bool {
        self.paths.iter().any(|p| p == path)
    }

    fn names_in(&self, dir: &str) -> Vec<String> {
        let prefix = format!("{}/", dir);
        let mut names = Vec::new();
        for path in &self.paths {
            if let Some(rest) = path.strip_prefix(&prefix) {
                if !rest.is_empty() && !rest.contains('/') {
                    names.push(rest.to_string());
                }
            }
        }
        names
    }

    fn perform(&mut self, request: &Request) -> Reply {
        self.log.push(request.clone());
        match request {
            Request::Scan { dir } => {
                if self.has(dir) {
                    Reply::Listed(self.names_in(dir))
                } else {
                    Reply::Failed(Trouble::Other)
                }
            }
            Request::CreateDir { path } => {
                if self.has(path) {
                    Reply::Failed(Trouble::AlreadyExists)
                } else {
                    self.paths.push(path.clone());
                    Reply::Done
                }
            }
            Request::Move { from, to } => {
                if let Some((_, trouble)) = self.refused_moves.iter().find(|(p, _)| p == from) {
                    return Reply::Failed(*trouble);
                }
                if self.has(to) {
                    return Reply::Failed(Trouble::AlreadyExists);
                }
                if !self.has(from) {
                    return Reply::Failed(Trouble::Other);
                }
                let below = format!("{}/", from);
                for path in self.paths.iter_mut() {
                    if path == from {
                        *path = to.clone();
                    } else if let Some(rest) = path.strip_prefix(&below) {
                        *path = format!("{}/{}", to, rest);
                    }
                }
                Reply::Done
            }
            Request::RemoveDir { path } => {
                if !self.names_in(path).is_empty() {
                    Reply::Failed(Trouble::NotEmpty)
                } else if !self.has(path) {
                    Reply::Failed(Trouble::Other)
                } else {
                    self.paths.retain(|p| p != path);
                    Reply::Done
                }
            }
        }
    }

    fn run(&mut self, first: GroupStep) -> Result<usize, GroupError> {
        let mut step = first;
        loop {
            match step {
                GroupStep::Continue(grouper, request) => {
                    let reply = self.perform(&request);
                    step = grouper.step(reply);
                }
                GroupStep::Finished(result) => return result,
            }
        }
    }
}

fn text(s: &str) -> String {
    s.to_string()
}

fn entry(name: &str, path: &str) -> DirectoryEntry {
    DirectoryEntry { name: text(name), path: text(path) }
}

fn listed(names: &[&str]) -> Reply {
    Reply::Listed(names.iter().map(|n| n.to_string()).collect())
}

fn next(step: GroupStep, reply: Reply) -> GroupStep {
    match step {
        GroupStep::Continue(grouper, _) => grouper.step(reply),
        GroupStep::Finished(result) => panic!("the grouping is over: {:?}", result),
    }
}

fn request_of(step: &GroupStep) -> Request {
    match step {
        GroupStep::Continue(_, request) => request.clone(),
        GroupStep::Finished(result) => panic!("the grouping is over: {:?}", result),
    }
}

fn result_of(step: GroupStep) -> Result<usize, GroupError> {
    match step {
        GroupStep::Finished(result) => result,
        GroupStep::Continue(_, request) => panic!("the grouping goes on: {:?}", request),
    }
}

#[test]
fn group_moves_the_matching_entries_into_the_destination() {
    let mut disk = Disk::with(&["src", "src/foo.txt", "src/foobar.log", "src/bar.txt"]);
    let result = disk.run(group("foo", "src", Some("foo")));
    assert_eq!(result, Ok(2));
    assert_eq!(disk.paths, vec!["src", "src/foo/foo.txt", "src/foo/foobar.log", "src/bar.txt", "src/foo"]);
    assert_eq!(disk.names_in("src"), vec!["bar.txt", "foo"]);
    assert_eq!(disk.names_in("src/foo"), vec!["foo.txt", "foobar.log"]);
}

#[test]
fn group_asks_for_scan_creation_and_moves_in_scan_order() {
    let mut disk = Disk::with(&["src", "src/foo.txt", "src/foobar.log", "src/bar.txt"]);
    let result = disk.run(group("foo", "src", Some("foo")));
    assert_eq!(result, Ok(2));
    assert_eq!(
        disk.log,
        vec![
            Request::Scan { dir: text("src") },
            Request::CreateDir { path: text("src/foo") },
            Request::Move { from: text("src/foo.txt"), to: text("src/foo/foo.txt") },
            Request::Move { from: text("src/foobar.log"), to: text("src/foo/foobar.log") },
        ]
    );
}

#[test]
fn group_starts_with_the_scan_of_the_source() {
    let first = group("foo", "./", None);
    assert_eq!(request_of(&first), Request::Scan { dir: text("./") });
}

#[test]
fn destination_defaults_to_the_pattern() {
    let first = group("Foo", "src", None);
    let created = next(first, listed(&["foo.txt"]));
    assert_eq!(request_of(&created), Request::CreateDir { path: text("src/Foo") });
    let moving = next(created, Reply::Done);
    assert_eq!(
        request_of(&moving),
        Request::Move { from: text("src/foo.txt"), to: text("src/Foo/foo.txt") }
    );
}

#[test]
fn destination_may_differ_from_the_pattern() {
    let first = group("foo", "./", Some("grouped"));
    let created = next(first, listed(&["a.foo"]));
    assert_eq!(request_of(&created), Request::CreateDir { path: text("./grouped") });
    let moving = next(created, Reply::Done);
    assert_eq!(
        request_of(&moving),
        Request::Move { from: text("./a.foo"), to: text("./grouped/a.foo") }
    );
    assert_eq!(result_of(next(moving, Reply::Done)), Ok(1));
}

#[test]
fn group_matches_whatever_the_case() {
    let mut disk = Disk::with(&["d", "d/Report.TXT", "d/notes.txt", "d/image.png"]);
    assert_eq!(disk.run(group("TXT", "d", Some("texts"))), Ok(2));
    assert_eq!(disk.names_in("d/texts"), vec!["Report.TXT", "notes.txt"]);
    assert_eq!(disk.names_in("d"), vec!["image.png", "texts"]);
}

#[test]
fn group_moves_subdirectories_too() {
    let mut disk = Disk::with(&["d", "d/foo-dir", "d/foo-dir/inner.txt", "d/foo.txt", "d/other"]);
    assert_eq!(disk.run(group("foo", "d", Some("out"))), Ok(2));
    assert!(disk.has("d/out/foo-dir"));
    assert!(disk.has("d/out/foo-dir/inner.txt"));
    assert!(disk.has("d/out/foo.txt"));
    assert!(disk.has("d/other"));
    assert!(!disk.has("d/foo-dir"));
}

#[test]
fn group_does_not_look_below_the_source() {
    let mut disk = Disk::with(&["d", "d/sub", "d/sub/foo.txt", "d/bar.txt"]);
    assert_eq!(disk.run(group("foo", "d", None)), Ok(0));
    assert!(disk.has("d/sub/foo.txt"));
}

#[test]
fn group_without_a_match_touches_nothing() {
    let mut disk = Disk::with(&["src", "src/a.txt", "src/b.txt"]);
    let result = disk.run(group("foo", "src", None));
    assert_eq!(result, Ok(0));
    assert_eq!(disk.log, vec![Request::Scan { dir: text("src") }]);
    assert_eq!(disk.paths, vec!["src", "src/a.txt", "src/b.txt"]);
    assert!(!disk.has("src/foo"));
}

#[test]
fn group_of_an_empty_directory_moves_nothing() {
    let mut disk = Disk::with(&["src"]);
    assert_eq!(disk.run(group("", "src", Some("all"))), Ok(0));
    assert_eq!(disk.log, vec![Request::Scan { dir: text("src") }]);
}

#[test]
fn empty_pattern_groups_every_entry() {
    let mut disk = Disk::with(&["src", "src/a.txt", "src/b", "src/c.log"]);
    assert_eq!(disk.run(group("", "src", Some("all"))), Ok(3));
    assert_eq!(disk.names_in("src"), vec!["all"]);
    assert_eq!(disk.names_in("src/all"), vec!["a.txt", "b", "c.log"]);
}

#[test]
fn unreadable_source_fails_the_grouping() {
    let mut disk = Disk::with(&["elsewhere"]);
    let result = disk.run(group("foo", "src", None));
    assert_eq!(result, Err(GroupError::DirectoryUnreadable { dir: text("src") }));
    assert_eq!(disk.log, vec![Request::Scan { dir: text("src") }]);
}

#[test]
fn a_scan_without_a_listing_is_unreadable() {
    let result = result_of(next(group("foo", "src", None), Reply::Done));
    assert_eq!(result, Err(GroupError::DirectoryUnreadable { dir: text("src") }));
    let result = result_of(next(group("foo", "src", None), Reply::Failed(Trouble::NotEmpty)));
    assert_eq!(result, Err(GroupError::DirectoryUnreadable { dir: text("src") }));
}

#[test]
fn existing_destination_fails_the_grouping_before_any_move() {
    let mut disk = Disk::with(&["src", "src/foo.txt", "src/foo"]);
    let result = disk.run(group("foo.", "src", Some("foo")));
    assert_eq!(result, Err(GroupError::DestinationExists { path: text("src/foo") }));
    assert_eq!(
        disk.log,
        vec![Request::Scan { dir: text("src") }, Request::CreateDir { path: text("src/foo") }]
    );
    assert!(disk.has("src/foo.txt"));
}

#[test]
fn destination_colliding_with_a_file_is_a_creation_failure() {
    let mut disk = Disk::with(&["src", "src/foo", "src/foo.txt"]);
    let result = disk.run(group("foo.txt", "src", Some("foo")));
    assert_eq!(result, Err(GroupError::DestinationExists { path: text("src/foo") }));
}

#[test]
fn unwritable_destination_fails_the_grouping_before_any_move() {
    let created = next(group("foo", "src", None), listed(&["foo.txt"]));
    let result = result_of(next(created, Reply::Failed(Trouble::Other)));
    assert_eq!(result, Err(GroupError::DestinationUnwritable { path: text("src/foo") }));
    let created = next(group("foo", "src", None), listed(&["foo.txt"]));
    let result = result_of(next(created, Reply::Failed(Trouble::NotEmpty)));
    assert_eq!(result, Err(GroupError::DestinationUnwritable { path: text("src/foo") }));
    let created = next(group("foo", "src", None), listed(&["foo.txt"]));
    let result = result_of(next(created, listed(&[])));
    assert_eq!(result, Err(GroupError::DestinationUnwritable { path: text("src/foo") }));
}

#[test]
fn failure_on_the_second_of_three_leaves_one_moved() {
    let mut disk = Disk::with(&["src", "src/foo1", "src/foo2", "src/foo3", "src/bar"]);
    disk.refused_moves.push((text("src/foo2"), Trouble::Other));
    let result = disk.run(group("foo", "src", Some("out")));
    assert_eq!(
        result,
        Err(GroupError::MoveFailed {
            entry: entry("foo2", "src/foo2"),
            cause: MoveError::MoveFailed,
            moved: 1,
        })
    );
    assert_eq!(disk.names_in("src/out"), vec!["foo1"]);
    assert_eq!(disk.names_in("src"), vec!["foo2", "foo3", "bar", "out"]);
    assert_eq!(
        disk.log,
        vec![
            Request::Scan { dir: text("src") },
            Request::CreateDir { path: text("src/out") },
            Request::Move { from: text("src/foo1"), to: text("src/out/foo1") },
            Request::Move { from: text("src/foo2"), to: text("src/out/foo2") },
        ]
    );
}

#[test]
fn failure_on_the_first_move_leaves_nothing_moved() {
    let mut disk = Disk::with(&["src", "src/foo1", "src/foo2"]);
    disk.refused_moves.push((text("src/foo1"), Trouble::Other));
    let result = disk.run(group("foo", "src", Some("out")));
    assert_eq!(
        result,
        Err(GroupError::MoveFailed {
            entry: entry("foo1", "src/foo1"),
            cause: MoveError::MoveFailed,
            moved: 0,
        })
    );
    assert!(disk.has("src/out"));
    assert_eq!(disk.names_in("src/out"), Vec::<String>::new());
}

#[test]
fn failure_on_the_last_move_leaves_the_others_moved() {
    let mut disk = Disk::with(&["src", "src/foo1", "src/foo2"]);
    disk.refused_moves.push((text("src/foo2"), Trouble::AlreadyExists));
    let result = disk.run(group("foo", "src", Some("out")));
    assert_eq!(
        result,
        Err(GroupError::MoveFailed {
            entry: entry("foo2", "src/foo2"),
            cause: MoveError::NameCollision,
            moved: 1,
        })
    );
    assert_eq!(disk.names_in("src/out"), vec!["foo1"]);
}

#[test]
fn grouping_again_after_a_failure_moves_nothing_twice() {
    let mut disk = Disk::with(&["src", "src/foo1", "src/foo2", "src/foo3"]);
    disk.refused_moves.push((text("src/foo2"), Trouble::Other));
    let _ = disk.run(group("foo", "src", Some("out")));
    disk.refused_moves.clear();
    disk.log.clear();
    let again = disk.run(group("foo", "src", Some("rest")));
    assert_eq!(again, Ok(2));
    assert_eq!(
        disk.log,
        vec![
            Request::Scan { dir: text("src") },
            Request::CreateDir { path: text("src/rest") },
            Request::Move { from: text("src/foo2"), to: text("src/rest/foo2") },
            Request::Move { from: text("src/foo3"), to: text("src/rest/foo3") },
        ]
    );
    assert_eq!(disk.names_in("src/out"), vec!["foo1"]);
    assert_eq!(disk.names_in("src/rest"), vec!["foo2", "foo3"]);
}

#[test]
fn grouping_again_into_the_same_destination_is_refused_at_creation() {
    let mut disk = Disk::with(&["src", "src/foo1", "src/foo2"]);
    disk.refused_moves.push((text("src/foo2"), Trouble::Other));
    let _ = disk.run(group("foo", "src", None));
    disk.refused_moves.clear();
    disk.log.clear();
    let again = disk.run(group("foo", "src", None));
    assert_eq!(again, Err(GroupError::DestinationExists { path: text("src/foo") }));
    assert_eq!(disk.names_in("src/foo"), vec!["foo1"]);
    assert!(disk.has("src/foo2"));
}

#[test]
fn grouping_again_after_success_finds_no_match() {
    let mut disk = Disk::with(&["src", "src/a.log", "src/b.log", "src/c.txt"]);
    assert_eq!(disk.run(group(".log", "src", Some("logs"))), Ok(2));
    disk.log.clear();
    assert_eq!(disk.run(group(".log", "src", Some("logs"))), Ok(0));
    assert_eq!(disk.log, vec![Request::Scan { dir: text("src") }]);
}

#[test]
fn name_collision_is_told_apart_from_other_failures() {
    let created = next(group("a", "d", Some("out")), listed(&["a"]));
    let moving = next(created, Reply::Done);
    let result = result_of(next(moving, Reply::Failed(Trouble::AlreadyExists)));
    assert_eq!(
        result,
        Err(GroupError::MoveFailed {
            entry: entry("a", "d/a"),
            cause: MoveError::NameCollision,
            moved: 0,
        })
    );
    let created = next(group("a", "d", Some("out")), listed(&["a"]));
    let moving = next(created, Reply::Done);
    let result = result_of(next(moving, Reply::Failed(Trouble::NotEmpty)));
    assert_eq!(
        result,
        Err(GroupError::MoveFailed {
            entry: entry("a", "d/a"),
            cause: MoveError::MoveFailed,
            moved: 0,
        })
    );
}

#[test]
fn group_errors_name_the_path_and_the_operation() {
    assert_eq!(
        GroupError::DirectoryUnreadable { dir: text("src") }.describe(),
        "cannot list the directory src"
    );
    assert_eq!(
        GroupError::DestinationExists { path: text("src/foo") }.describe(),
        "cannot create the directory src/foo: it already exists"
    );
    assert_eq!(
        GroupError::DestinationUnwritable { path: text("src/foo") }.describe(),
        "cannot create the directory src/foo"
    );
    assert_eq!(
        GroupError::MoveFailed {
            entry: entry("a", "src/a"),
            cause: MoveError::NameCollision,
            moved: 3
        }
        .describe(),
        "cannot move src/a: the name is taken"
    );
    assert_eq!(
        GroupError::MoveFailed { entry: entry("a", "src/a"), cause: MoveError::MoveFailed, moved: 0 }
            .describe(),
        "cannot move src/a"
    );
}
