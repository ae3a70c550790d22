use std::collections::{BTreeMap, BTreeSet};

use dirsync::engine::{sync_files, Action, Event};
use dirsync::objects::{Dirsync, File, FileList, FileProperties};
use dirsync::walk::{Direction, Outcome, Report};

/// Both sides held in memory, and a record of what was asked of them.
struct Sides {
    root_kind: String,
    remote_dirs: BTreeMap<String, Vec<(String, String)>>,
    remote_paths: BTreeSet<String>,
    local_dirs: BTreeMap<String, Vec<String>>,
    local_paths: BTreeSet<String>,
    broken: BTreeSet<String>,
    log: Vec<Action>,
}

impl Sides {
    fn new() -> Sides {
        Sides {
            root_kind: "folder".to_string(),
            remote_dirs: BTreeMap::new(),
            remote_paths: BTreeSet::new(),
            local_dirs: BTreeMap::new(),
            local_paths: BTreeSet::new(),
            broken: BTreeSet::new(),
            log: Vec::new(),
        }
    }

    fn remote_dir(mut self, path: &str, entries: &[(&str, &str)]) -> Sides {
        let list = entries.iter().map(|(n, k)| (n.to_string(), k.to_string())).collect();
        self.remote_dirs.insert(path.to_string(), list);
        for (name, _) in entries {
            self.remote_paths.insert(format!("{}/{}", path, name));
        }
        self
    }

    fn local_dir(mut self, path: &str, names: &[&str]) -> Sides {
        self.local_dirs.insert(path.to_string(), names.iter().map(|n| n.to_string()).collect());
        self.local_paths.insert(path.to_string());
        for name in names {
            self.local_paths.insert(format!("{}/{}", path, name));
        }
        self
    }

    fn perform(&mut self, action: &Action) -> Event {
        self.log.push(action.clone());
        match action {
            Action::Stat { .. } => {
                if self.root_kind == "unreachable" {
                    Event::Failed
                } else {
                    Event::Properties(FileProperties { kind: self.root_kind.clone() })
                }
            }
            Action::ListRemote { remote } => match self.remote_dirs.get(remote) {
                Some(entries) => Event::Listing(FileList {
                    list: entries
                        .iter()
                        .map(|(name, kind)| File { name: name.clone(), kind: kind.clone() })
                        .collect(),
                }),
                None => Event::Failed,
            },
            Action::LocalExists { local } => Event::Flag(self.local_paths.contains(local)),
            Action::CreateLocalDir { local } => {
                self.local_paths.insert(local.clone());
                Event::Done
            }
            Action::Download { remote, local } => {
                self.local_paths.insert(local.clone());
                if self.broken.contains(remote) {
                    Event::Failed
                } else {
                    Event::Done
                }
            }
            Action::ListLocal { local } => match self.local_dirs.get(local) {
                Some(names) => Event::Names(names.clone()),
                None => Event::Failed,
            },
            Action::LocalIsDir { local } => Event::Flag(self.local_dirs.contains_key(local)),
            Action::RemoteExists { remote } => Event::Flag(self.remote_paths.contains(remote)),
            Action::CreateRemoteFolder { remote } => {
                self.remote_paths.insert(remote.clone());
                Event::Done
            }
            Action::Upload { local, remote } => {
                if self.broken.contains(local) {
                    Event::Failed
                } else {
                    self.remote_paths.insert(remote.clone());
                    Event::Done
                }
            }
            Action::Keep { .. } => Event::Done,
            Action::Finish { .. } => Event::Done,
        }
    }
}

fn directive(mode: &str) -> Dirsync {
    Dirsync {
        remote_path: "r".to_string(),
        local_path: "l".to_string(),
        sync_mode: mode.to_string(),
    }
}

fn drive(dir: &Dirsync, sides: &mut Sides) -> (Outcome, Report) {
    let mut engine = sync_files(dir);
    for _ in 0..10_000 {
        let action = engine.action();
        if let Action::Finish { outcome } = action {
            sides.log.push(action.clone());
            assert_eq!(engine.outcome(), Some(outcome));
            return (outcome, engine.report());
        }
        assert_eq!(engine.outcome(), None);
        let event = sides.perform(&action);
        engine = engine.step(event);
    }
    panic!("the engine did not come to an end");
}

fn small_tree() -> Sides {
    Sides::new()
        .remote_dir("r", &[("a.txt", "file"), ("sub", "folder"), ("z.txt", "file")])
        .remote_dir("r/sub", &[("b.txt", "file")])
}

fn is_download_side(action: &Action) -> bool {
    matches!(
        action,
        Action::ListRemote { .. }
            | Action::LocalExists { .. }
            | Action::CreateLocalDir { .. }
            | Action::Download { .. }
    )
}

fn is_upload_side(action: &Action) -> bool {
    matches!(
        action,
        Action::ListLocal { .. }
            | Action::LocalIsDir { .. }
            | Action::RemoteExists { .. }
            | Action::CreateRemoteFolder { .. }
            | Action::Upload { .. }
    )
}

fn s(text: &str) -> String {
    text.to_string()
}

#[test]
fn pull_visits_entries_depth_first_in_listing_order() {
    let mut sides = small_tree();
    let (outcome, report) = drive(&directive("get"), &mut sides);
    assert_eq!(outcome, Outcome::Finished);
    assert_eq!(
        sides.log,
        vec![
            Action::Stat { remote: s("r") },
            Action::ListRemote { remote: s("r") },
            Action::LocalExists { local: s("l/a.txt") },
            Action::Download { remote: s("r/a.txt"), local: s("l/a.txt") },
            Action::LocalExists { local: s("l/sub") },
            Action::CreateLocalDir { local: s("l/sub") },
            Action::ListRemote { remote: s("r/sub") },
            Action::LocalExists { local: s("l/sub/b.txt") },
            Action::Download { remote: s("r/sub/b.txt"), local: s("l/sub/b.txt") },
            Action::LocalExists { local: s("l/z.txt") },
            Action::Download { remote: s("r/z.txt"), local: s("l/z.txt") },
            Action::Finish { outcome: Outcome::Finished },
        ]
    );
    assert_eq!(report, Report { kept: 0, created: 1, transferred: 3, failed: 0 });
}

#[test]
fn second_pull_downloads_nothing() {
    let mut sides = small_tree();
    drive(&directive("get"), &mut sides);
    let downloads_first =
        sides.log.iter().filter(|a| matches!(a, Action::Download { .. })).count();
    assert_eq!(downloads_first, 3);
    sides.log.clear();
    let (outcome, report) = drive(&directive("get"), &mut sides);
    assert_eq!(outcome, Outcome::Finished);
    assert!(sides.log.iter().all(|a| !matches!(a, Action::Download { .. })));
    assert!(sides.log.iter().all(|a| !matches!(a, Action::CreateLocalDir { .. })));
    assert_eq!(report, Report { kept: 4, created: 0, transferred: 0, failed: 0 });
}

#[test]
fn second_pull_downloads_nothing_even_after_a_broken_transfer() {
    let mut sides = small_tree();
    sides.broken.insert(s("r/sub/b.txt"));
    let (_, first) = drive(&directive("get"), &mut sides);
    assert_eq!(first.failed, 1);
    sides.log.clear();
    let (_, second) = drive(&directive("get"), &mut sides);
    assert!(sides.log.iter().all(|a| !matches!(a, Action::Download { .. })));
    assert_eq!(second, Report { kept: 4, created: 0, transferred: 0, failed: 0 });
}

#[test]
fn get_mode_asks_for_nothing_of_a_push() {
    let mut sides = small_tree().local_dir("l", &["local.txt"]);
    drive(&directive("get"), &mut sides);
    assert!(sides.log.iter().all(|a| !is_upload_side(a)));
    assert!(sides.log.iter().any(is_download_side));
}

#[test]
fn send_mode_asks_for_nothing_of_a_pull() {
    let mut sides = small_tree().local_dir("l", &["local.txt"]);
    drive(&directive("send"), &mut sides);
    assert!(sides.log.iter().all(|a| !is_download_side(a)));
    assert_eq!(
        sides.log,
        vec![
            Action::Stat { remote: s("r") },
            Action::ListLocal { local: s("l") },
            Action::LocalIsDir { local: s("l/local.txt") },
            Action::RemoteExists { remote: s("r/local.txt") },
            Action::Upload { local: s("l/local.txt"), remote: s("r/local.txt") },
            Action::Finish { outcome: Outcome::Finished },
        ]
    );
}

#[test]
fn bidirectional_pulls_before_it_pushes() {
    let mut sides = small_tree().local_dir("l", &["local.txt"]);
    let (outcome, _) = drive(&directive("bidirectional"), &mut sides);
    assert_eq!(outcome, Outcome::Finished);
    let first_upload = sides.log.iter().position(is_upload_side).unwrap();
    let last_download = sides.log.iter().rposition(is_download_side).unwrap();
    assert!(last_download < first_upload);
    assert_eq!(sides.log[first_upload], Action::ListLocal { local: s("l") });
    assert_eq!(sides.log[1], Action::ListRemote { remote: s("r") });
    assert!(sides.log.iter().any(|a| matches!(a, Action::Download { .. })));
    assert!(sides.log.iter().any(|a| matches!(a, Action::Upload { .. })));
}

#[test]
fn a_file_as_remote_root_is_turned_down() {
    for mode in ["get", "send", "bidirectional"] {
        let mut sides = small_tree().local_dir("l", &["local.txt"]);
        sides.root_kind = s("file");
        let (outcome, report) = drive(&directive(mode), &mut sides);
        assert_eq!(outcome, Outcome::FileGuard);
        assert_eq!(
            sides.log,
            vec![
                Action::Stat { remote: s("r") },
                Action::Finish { outcome: Outcome::FileGuard },
            ]
        );
        assert_eq!(report, Report { kept: 0, created: 0, transferred: 0, failed: 0 });
    }
}

#[test]
fn the_guard_keeps_turning_down_whatever_is_answered() {
    let engine = sync_files(&directive("bidirectional"));
    let engine = engine.step(Event::Properties(FileProperties { kind: s("file") }));
    let engine = engine.step(Event::Listing(FileList {
        list: vec![File { name: s("a"), kind: s("file") }],
    }));
    let engine = engine.step(Event::Flag(false));
    let engine = engine.step(Event::Done);
    assert_eq!(engine.action(), Action::Finish { outcome: Outcome::FileGuard });
    assert_eq!(engine.pending(), 0);
}

#[test]
fn an_existing_local_file_is_never_fetched() {
    let mut sides = small_tree();
    sides.local_paths.insert(s("l/a.txt"));
    let (_, report) = drive(&directive("get"), &mut sides);
    assert!(sides.log.contains(&Action::LocalExists { local: s("l/a.txt") }));
    assert!(sides.log.contains(&Action::Keep { path: s("l/a.txt") }));
    assert!(!sides
        .log
        .iter()
        .any(|a| matches!(a, Action::Download { local, .. } if local == "l/a.txt")));
    assert_eq!(report, Report { kept: 1, created: 1, transferred: 2, failed: 0 });
}

#[test]
fn an_existing_remote_object_is_never_overwritten() {
    let mut sides = Sides::new()
        .remote_dir("r", &[("same.txt", "file")])
        .local_dir("l", &["same.txt", "new.txt"]);
    let (_, report) = drive(&directive("send"), &mut sides);
    assert!(sides.log.contains(&Action::Keep { path: s("r/same.txt") }));
    assert!(!sides
        .log
        .iter()
        .any(|a| matches!(a, Action::Upload { remote, .. } if remote == "r/same.txt")));
    assert!(sides.log.contains(&Action::Upload { local: s("l/new.txt"), remote: s("r/new.txt") }));
    assert_eq!(report, Report { kept: 1, created: 0, transferred: 1, failed: 0 });
}

#[test]
fn an_existing_local_folder_is_still_descended_into() {
    let mut sides = small_tree();
    sides.local_paths.insert(s("l/sub"));
    drive(&directive("get"), &mut sides);
    let kept = sides.log.iter().position(|a| *a == Action::Keep { path: s("l/sub") }).unwrap();
    assert_eq!(sides.log[kept + 1], Action::ListRemote { remote: s("r/sub") });
    assert!(!sides.log.contains(&Action::CreateLocalDir { local: s("l/sub") }));
    assert!(sides
        .log
        .contains(&Action::Download { remote: s("r/sub/b.txt"), local: s("l/sub/b.txt") }));
}

#[test]
fn one_failed_transfer_of_three_leaves_the_other_two_attempted() {
    let mut sides = Sides::new()
        .remote_dir("r", &[("one", "file"), ("two", "file"), ("three", "file")]);
    sides.broken.insert(s("r/two"));
    let (outcome, report) = drive(&directive("get"), &mut sides);
    assert_eq!(outcome, Outcome::Finished);
    for name in ["one", "two", "three"] {
        assert!(sides.log.contains(&Action::Download {
            remote: format!("r/{}", name),
            local: format!("l/{}", name),
        }));
    }
    assert_eq!(report, Report { kept: 0, created: 0, transferred: 2, failed: 1 });
}

#[test]
fn one_failed_upload_of_three_leaves_the_other_two_attempted() {
    let mut sides = Sides::new().remote_dir("r", &[]).local_dir("l", &["one", "two", "three"]);
    sides.broken.insert(s("l/one"));
    let (_, report) = drive(&directive("send"), &mut sides);
    let uploads = sides.log.iter().filter(|a| matches!(a, Action::Upload { .. })).count();
    assert_eq!(uploads, 3);
    assert_eq!(report, Report { kept: 0, created: 0, transferred: 2, failed: 1 });
}

#[test]
fn a_folder_that_cannot_be_listed_costs_one_failure() {
    let mut sides = Sides::new()
        .remote_dir("r", &[("gone", "folder"), ("after.txt", "file")]);
    let (outcome, report) = drive(&directive("get"), &mut sides);
    assert_eq!(outcome, Outcome::Finished);
    assert!(sides.log.contains(&Action::ListRemote { remote: s("r/gone") }));
    assert!(sides
        .log
        .contains(&Action::Download { remote: s("r/after.txt"), local: s("l/after.txt") }));
    assert_eq!(report, Report { kept: 0, created: 1, transferred: 1, failed: 1 });
}

#[test]
fn push_creates_folders_and_descends() {
    let mut sides = Sides::new()
        .remote_dir("r", &[])
        .local_dir("l", &["docs", "top.txt"])
        .local_dir("l/docs", &["inner.txt"]);
    let (outcome, report) = drive(&directive("send"), &mut sides);
    assert_eq!(outcome, Outcome::Finished);
    assert_eq!(
        sides.log,
        vec![
            Action::Stat { remote: s("r") },
            Action::ListLocal { local: s("l") },
            Action::LocalIsDir { local: s("l/docs") },
            Action::RemoteExists { remote: s("r/docs") },
            Action::CreateRemoteFolder { remote: s("r/docs") },
            Action::ListLocal { local: s("l/docs") },
            Action::LocalIsDir { local: s("l/docs/inner.txt") },
            Action::RemoteExists { remote: s("r/docs/inner.txt") },
            Action::Upload { local: s("l/docs/inner.txt"), remote: s("r/docs/inner.txt") },
            Action::LocalIsDir { local: s("l/top.txt") },
            Action::RemoteExists { remote: s("r/top.txt") },
            Action::Upload { local: s("l/top.txt"), remote: s("r/top.txt") },
            Action::Finish { outcome: Outcome::Finished },
        ]
    );
    assert_eq!(report, Report { kept: 0, created: 1, transferred: 2, failed: 0 });
}

#[test]
fn a_file_pushed_is_found_by_a_pull_into_an_empty_directory() {
    let mut sides = Sides::new().remote_dir("r", &[]).local_dir("l", &["data.bin"]);
    drive(&directive("send"), &mut sides);
    assert!(sides.remote_paths.contains("r/data.bin"));
    let mut other = Sides::new().remote_dir("r", &[("data.bin", "file")]);
    let dir = Dirsync { remote_path: s("r"), local_path: s("b"), sync_mode: s("get") };
    drive(&dir, &mut other);
    assert!(other.log.contains(&Action::Download { remote: s("r/data.bin"), local: s("b/data.bin") }));
    assert!(other.local_paths.contains("b/data.bin"));
}

#[test]
fn deep_paths_are_joined_level_by_level() {
    let mut sides = Sides::new()
        .remote_dir("r", &[("a", "folder")])
        .remote_dir("r/a", &[("b", "folder")])
        .remote_dir("r/a/b", &[("c.txt", "file")]);
    drive(&directive("get"), &mut sides);
    assert!(sides
        .log
        .contains(&Action::Download { remote: s("r/a/b/c.txt"), local: s("l/a/b/c.txt") }));
}

#[test]
fn an_entry_of_any_other_kind_is_treated_as_a_file() {
    let mut sides = Sides::new().remote_dir("r", &[("odd", "symlink")]);
    drive(&directive("get"), &mut sides);
    assert!(sides.log.contains(&Action::Download { remote: s("r/odd"), local: s("l/odd") }));
    assert!(!sides.log.iter().any(|a| matches!(a, Action::ListRemote { remote } if remote == "r/odd")));
}

#[test]
fn an_unknown_mode_runs_no_phase() {
    let mut sides = small_tree().local_dir("l", &["local.txt"]);
    let (outcome, report) = drive(&directive("mirror"), &mut sides);
    assert_eq!(outcome, Outcome::Finished);
    assert_eq!(
        sides.log,
        vec![Action::Stat { remote: s("r") }, Action::Finish { outcome: Outcome::Finished }]
    );
    assert_eq!(report, Report { kept: 0, created: 0, transferred: 0, failed: 0 });
}

#[test]
fn a_root_whose_properties_cannot_be_had_ends_the_work() {
    let mut sides = small_tree();
    sides.root_kind = s("unreachable");
    let (outcome, _) = drive(&directive("get"), &mut sides);
    assert_eq!(outcome, Outcome::StatFailed);
    assert_eq!(sides.log.len(), 2);
}

#[test]
fn an_answer_of_the_wrong_shape_aborts() {
    let engine = sync_files(&directive("get"));
    let engine = engine.step(Event::Flag(true));
    assert_eq!(engine.outcome(), Some(Outcome::Aborted));

    let engine = sync_files(&directive("get"));
    let engine = engine.step(Event::Properties(FileProperties { kind: s("folder") }));
    assert_eq!(engine.action(), Action::ListRemote { remote: s("r") });
    let engine = engine.step(Event::Names(vec![s("a")]));
    assert_eq!(engine.action(), Action::Finish { outcome: Outcome::Aborted });

    let engine = sync_files(&directive("send"));
    let engine = engine.step(Event::Properties(FileProperties { kind: s("folder") }));
    assert_eq!(engine.direction(), Direction::Push);
    let engine = engine.step(Event::Listing(FileList { list: vec![] }));
    assert_eq!(engine.outcome(), Some(Outcome::Aborted));
}

#[test]
fn a_failed_question_passes_the_entry_over() {
    let engine = sync_files(&directive("send"));
    let engine = engine.step(Event::Properties(FileProperties { kind: s("folder") }));
    let engine = engine.step(Event::Names(vec![s("first"), s("second")]));
    assert_eq!(engine.action(), Action::LocalIsDir { local: s("l/first") });
    assert_eq!(engine.pending(), 1);
    let engine = engine.step(Event::Failed);
    assert_eq!(engine.action(), Action::LocalIsDir { local: s("l/second") });
    let engine = engine.step(Event::Flag(false));
    assert_eq!(engine.action(), Action::RemoteExists { remote: s("r/second") });
    let engine = engine.step(Event::Failed);
    assert_eq!(engine.action(), Action::Finish { outcome: Outcome::Finished });
    assert_eq!(engine.report(), Report { kept: 0, created: 0, transferred: 0, failed: 2 });
}

#[test]
fn an_empty_remote_root_finishes_at_once() {
    let mut sides = Sides::new().remote_dir("r", &[]);
    let (outcome, report) = drive(&directive("get"), &mut sides);
    assert_eq!(outcome, Outcome::Finished);
    assert_eq!(sides.log.len(), 3);
    assert_eq!(report, Report { kept: 0, created: 0, transferred: 0, failed: 0 });
}

#[test]
fn outcomes_read_as_status_lines() {
    assert_eq!(Outcome::Finished.message(), "sync finished");
    assert_eq!(Outcome::FileGuard.message(), "cannot sync a file");
    assert_ne!(Outcome::StatFailed.message(), Outcome::Aborted.message());
}

#[test]
fn a_run_counts_as_failed_when_anything_failed() {
    let clean = Report { kept: 1, created: 2, transferred: 3, failed: 0 };
    let dirty = Report { kept: 1, created: 2, transferred: 3, failed: 1 };
    assert!(!dirsync::engine::failed(Outcome::Finished, &clean));
    assert!(!dirsync::engine::failed(Outcome::FileGuard, &clean));
    assert!(dirsync::engine::failed(Outcome::Finished, &dirty));
    assert!(dirsync::engine::failed(Outcome::StatFailed, &clean));
    assert!(dirsync::engine::failed(Outcome::Aborted, &clean));
}

/// The pull of the directory `dir` written as a recursion.
fn pull_by_recursion(sides: &mut Sides, dir: &str) {
    let remote_dir = if dir.is_empty() { s("r") } else { format!("r/{}", dir) };
    let local_dir = if dir.is_empty() { s("l") } else { format!("l/{}", dir) };
    sides.log.push(Action::ListRemote { remote: remote_dir.clone() });
    let entries = match sides.remote_dirs.get(&remote_dir) {
        Some(entries) => entries.clone(),
        None => return,
    };
    for (name, kind) in entries {
        let local = format!("{}/{}", local_dir, name);
        let remote = format!("{}/{}", remote_dir, name);
        sides.log.push(Action::LocalExists { local: local.clone() });
        let present = sides.local_paths.contains(&local);
        if present {
            sides.log.push(Action::Keep { path: local.clone() });
        } else if kind == "folder" {
            sides.log.push(Action::CreateLocalDir { local: local.clone() });
        } else {
            sides.log.push(Action::Download { remote, local: local.clone() });
        }
        sides.local_paths.insert(local);
        if kind == "folder" {
            let below = if dir.is_empty() { name.clone() } else { format!("{}/{}", dir, name) };
            pull_by_recursion(sides, &below);
        }
    }
}

/// The push of the directory `dir` written as a recursion.
fn push_by_recursion(sides: &mut Sides, dir: &str) {
    let remote_dir = if dir.is_empty() { s("r") } else { format!("r/{}", dir) };
    let local_dir = if dir.is_empty() { s("l") } else { format!("l/{}", dir) };
    sides.log.push(Action::ListLocal { local: local_dir.clone() });
    let names = match sides.local_dirs.get(&local_dir) {
        Some(names) => names.clone(),
        None => return,
    };
    for name in names {
        let local = format!("{}/{}", local_dir, name);
        let remote = format!("{}/{}", remote_dir, name);
        sides.log.push(Action::LocalIsDir { local: local.clone() });
        let is_dir = sides.local_dirs.contains_key(&local);
        sides.log.push(Action::RemoteExists { remote: remote.clone() });
        let present = sides.remote_paths.contains(&remote);
        if present {
            sides.log.push(Action::Keep { path: remote.clone() });
        } else if is_dir {
            sides.log.push(Action::CreateRemoteFolder { remote: remote.clone() });
        } else {
            sides.log.push(Action::Upload { local, remote: remote.clone() });
        }
        sides.remote_paths.insert(remote);
        if is_dir {
            let below = if dir.is_empty() { name.clone() } else { format!("{}/{}", dir, name) };
            push_by_recursion(sides, &below);
        }
    }
}

fn bushy() -> Sides {
    let mut sides = Sides::new()
        .remote_dir("r", &[("a", "folder"), ("b.txt", "file"), ("c", "folder"), ("d", "folder")])
        .remote_dir("r/a", &[("a1.txt", "file"), ("deep", "folder"), ("a2.txt", "file")])
        .remote_dir("r/a/deep", &[("x", "file"), ("y", "file")])
        .remote_dir("r/c", &[])
        .local_dir("l", &["m", "n.txt", "o"])
        .local_dir("l/m", &["m1", "m2.txt"])
        .local_dir("l/m/m1", &["z.txt"])
        .local_dir("l/o", &[]);
    sides.local_paths.insert(s("l/a"));
    sides.local_paths.insert(s("l/a/a2.txt"));
    sides.remote_paths.insert(s("r/m"));
    sides.remote_paths.insert(s("r/n.txt"));
    sides
}

#[test]
fn the_engine_pulls_as_the_recursion_does() {
    let mut by_engine = bushy();
    let mut by_recursion = bushy();
    drive(&directive("get"), &mut by_engine);
    by_recursion.log.push(Action::Stat { remote: s("r") });
    pull_by_recursion(&mut by_recursion, "");
    by_recursion.log.push(Action::Finish { outcome: Outcome::Finished });
    assert_eq!(by_engine.log, by_recursion.log);
    assert_eq!(by_engine.local_paths, by_recursion.local_paths);
    assert!(by_engine.log.len() > 20);
}

#[test]
fn the_engine_pushes_as_the_recursion_does() {
    let mut by_engine = bushy();
    let mut by_recursion = bushy();
    drive(&directive("send"), &mut by_engine);
    by_recursion.log.push(Action::Stat { remote: s("r") });
    push_by_recursion(&mut by_recursion, "");
    by_recursion.log.push(Action::Finish { outcome: Outcome::Finished });
    assert_eq!(by_engine.log, by_recursion.log);
    assert_eq!(by_engine.remote_paths, by_recursion.remote_paths);
    assert!(by_engine.log.len() > 15);
}

#[test]
fn the_engine_does_both_as_the_two_recursions_do() {
    let mut by_engine = bushy();
    let mut by_recursion = bushy();
    drive(&directive("bidirectional"), &mut by_engine);
    by_recursion.log.push(Action::Stat { remote: s("r") });
    pull_by_recursion(&mut by_recursion, "");
    push_by_recursion(&mut by_recursion, "");
    by_recursion.log.push(Action::Finish { outcome: Outcome::Finished });
    assert_eq!(by_engine.log, by_recursion.log);
}

#[test]
fn a_name_listed_twice_is_fetched_once() {
    let mut sides = Sides::new().remote_dir("r", &[("twin", "file"), ("twin", "file")]);
    let (_, report) = drive(&directive("get"), &mut sides);
    let fetched = sides.log.iter().filter(|a| matches!(a, Action::Download { .. })).count();
    assert_eq!(fetched, 1);
    assert_eq!(report, Report { kept: 1, created: 0, transferred: 1, failed: 0 });
}

#[test]
fn after_a_finished_pull_every_remote_entry_exists_locally() {
    let mut sides = bushy();
    let (outcome, _) = drive(&directive("get"), &mut sides);
    assert_eq!(outcome, Outcome::Finished);
    for (dir, entries) in sides.remote_dirs.clone() {
        let local_dir = format!("l{}", &dir[1..]);
        for (name, _) in entries {
            assert!(sides.local_paths.contains(&format!("{}/{}", local_dir, name)));
        }
    }
}
