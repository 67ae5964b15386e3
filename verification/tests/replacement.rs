use std::collections::HashMap;

use muxy_app::replacement::{replace_and_restart, replace_with, Progress, Request};

/// Bundles on an in-memory disk: each path to the version it holds.
struct Disk {
    bundles: HashMap<String, &'static str>,
    renames: usize,
}

impl Disk {
    fn new(entries: &[(&str, &'static str)]) -> Self {
        Disk {
            bundles: entries
                .iter()
                .map(|(path, version)| (path.to_string(), *version))
                .collect(),
            renames: 0,
        }
    }

    fn rename(&mut self, from: &str, to: &str) -> Result<(), String> {
        self.renames += 1;
        match self.bundles.remove(from) {
            Some(version) => {
                self.bundles.insert(to.to_string(), version);
                Ok(())
            }
            None => Err(format!("{from} is missing")),
        }
    }
}

fn replace(disk: &mut Disk, current: &str, next: &str, backup: &str) -> Result<(), String> {
    let mut machine = replace_with(current.into(), next.into(), backup.into());
    loop {
        let (from, to) = machine.request();
        let outcome = disk.rename(&from, &to);
        match machine.advance(outcome) {
            Progress::Continue(next) => machine = next,
            Progress::Finished(result) => return result,
        }
    }
}

#[test]
fn rollback_failure_reports_recovery_location() {
    let mut calls = 0;
    let mut machine = replace_with("current".into(), "next".into(), "backup".into());
    let result = loop {
        calls += 1;
        let outcome = if calls == 1 {
            Ok(())
        } else {
            Err("test failure".to_string())
        };
        match machine.advance(outcome) {
            Progress::Continue(next) => machine = next,
            Progress::Finished(result) => break result,
        }
    };
    assert!(result.is_err_and(|error| error.contains("previous app is at backup")));
    assert_eq!(calls, 3);
}

#[test]
fn failed_replacement_restores_the_whole_previous_bundle() {
    let mut disk = Disk::new(&[("Muxy Beta.app", "old server")]);
    let result = replace(&mut disk, "Muxy Beta.app", "missing.app", "previous.app");
    assert!(result.is_err_and(|error| error.contains("the previous app was restored")));
    assert_eq!(disk.bundles.get("Muxy Beta.app"), Some(&"old server"));
    assert!(!disk.bundles.contains_key("previous.app"));
}

#[test]
fn replacement_keeps_the_old_bundle_available_until_restart() {
    let mut disk = Disk::new(&[("current.app", "old"), ("next.app", "new")]);
    assert_eq!(replace(&mut disk, "current.app", "next.app", "previous.app"), Ok(()));
    assert_eq!(disk.bundles.get("current.app"), Some(&"new"));
    assert_eq!(disk.bundles.get("previous.app"), Some(&"old"));
    assert_eq!(disk.renames, 2);
}

#[test]
fn failed_restart_restores_the_previous_app() {
    let mut disk = Disk::new(&[("current.app", "old"), ("next.app", "new")]);
    let mut machine = replace_and_restart("current.app".into(), "next.app".into(), "previous.app".into());
    let result = loop {
        let outcome = match machine.request() {
            Request::Rename(from, to) => disk.rename(&from, &to),
            Request::Restart => Err("spawn failed".to_string()),
        };
        match machine.advance(outcome) {
            Progress::Continue(next) => machine = next,
            Progress::Finished(result) => break result,
        }
    };
    assert_eq!(
        result,
        Err("Could not restart Muxy Beta; the previous app was restored: spawn failed".to_string())
    );
    assert_eq!(disk.bundles.get("current.app"), Some(&"old"));
    assert_eq!(disk.bundles.get("next.app"), Some(&"new"));
}

#[test]
fn a_failed_move_aside_changes_nothing() {
    let mut disk = Disk::new(&[("next.app", "new")]);
    let result = replace(&mut disk, "current.app", "next.app", "previous.app");
    assert_eq!(result, Err("current.app is missing".to_string()));
    assert_eq!(disk.renames, 1);
    assert_eq!(disk.bundles.get("next.app"), Some(&"new"));
}
