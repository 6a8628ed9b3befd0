use ili::engine::{Action, Engine, Event, Report};

/// A simulated host: an in-memory store, registry and transport.
struct Host {
    registry: Vec<u8>,
    installed: Vec<Vec<u8>>,
    manifests: Vec<(Vec<u8>, Option<Vec<u8>>)>,
    failing_clones: Vec<Vec<u8>>,
    failing_pulls: Vec<Vec<u8>>,
    clones_attempted: Vec<Vec<u8>>,
}

impl Host {
    fn new(registry: &[u8]) -> Host {
        Host {
            registry: registry.to_vec(),
            installed: Vec::new(),
            manifests: Vec::new(),
            failing_clones: Vec::new(),
            failing_pulls: Vec::new(),
            clones_attempted: Vec::new(),
        }
    }

    fn manifest_of(&self, name: &[u8]) -> Option<Vec<u8>> {
        for (n, t) in &self.manifests {
            if n == name {
                return t.clone();
            }
        }
        None
    }

    fn perform(&mut self, action: Action) -> Event {
        match action {
            Action::FetchRegistry => Event::RegistryText { content: self.registry.clone() },
            Action::CheckExists { name } => Event::Exists { yes: self.installed.contains(&name) },
            Action::CloneRepo { name, url: _ } => {
                self.clones_attempted.push(name.clone());
                if self.failing_clones.contains(&name) {
                    Event::Completed { ok: false }
                } else {
                    self.installed.push(name);
                    Event::Completed { ok: true }
                }
            }
            Action::Pull { name } => {
                Event::Completed { ok: !self.failing_pulls.contains(&name) }
            }
            Action::ReadManifest { name } => Event::ManifestText { text: self.manifest_of(&name) },
            Action::DeleteDir { name } => {
                self.installed.retain(|n| n != &name);
                Event::Completed { ok: true }
            }
        }
    }
}

fn drive(mut engine: Engine, host: &mut Host) -> Vec<Report> {
    loop {
        let first = match engine.step() {
            None => break,
            Some(a) => a,
        };
        let mut pending = Some(first);
        while let Some(action) = pending.take() {
            let event = host.perform(action);
            pending = engine.answer(event);
        }
    }
    engine.take_log()
}

fn manifest_text(name: &str, deps: &[&str]) -> Vec<u8> {
    let dep_list: Vec<String> = deps.iter().map(|d| format!("\"{}\"", d)).collect();
    format!(
        "{{\n\"name\": \"{}\",\n\"version\": \"1\",\n\"entry\": \"e\",\n\"dependencies\": [{}]\n}}",
        name,
        dep_list.join(", ")
    )
    .into_bytes()
}

#[test]
fn install_already_present_is_noop_success_without_fetch() {
    let mut host = Host::new(b"a = https://x/a.git");
    host.installed.push(b"a".to_vec());
    let log = drive(Engine::install(b"a".to_vec()), &mut host);
    assert_eq!(log.len(), 1);
    assert!(matches!(&log[0], Report::AlreadyInstalled { name } if name == b"a"));
    assert!(host.clones_attempted.is_empty());
}

#[test]
fn install_unknown_name_reports_not_in_registry() {
    let mut host = Host::new(b"a = https://x/a.git");
    let log = drive(Engine::install(b"zzz".to_vec()), &mut host);
    assert_eq!(log.len(), 1);
    assert!(matches!(&log[0], Report::NotInRegistry { name } if name == b"zzz"));
}

#[test]
fn install_rolls_back_on_invalid_manifest() {
    let mut host = Host::new(b"a = https://x/a.git");
    host.manifests.push((b"a".to_vec(), Some(b"not a manifest".to_vec())));
    let log = drive(Engine::install(b"a".to_vec()), &mut host);
    assert_eq!(log.len(), 1);
    assert!(matches!(&log[0], Report::InvalidManifest { name } if name == b"a"));
    // the fetched directory no longer exists afterwards
    assert!(!host.installed.contains(&b"a".to_vec()));
}

#[test]
fn install_recurses_into_dependencies_best_effort() {
    let mut host = Host::new(b"a = u1\nb = u2\nc = u3");
    host.manifests.push((b"a".to_vec(), Some(manifest_text("a", &["b", "c"]))));
    host.manifests.push((b"b".to_vec(), Some(manifest_text("b", &[]))));
    host.manifests.push((b"c".to_vec(), Some(manifest_text("c", &[]))));
    host.failing_clones.push(b"b".to_vec());
    let log = drive(Engine::install(b"a".to_vec()), &mut host);
    // both dependencies were attempted, in declared order, after the root
    assert_eq!(host.clones_attempted, vec![b"a".to_vec(), b"b".to_vec(), b"c".to_vec()]);
    assert_eq!(log.len(), 3);
    assert!(matches!(&log[0], Report::Installed { name, .. } if name == b"a"));
    assert!(matches!(&log[1], Report::CloneFailed { name } if name == b"b"));
    assert!(matches!(&log[2], Report::Installed { name, .. } if name == b"c"));
    assert!(host.installed.contains(&b"c".to_vec()));
}

#[test]
fn install_clone_failure_closes_only_that_node() {
    let mut host = Host::new(b"a = u1");
    host.failing_clones.push(b"a".to_vec());
    let log = drive(Engine::install(b"a".to_vec()), &mut host);
    assert_eq!(log.len(), 1);
    assert!(matches!(&log[0], Report::CloneFailed { name } if name == b"a"));
}

#[test]
fn update_absent_name_reports_not_installed() {
    let mut host = Host::new(b"");
    let log = drive(Engine::update(b"a".to_vec()), &mut host);
    assert_eq!(log.len(), 1);
    assert!(matches!(&log[0], Report::NotInstalled { name } if name == b"a"));
}

#[test]
fn update_pull_failure_is_reported() {
    let mut host = Host::new(b"");
    host.installed.push(b"a".to_vec());
    host.failing_pulls.push(b"a".to_vec());
    let log = drive(Engine::update(b"a".to_vec()), &mut host);
    assert_eq!(log.len(), 1);
    assert!(matches!(&log[0], Report::PullFailed { name } if name == b"a"));
}

#[test]
fn update_recurses_into_dependencies() {
    let mut host = Host::new(b"");
    host.installed.push(b"a".to_vec());
    host.installed.push(b"b".to_vec());
    host.manifests.push((b"a".to_vec(), Some(manifest_text("a", &["b", "c"]))));
    host.manifests.push((b"b".to_vec(), Some(manifest_text("b", &[]))));
    let log = drive(Engine::update(b"a".to_vec()), &mut host);
    assert_eq!(log.len(), 3);
    assert!(matches!(&log[0], Report::Updated { name, .. } if name == b"a"));
    assert!(matches!(&log[1], Report::Updated { name, .. } if name == b"b"));
    assert!(matches!(&log[2], Report::NotInstalled { name } if name == b"c"));
}

#[test]
fn update_with_invalid_manifest_warns_but_counts_as_updated() {
    let mut host = Host::new(b"");
    host.installed.push(b"a".to_vec());
    host.manifests.push((b"a".to_vec(), Some(b"garbage".to_vec())));
    let log = drive(Engine::update(b"a".to_vec()), &mut host);
    assert_eq!(log.len(), 1);
    assert!(matches!(&log[0], Report::UpdatedInvalidManifest { name } if name == b"a"));
    // no rollback on update: the library stays installed
    assert!(host.installed.contains(&b"a".to_vec()));
}

#[test]
fn remove_installed_library() {
    let mut host = Host::new(b"");
    host.installed.push(b"a".to_vec());
    let log = drive(Engine::remove(b"a".to_vec()), &mut host);
    assert_eq!(log.len(), 1);
    assert!(matches!(&log[0], Report::Removed { name } if name == b"a"));
    assert!(host.installed.is_empty());
}

#[test]
fn remove_absent_library_reports_not_installed() {
    let mut host = Host::new(b"");
    let log = drive(Engine::remove(b"a".to_vec()), &mut host);
    assert_eq!(log.len(), 1);
    assert!(matches!(&log[0], Report::NotInstalled { name } if name == b"a"));
}

#[test]
fn reinstall_removes_then_installs_afresh() {
    let mut host = Host::new(b"a = u1");
    host.installed.push(b"a".to_vec());
    host.manifests.push((b"a".to_vec(), Some(manifest_text("a", &[]))));
    let log = drive(Engine::reinstall(b"a".to_vec()), &mut host);
    assert_eq!(log.len(), 2);
    assert!(matches!(&log[0], Report::Removed { name } if name == b"a"));
    assert!(matches!(&log[1], Report::Installed { name, .. } if name == b"a"));
    assert_eq!(host.clones_attempted, vec![b"a".to_vec()]);
}

#[test]
fn reinstall_tolerates_absence_before_installing() {
    let mut host = Host::new(b"a = u1");
    host.manifests.push((b"a".to_vec(), Some(manifest_text("a", &[]))));
    let log = drive(Engine::reinstall(b"a".to_vec()), &mut host);
    assert_eq!(log.len(), 2);
    assert!(matches!(&log[0], Report::NotInstalled { name } if name == b"a"));
    assert!(matches!(&log[1], Report::Installed { name, .. } if name == b"a"));
}

#[test]
fn update_all_of_empty_store_reports_nothing_to_update() {
    let mut host = Host::new(b"");
    let log = drive(Engine::update_all(Vec::new()), &mut host);
    assert_eq!(log.len(), 1);
    assert!(matches!(&log[0], Report::NothingToUpdate));
}

#[test]
fn update_all_processes_names_in_order() {
    let mut host = Host::new(b"");
    host.installed.push(b"a".to_vec());
    host.installed.push(b"b".to_vec());
    host.manifests.push((b"a".to_vec(), Some(manifest_text("a", &[]))));
    host.manifests.push((b"b".to_vec(), Some(manifest_text("b", &[]))));
    let log = drive(Engine::update_all(vec![b"a".to_vec(), b"b".to_vec()]), &mut host);
    assert_eq!(log.len(), 2);
    assert!(matches!(&log[0], Report::Updated { name, .. } if name == b"a"));
    assert!(matches!(&log[1], Report::Updated { name, .. } if name == b"b"));
}

#[test]
fn installed_report_carries_the_manifest() {
    let mut host = Host::new(b"a = u1");
    host.manifests.push((b"a".to_vec(), Some(manifest_text("a", &[]))));
    let log = drive(Engine::install(b"a".to_vec()), &mut host);
    match &log[0] {
        Report::Installed { name, manifest } => {
            assert_eq!(name, b"a");
            assert_eq!(manifest.name, b"a".to_vec());
            assert_eq!(manifest.version, b"1".to_vec());
            assert_eq!(manifest.entry, b"e".to_vec());
        }
        other => panic!("unexpected report: {:?}", other),
    }
}
