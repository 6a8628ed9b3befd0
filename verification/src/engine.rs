//! The dependency installer/updater: a best-effort, depth-first walk over
//! manifest-declared dependencies, driven as an explicit task stack. The
//! engine decides; the host performs each returned `Action` (registry
//! refresh, clone, pull, directory checks and removal) and feeds the
//! outcome back as an `Event`. Failure of one task never aborts its
//! siblings: the task is closed with a report and the walk goes on.

use vstd::prelude::*;
use crate::manifest::{Manifest, ManifestView, parse_manifest, parse_manifest_spec};
use crate::registry::find_repo_spec;
use crate::text::clone_bytes;

verus! {

/// One pending node of the walk, together with how far it has come.
/// Tasks below the top of the stack are always at their start phase.
#[derive(Debug)]
pub enum Task {
    InstallStart { name: Vec<u8> },
    InstallAwaitRegistry { name: Vec<u8> },
    InstallAwaitExists { name: Vec<u8>, url: Vec<u8> },
    InstallAwaitClone { name: Vec<u8>, url: Vec<u8> },
    InstallAwaitManifest { name: Vec<u8> },
    InstallAwaitRollback { name: Vec<u8> },
    UpdateStart { name: Vec<u8> },
    UpdateAwaitExists { name: Vec<u8> },
    UpdateAwaitPull { name: Vec<u8> },
    UpdateAwaitManifest { name: Vec<u8> },
    RemoveStart { name: Vec<u8> },
    RemoveAwaitExists { name: Vec<u8> },
    RemoveAwaitDelete { name: Vec<u8> },
}

/// Mathematical model of a task.
pub enum TaskV {
    InstallStart { name: Seq<u8> },
    InstallAwaitRegistry { name: Seq<u8> },
    InstallAwaitExists { name: Seq<u8>, url: Seq<u8> },
    InstallAwaitClone { name: Seq<u8>, url: Seq<u8> },
    InstallAwaitManifest { name: Seq<u8> },
    InstallAwaitRollback { name: Seq<u8> },
    UpdateStart { name: Seq<u8> },
    UpdateAwaitExists { name: Seq<u8> },
    UpdateAwaitPull { name: Seq<u8> },
    UpdateAwaitManifest { name: Seq<u8> },
    RemoveStart { name: Seq<u8> },
    RemoveAwaitExists { name: Seq<u8> },
    RemoveAwaitDelete { name: Seq<u8> },
}

impl View for Task {
    type V = TaskV;

    open spec fn view(&self) -> TaskV {
        match self {
            Task::InstallStart { name } => TaskV::InstallStart { name: name@ },
            Task::InstallAwaitRegistry { name } => TaskV::InstallAwaitRegistry { name: name@ },
            Task::InstallAwaitExists { name, url } => TaskV::InstallAwaitExists {
                name: name@,
                url: url@,
            },
            Task::InstallAwaitClone { name, url } => TaskV::InstallAwaitClone {
                name: name@,
                url: url@,
            },
            Task::InstallAwaitManifest { name } => TaskV::InstallAwaitManifest { name: name@ },
            Task::InstallAwaitRollback { name } => TaskV::InstallAwaitRollback { name: name@ },
            Task::UpdateStart { name } => TaskV::UpdateStart { name: name@ },
            Task::UpdateAwaitExists { name } => TaskV::UpdateAwaitExists { name: name@ },
            Task::UpdateAwaitPull { name } => TaskV::UpdateAwaitPull { name: name@ },
            Task::UpdateAwaitManifest { name } => TaskV::UpdateAwaitManifest { name: name@ },
            Task::RemoveStart { name } => TaskV::RemoveStart { name: name@ },
            Task::RemoveAwaitExists { name } => TaskV::RemoveAwaitExists { name: name@ },
            Task::RemoveAwaitDelete { name } => TaskV::RemoveAwaitDelete { name: name@ },
        }
    }
}

/// What the host must do next for the engine.
#[derive(Debug)]
pub enum Action {
    /// Refresh the registry and hand back its text.
    FetchRegistry,
    /// Tell whether the named library's directory exists in the store.
    CheckExists { name: Vec<u8> },
    /// Clone `url` into the named library's directory; report success.
    CloneRepo { name: Vec<u8>, url: Vec<u8> },
    /// Pull the latest content in the named library's directory.
    Pull { name: Vec<u8> },
    /// Hand back the named library's manifest file text, if readable.
    ReadManifest { name: Vec<u8> },
    /// Remove the named library's directory.
    DeleteDir { name: Vec<u8> },
}

/// Mathematical model of an action.
pub enum ActionV {
    FetchRegistry,
    CheckExists { name: Seq<u8> },
    CloneRepo { name: Seq<u8>, url: Seq<u8> },
    Pull { name: Seq<u8> },
    ReadManifest { name: Seq<u8> },
    DeleteDir { name: Seq<u8> },
}

impl View for Action {
    type V = ActionV;

    open spec fn view(&self) -> ActionV {
        match self {
            Action::FetchRegistry => ActionV::FetchRegistry,
            Action::CheckExists { name } => ActionV::CheckExists { name: name@ },
            Action::CloneRepo { name, url } => ActionV::CloneRepo { name: name@, url: url@ },
            Action::Pull { name } => ActionV::Pull { name: name@ },
            Action::ReadManifest { name } => ActionV::ReadManifest { name: name@ },
            Action::DeleteDir { name } => ActionV::DeleteDir { name: name@ },
        }
    }
}

/// The host's answer to the pending action.
#[derive(Debug)]
pub enum Event {
    /// The registry file's text.
    RegistryText { content: Vec<u8> },
    /// Whether the directory exists.
    Exists { yes: bool },
    /// Whether the clone, pull or removal succeeded.
    Completed { ok: bool },
    /// The manifest file's text, absent when it could not be read.
    ManifestText { text: Option<Vec<u8>> },
}

/// Mathematical model of an event.
pub enum EventV {
    RegistryText { content: Seq<u8> },
    Exists { yes: bool },
    Completed { ok: bool },
    ManifestText { text: Option<Seq<u8>> },
}

impl View for Event {
    type V = EventV;

    open spec fn view(&self) -> EventV {
        match self {
            Event::RegistryText { content } => EventV::RegistryText { content: content@ },
            Event::Exists { yes } => EventV::Exists { yes: *yes },
            Event::Completed { ok } => EventV::Completed { ok: *ok },
            Event::ManifestText { text } => EventV::ManifestText {
                text: match text {
                    Some(t) => Some(t@),
                    None => None,
                },
            },
        }
    }
}

/// The outcome recorded for one closed task.
#[derive(Debug)]
pub enum Report {
    /// Fresh install, with the manifest that was read.
    Installed { name: Vec<u8>, manifest: Manifest },
    /// Install short-circuit: the name was already present.
    AlreadyInstalled { name: Vec<u8> },
    /// The registry has no entry for the name.
    NotInRegistry { name: Vec<u8> },
    /// The transport failed to clone.
    CloneFailed { name: Vec<u8> },
    /// A fetched library had no valid manifest and was rolled back.
    InvalidManifest { name: Vec<u8> },
    /// Update succeeded, with the manifest that was read.
    Updated { name: Vec<u8>, manifest: Manifest },
    /// Update succeeded but the manifest is invalid afterwards.
    UpdatedInvalidManifest { name: Vec<u8> },
    /// The transport failed to pull.
    PullFailed { name: Vec<u8> },
    /// Update or removal of a name that is not installed.
    NotInstalled { name: Vec<u8> },
    /// The library was removed.
    Removed { name: Vec<u8> },
    /// Update of everything found nothing installed.
    NothingToUpdate,
}

/// Mathematical model of a report.
pub enum ReportV {
    Installed { name: Seq<u8>, manifest: ManifestView },
    AlreadyInstalled { name: Seq<u8> },
    NotInRegistry { name: Seq<u8> },
    CloneFailed { name: Seq<u8> },
    InvalidManifest { name: Seq<u8> },
    Updated { name: Seq<u8>, manifest: ManifestView },
    UpdatedInvalidManifest { name: Seq<u8> },
    PullFailed { name: Seq<u8> },
    NotInstalled { name: Seq<u8> },
    Removed { name: Seq<u8> },
    NothingToUpdate,
}

impl View for Report {
    type V = ReportV;

    open spec fn view(&self) -> ReportV {
        match self {
            Report::Installed { name, manifest } => ReportV::Installed {
                name: name@,
                manifest: manifest@,
            },
            Report::AlreadyInstalled { name } => ReportV::AlreadyInstalled { name: name@ },
            Report::NotInRegistry { name } => ReportV::NotInRegistry { name: name@ },
            Report::CloneFailed { name } => ReportV::CloneFailed { name: name@ },
            Report::InvalidManifest { name } => ReportV::InvalidManifest { name: name@ },
            Report::Updated { name, manifest } => ReportV::Updated {
                name: name@,
                manifest: manifest@,
            },
            Report::UpdatedInvalidManifest { name } => ReportV::UpdatedInvalidManifest {
                name: name@,
            },
            Report::PullFailed { name } => ReportV::PullFailed { name: name@ },
            Report::NotInstalled { name } => ReportV::NotInstalled { name: name@ },
            Report::Removed { name } => ReportV::Removed { name: name@ },
            Report::NothingToUpdate => ReportV::NothingToUpdate,
        }
    }
}

/// Is the task at its start phase (not waiting on the host)?
pub open spec fn is_start(t: TaskV) -> bool {
    ||| t matches TaskV::InstallStart { .. }
    ||| t matches TaskV::UpdateStart { .. }
    ||| t matches TaskV::RemoveStart { .. }
}

/// The waiting phase a start-phase task moves to.
pub open spec fn started_task(t: TaskV) -> TaskV {
    match t {
        TaskV::InstallStart { name } => TaskV::InstallAwaitRegistry { name },
        TaskV::UpdateStart { name } => TaskV::UpdateAwaitExists { name },
        TaskV::RemoveStart { name } => TaskV::RemoveAwaitExists { name },
        _ => t,
    }
}

/// The action a start-phase task asks of the host.
pub open spec fn start_action(t: TaskV) -> ActionV {
    match t {
        TaskV::InstallStart { name } => ActionV::FetchRegistry,
        TaskV::UpdateStart { name } => ActionV::CheckExists { name },
        TaskV::RemoveStart { name } => ActionV::CheckExists { name },
        _ => ActionV::FetchRegistry,
    }
}

/// The kind of event the waiting task accepts. Removal outcomes must be
/// successes: a failed directory removal stops the whole run, as the
/// store is then corrupt.
pub open spec fn expected_event(t: TaskV, ev: EventV) -> bool {
    match t {
        TaskV::InstallAwaitRegistry { .. } => ev matches EventV::RegistryText { .. },
        TaskV::InstallAwaitExists { .. } => ev matches EventV::Exists { .. },
        TaskV::InstallAwaitClone { .. } => ev matches EventV::Completed { .. },
        TaskV::InstallAwaitManifest { .. } => ev matches EventV::ManifestText { .. },
        TaskV::InstallAwaitRollback { .. } => ev == (EventV::Completed { ok: true }),
        TaskV::UpdateAwaitExists { .. } => ev matches EventV::Exists { .. },
        TaskV::UpdateAwaitPull { .. } => ev matches EventV::Completed { .. },
        TaskV::UpdateAwaitManifest { .. } => ev matches EventV::ManifestText { .. },
        TaskV::RemoveAwaitExists { .. } => ev matches EventV::Exists { .. },
        TaskV::RemoveAwaitDelete { .. } => ev == (EventV::Completed { ok: true }),
        _ => false,
    }
}

/// Install tasks for the declared dependencies, pushed in reverse so the
/// first declared dependency is processed first.
pub open spec fn install_tasks_of(deps: Seq<Seq<u8>>) -> Seq<TaskV> {
    Seq::new(deps.len(), |i: int| TaskV::InstallStart { name: deps[deps.len() - 1 - i] })
}

/// Update tasks for the declared dependencies, pushed in reverse.
pub open spec fn update_tasks_of(names: Seq<Seq<u8>>) -> Seq<TaskV> {
    Seq::new(names.len(), |i: int| TaskV::UpdateStart { name: names[names.len() - 1 - i] })
}

/// What one event does to the waiting task on top of the stack: the tasks
/// that replace it, the report recorded, and the next action asked of the
/// host. The whole behaviour of the walk is this function.
pub open spec fn transition(t: TaskV, ev: EventV) -> (Seq<TaskV>, Option<ReportV>, Option<
    ActionV,
>) {
    match (t, ev) {
        (TaskV::InstallAwaitRegistry { name }, EventV::RegistryText { content }) => {
            match find_repo_spec(content, name) {
                None => (seq![], Some(ReportV::NotInRegistry { name }), None),
                Some(url) => (
                    seq![TaskV::InstallAwaitExists { name, url }],
                    None,
                    Some(ActionV::CheckExists { name }),
                ),
            }
        },
        (TaskV::InstallAwaitExists { name, url }, EventV::Exists { yes }) => {
            if yes {
                (seq![], Some(ReportV::AlreadyInstalled { name }), None)
            } else {
                (
                    seq![TaskV::InstallAwaitClone { name, url }],
                    None,
                    Some(ActionV::CloneRepo { name, url }),
                )
            }
        },
        (TaskV::InstallAwaitClone { name, url }, EventV::Completed { ok }) => {
            if ok {
                (
                    seq![TaskV::InstallAwaitManifest { name }],
                    None,
                    Some(ActionV::ReadManifest { name }),
                )
            } else {
                (seq![], Some(ReportV::CloneFailed { name }), None)
            }
        },
        (TaskV::InstallAwaitManifest { name }, EventV::ManifestText { text }) => {
            let parsed = match text {
                None => None,
                Some(t2) => parse_manifest_spec(t2),
            };
            match parsed {
                None => (
                    seq![TaskV::InstallAwaitRollback { name }],
                    Some(ReportV::InvalidManifest { name }),
                    Some(ActionV::DeleteDir { name }),
                ),
                Some(m) => (
                    install_tasks_of(m.dependencies),
                    Some(ReportV::Installed { name, manifest: m }),
                    None,
                ),
            }
        },
        (TaskV::InstallAwaitRollback { name }, EventV::Completed { .. }) => (seq![], None, None),
        (TaskV::UpdateAwaitExists { name }, EventV::Exists { yes }) => {
            if yes {
                (seq![TaskV::UpdateAwaitPull { name }], None, Some(ActionV::Pull { name }))
            } else {
                (seq![], Some(ReportV::NotInstalled { name }), None)
            }
        },
        (TaskV::UpdateAwaitPull { name }, EventV::Completed { ok }) => {
            if ok {
                (
                    seq![TaskV::UpdateAwaitManifest { name }],
                    None,
                    Some(ActionV::ReadManifest { name }),
                )
            } else {
                (seq![], Some(ReportV::PullFailed { name }), None)
            }
        },
        (TaskV::UpdateAwaitManifest { name }, EventV::ManifestText { text }) => {
            let parsed = match text {
                None => None,
                Some(t2) => parse_manifest_spec(t2),
            };
            match parsed {
                None => (seq![], Some(ReportV::UpdatedInvalidManifest { name }), None),
                Some(m) => (
                    update_tasks_of(m.dependencies),
                    Some(ReportV::Updated { name, manifest: m }),
                    None,
                ),
            }
        },
        (TaskV::RemoveAwaitExists { name }, EventV::Exists { yes }) => {
            if yes {
                (
                    seq![TaskV::RemoveAwaitDelete { name }],
                    None,
                    Some(ActionV::DeleteDir { name }),
                )
            } else {
                (seq![], Some(ReportV::NotInstalled { name }), None)
            }
        },
        (TaskV::RemoveAwaitDelete { name }, EventV::Completed { .. }) => (
            seq![],
            Some(ReportV::Removed { name }),
            None,
        ),
        _ => (seq![], None, None),
    }
}

/// Installing a name already present in the store is a no-op success:
/// the node is closed with an already-installed report, no task replaces
/// it and no further action — in particular no clone — is asked for it.
pub proof fn lemma_install_idempotent(name: Seq<u8>, url: Seq<u8>)
    ensures
        transition(TaskV::InstallAwaitExists { name, url }, EventV::Exists { yes: true }).0
            == Seq::<TaskV>::empty(),
        transition(TaskV::InstallAwaitExists { name, url }, EventV::Exists { yes: true }).1
            == Some(ReportV::AlreadyInstalled { name }),
        transition(TaskV::InstallAwaitExists { name, url }, EventV::Exists { yes: true }).2
            is None,
{
    assert(transition(TaskV::InstallAwaitExists { name, url }, EventV::Exists { yes: true }).0
        =~= Seq::<TaskV>::empty());
}

/// When a fetch succeeded but the manifest is absent or malformed, the
/// engine rolls the fetch back: it records the failure, demands removal
/// of the destination directory, and accepts nothing short of a
/// successful removal before the walk goes on.
pub proof fn lemma_rollback_on_invalid_manifest(name: Seq<u8>, text: Option<Seq<u8>>)
    requires
        match text {
            None => true,
            Some(t) => parse_manifest_spec(t) is None,
        },
    ensures
        transition(TaskV::InstallAwaitManifest { name }, EventV::ManifestText { text }).0 == seq![
            TaskV::InstallAwaitRollback { name },
        ],
        transition(TaskV::InstallAwaitManifest { name }, EventV::ManifestText { text }).1 == Some(
            ReportV::InvalidManifest { name },
        ),
        transition(TaskV::InstallAwaitManifest { name }, EventV::ManifestText { text }).2 == Some(
            ActionV::DeleteDir { name },
        ),
        forall|ev: EventV|
            expected_event(TaskV::InstallAwaitRollback { name }, ev) ==> ev == (
            EventV::Completed { ok: true }),
{
}

/// A fresh install whose manifest parses causes an install to be
/// attempted for every declared dependency, in declared order (the next
/// task taken up is the first declared), after the node itself is
/// recorded installed. Each dependency is its own task: its outcome
/// closes only that task, so the rest are attempted regardless.
pub proof fn lemma_install_recurses_on_dependencies(name: Seq<u8>, text: Seq<u8>, m: ManifestView)
    requires
        parse_manifest_spec(text) == Some(m),
    ensures
        transition(
            TaskV::InstallAwaitManifest { name },
            EventV::ManifestText { text: Some(text) },
        ).0.len() == m.dependencies.len(),
        forall|k: int|
            0 <= k < m.dependencies.len() ==> transition(
                TaskV::InstallAwaitManifest { name },
                EventV::ManifestText { text: Some(text) },
            ).0[k] == (TaskV::InstallStart {
                name: m.dependencies[m.dependencies.len() - 1 - k],
            }),
        transition(
            TaskV::InstallAwaitManifest { name },
            EventV::ManifestText { text: Some(text) },
        ).1 == Some(ReportV::Installed { name, manifest: m }),
        transition(
            TaskV::InstallAwaitManifest { name },
            EventV::ManifestText { text: Some(text) },
        ).2 is None,
{
}

/// Model of the engine: the task stack and the reports so far.
#[verifier::ext_equal]
pub struct EngineView {
    pub tasks: Seq<TaskV>,
    pub log: Seq<ReportV>,
}

/// The dependency walk engine. Drive it by calling `step` when no task is
/// waiting, and `answer` with the outcome of each returned action, until
/// `step` returns `None`.
pub struct Engine {
    tasks: Vec<Task>,
    log: Vec<Report>,
}

impl View for Engine {
    type V = EngineView;

    closed spec fn view(&self) -> EngineView {
        EngineView {
            tasks: Seq::new(self.tasks@.len(), |i: int| self.tasks@[i]@),
            log: Seq::new(self.log@.len(), |i: int| self.log@[i]@),
        }
    }
}

impl Engine {
    /// Every task below the top of the stack is at its start phase.
    pub open spec fn wf(&self) -> bool {
        forall|i: int| 0 <= i < self@.tasks.len() - 1 ==> is_start(#[trigger] self@.tasks[i])
    }

    /// Is the top task waiting on the host for an event?
    pub open spec fn awaiting(&self) -> bool {
        self@.tasks.len() > 0 && !is_start(self@.tasks.last())
    }

    /// The reports recorded so far, oldest first.
    pub fn take_log(self) -> (r: Vec<Report>)
        ensures
            r@.len() == self@.log.len(),
            forall|i: int| 0 <= i < r@.len() ==> (#[trigger] r@[i])@ == self@.log[i],
    {
        let Engine { tasks: _, log } = self;
        log
    }

    /// Starts the top task: returns the action the host must perform, or
    /// `None` when no task is left and the walk is over.
    pub fn step(&mut self) -> (r: Option<Action>)
        requires
            old(self).wf(),
            !old(self).awaiting(),
        ensures
            final(self).wf(),
            final(self)@.log == old(self)@.log,
            old(self)@.tasks.len() == 0 ==> r is None && final(self)@.tasks == old(self)@.tasks
                && !final(self).awaiting(),
            old(self)@.tasks.len() > 0 ==> {
                &&& final(self)@.tasks == old(self)@.tasks.drop_last().push(
                    started_task(old(self)@.tasks.last()),
                )
                &&& (r matches Some(a) && a@ == start_action(old(self)@.tasks.last()))
                &&& final(self).awaiting()
            },
    {
        let ghost pre = self@;
        match self.tasks.pop() {
            None => {
                proof {
                    assert(self@ =~= pre);
                }
                None
            },
            Some(t) => {
                let r = match t {
                    Task::InstallStart { name } => {
                        self.tasks.push(Task::InstallAwaitRegistry { name });
                        Some(Action::FetchRegistry)
                    },
                    Task::UpdateStart { name } => {
                        let n2 = clone_bytes(&name);
                        self.tasks.push(Task::UpdateAwaitExists { name });
                        Some(Action::CheckExists { name: n2 })
                    },
                    Task::RemoveStart { name } => {
                        let n2 = clone_bytes(&name);
                        self.tasks.push(Task::RemoveAwaitExists { name });
                        Some(Action::CheckExists { name: n2 })
                    },
                    _ => {
                        proof {
                            assert(false);
                        }
                        None
                    },
                };
                proof {
                    assert(self@.tasks =~= pre.tasks.drop_last().push(
                        started_task(pre.tasks.last()),
                    ));
                    assert(self@.log =~= pre.log);
                }
                r
            },
        }
    }

    /// Applies the host's answer to the waiting task, exactly as
    /// `transition` says: the task is replaced, at most one report is
    /// recorded, and the next action for the same node (if any) is
    /// returned.
    pub fn answer(&mut self, ev: Event) -> (r: Option<Action>)
        requires
            old(self).wf(),
            old(self).awaiting(),
            expected_event(old(self)@.tasks.last(), ev@),
        ensures
            final(self).wf(),
            final(self)@.tasks == old(self)@.tasks.drop_last() + transition(
                old(self)@.tasks.last(),
                ev@,
            ).0,
            final(self)@.log == match transition(old(self)@.tasks.last(), ev@).1 {
                None => old(self)@.log,
                Some(rp) => old(self)@.log.push(rp),
            },
            match (r, transition(old(self)@.tasks.last(), ev@).2) {
                (Some(a), Some(av)) => a@ == av,
                (None, None) => true,
                _ => false,
            },
            r is Some ==> final(self).awaiting(),
            r is None ==> !final(self).awaiting(),
    {
        let ghost pre = self@;
        let ghost tr = transition(pre.tasks.last(), ev@);
        let t = match self.tasks.pop() {
            Some(t) => t,
            None => {
                proof {
                    assert(false);
                }
                return None;
            },
        };
        let r = match (t, ev) {
            (Task::InstallAwaitRegistry { name }, Event::RegistryText { content }) => {
                match crate::registry::find_repo(content.as_slice(), name.as_slice()) {
                    None => {
                        self.log.push(Report::NotInRegistry { name });
                        None
                    },
                    Some(url) => {
                        let n2 = clone_bytes(&name);
                        self.tasks.push(Task::InstallAwaitExists { name, url });
                        Some(Action::CheckExists { name: n2 })
                    },
                }
            },
            (Task::InstallAwaitExists { name, url }, Event::Exists { yes }) => {
                if yes {
                    self.log.push(Report::AlreadyInstalled { name });
                    None
                } else {
                    let n2 = clone_bytes(&name);
                    let u2 = clone_bytes(&url);
                    self.tasks.push(Task::InstallAwaitClone { name, url });
                    Some(Action::CloneRepo { name: n2, url: u2 })
                }
            },
            (Task::InstallAwaitClone { name, url: _ }, Event::Completed { ok }) => {
                if ok {
                    let n2 = clone_bytes(&name);
                    self.tasks.push(Task::InstallAwaitManifest { name });
                    Some(Action::ReadManifest { name: n2 })
                } else {
                    self.log.push(Report::CloneFailed { name });
                    None
                }
            },
            (Task::InstallAwaitManifest { name }, Event::ManifestText { text }) => {
                let parsed = match &text {
                    None => None,
                    Some(t2) => parse_manifest(t2.as_slice()),
                };
                match parsed {
                    None => {
                        let n2 = clone_bytes(&name);
                        let n3 = clone_bytes(&name);
                        self.tasks.push(Task::InstallAwaitRollback { name });
                        self.log.push(Report::InvalidManifest { name: n2 });
                        Some(Action::DeleteDir { name: n3 })
                    },
                    Some(m) => {
                        self.push_install_deps(&m.dependencies);
                        self.log.push(Report::Installed { name, manifest: m });
                        None
                    },
                }
            },
            (Task::InstallAwaitRollback { name: _ }, Event::Completed { ok: _ }) => None,
            (Task::UpdateAwaitExists { name }, Event::Exists { yes }) => {
                if yes {
                    let n2 = clone_bytes(&name);
                    self.tasks.push(Task::UpdateAwaitPull { name });
                    Some(Action::Pull { name: n2 })
                } else {
                    self.log.push(Report::NotInstalled { name });
                    None
                }
            },
            (Task::UpdateAwaitPull { name }, Event::Completed { ok }) => {
                if ok {
                    let n2 = clone_bytes(&name);
                    self.tasks.push(Task::UpdateAwaitManifest { name });
                    Some(Action::ReadManifest { name: n2 })
                } else {
                    self.log.push(Report::PullFailed { name });
                    None
                }
            },
            (Task::UpdateAwaitManifest { name }, Event::ManifestText { text }) => {
                let parsed = match &text {
                    None => None,
                    Some(t2) => parse_manifest(t2.as_slice()),
                };
                match parsed {
                    None => {
                        self.log.push(Report::UpdatedInvalidManifest { name });
                        None
                    },
                    Some(m) => {
                        self.push_update_deps(&m.dependencies);
                        self.log.push(Report::Updated { name, manifest: m });
                        None
                    },
                }
            },
            (Task::RemoveAwaitExists { name }, Event::Exists { yes }) => {
                if yes {
                    let n2 = clone_bytes(&name);
                    self.tasks.push(Task::RemoveAwaitDelete { name });
                    Some(Action::DeleteDir { name: n2 })
                } else {
                    self.log.push(Report::NotInstalled { name });
                    None
                }
            },
            (Task::RemoveAwaitDelete { name }, Event::Completed { ok: _ }) => {
                self.log.push(Report::Removed { name });
                None
            },
            _ => {
                proof {
                    assert(false);
                }
                None
            },
        };
        proof {
            assert(self@.tasks =~= pre.tasks.drop_last() + tr.0);
            assert(self@.log =~= match tr.1 {
                None => pre.log,
                Some(rp) => pre.log.push(rp),
            });
        }
        r
    }

    /// Pushes install tasks for the declared dependencies, last first.
    fn push_install_deps(&mut self, deps: &Vec<Vec<u8>>)
        ensures
            final(self)@.tasks == old(self)@.tasks + install_tasks_of(deps.deep_view()),
            final(self)@.log == old(self)@.log,
    {
        let ghost base = self@.tasks;
        let ghost depsv = deps.deep_view();
        let mut i: usize = deps.len();
        while i > 0
            invariant
                i <= deps@.len(),
                depsv == deps.deep_view(),
                base == old(self)@.tasks,
                self@.log == old(self)@.log,
                self@.tasks =~= base + install_tasks_of(depsv).subrange(
                    0,
                    deps@.len() - i,
                ),
            decreases i,
        {
            let ghost prev = self@.tasks;
            let dep = clone_bytes(&deps[i - 1]);
            self.tasks.push(Task::InstallStart { name: dep });
            proof {
                assert(self@.tasks =~= prev.push(TaskV::InstallStart { name: dep@ }));
                assert(depsv[i - 1] =~= deps@[i - 1]@);
                assert(install_tasks_of(depsv)[deps@.len() - i] == TaskV::InstallStart {
                    name: depsv[i - 1],
                });
                assert(self@.tasks =~= base + install_tasks_of(depsv).subrange(
                    0,
                    deps@.len() - (i - 1),
                ));
            }
            i = i - 1;
        }
        proof {
            assert(install_tasks_of(depsv).subrange(0, deps@.len() as int) =~= install_tasks_of(
                depsv,
            ));
        }
    }

    /// Pushes update tasks for the declared dependencies, last first.
    fn push_update_deps(&mut self, deps: &Vec<Vec<u8>>)
        ensures
            final(self)@.tasks == old(self)@.tasks + update_tasks_of(deps.deep_view()),
            final(self)@.log == old(self)@.log,
    {
        let ghost base = self@.tasks;
        let ghost depsv = deps.deep_view();
        let mut i: usize = deps.len();
        while i > 0
            invariant
                i <= deps@.len(),
                depsv == deps.deep_view(),
                base == old(self)@.tasks,
                self@.log == old(self)@.log,
                self@.tasks =~= base + update_tasks_of(depsv).subrange(
                    0,
                    deps@.len() - i,
                ),
            decreases i,
        {
            let ghost prev = self@.tasks;
            let dep = clone_bytes(&deps[i - 1]);
            self.tasks.push(Task::UpdateStart { name: dep });
            proof {
                assert(self@.tasks =~= prev.push(TaskV::UpdateStart { name: dep@ }));
                assert(depsv[i - 1] =~= deps@[i - 1]@);
                assert(update_tasks_of(depsv)[deps@.len() - i] == TaskV::UpdateStart {
                    name: depsv[i - 1],
                });
                assert(self@.tasks =~= base + update_tasks_of(depsv).subrange(
                    0,
                    deps@.len() - (i - 1),
                ));
            }
            i = i - 1;
        }
        proof {
            assert(update_tasks_of(depsv).subrange(0, deps@.len() as int) =~= update_tasks_of(
                depsv,
            ));
        }
    }

    /// An engine that installs one library and its dependency closure.
    pub fn install(name: Vec<u8>) -> (e: Engine)
        ensures
            e.wf(),
            !e.awaiting(),
            e@.tasks == seq![TaskV::InstallStart { name: name@ }],
            e@.log == Seq::<ReportV>::empty(),
    {
        let mut tasks: Vec<Task> = Vec::new();
        tasks.push(Task::InstallStart { name });
        let e = Engine { tasks, log: Vec::new() };
        proof {
            assert(e@.tasks =~= seq![TaskV::InstallStart { name: name@ }]);
            assert(e@.log =~= Seq::<ReportV>::empty());
        }
        e
    }

    /// An engine that updates one installed library and, through its
    /// manifest, everything it declares.
    pub fn update(name: Vec<u8>) -> (e: Engine)
        ensures
            e.wf(),
            !e.awaiting(),
            e@.tasks == seq![TaskV::UpdateStart { name: name@ }],
            e@.log == Seq::<ReportV>::empty(),
    {
        let mut tasks: Vec<Task> = Vec::new();
        tasks.push(Task::UpdateStart { name });
        let e = Engine { tasks, log: Vec::new() };
        proof {
            assert(e@.tasks =~= seq![TaskV::UpdateStart { name: name@ }]);
            assert(e@.log =~= Seq::<ReportV>::empty());
        }
        e
    }

    /// An engine that removes one installed library.
    pub fn remove(name: Vec<u8>) -> (e: Engine)
        ensures
            e.wf(),
            !e.awaiting(),
            e@.tasks == seq![TaskV::RemoveStart { name: name@ }],
            e@.log == Seq::<ReportV>::empty(),
    {
        let mut tasks: Vec<Task> = Vec::new();
        tasks.push(Task::RemoveStart { name });
        let e = Engine { tasks, log: Vec::new() };
        proof {
            assert(e@.tasks =~= seq![TaskV::RemoveStart { name: name@ }]);
            assert(e@.log =~= Seq::<ReportV>::empty());
        }
        e
    }

    /// An engine that removes the library (tolerating absence) and then
    /// installs it afresh: two discrete steps, not atomic.
    pub fn reinstall(name: Vec<u8>) -> (e: Engine)
        ensures
            e.wf(),
            !e.awaiting(),
            e@.tasks == seq![
                TaskV::InstallStart { name: name@ },
                TaskV::RemoveStart { name: name@ },
            ],
            e@.log == Seq::<ReportV>::empty(),
    {
        let n2 = clone_bytes(&name);
        let mut tasks: Vec<Task> = Vec::new();
        tasks.push(Task::InstallStart { name });
        tasks.push(Task::RemoveStart { name: n2 });
        let e = Engine { tasks, log: Vec::new() };
        proof {
            assert(e@.tasks =~= seq![
                TaskV::InstallStart { name: name@ },
                TaskV::RemoveStart { name: name@ },
            ]);
            assert(e@.log =~= Seq::<ReportV>::empty());
        }
        e
    }

    /// An engine that updates every named library, in the order given.
    /// With nothing installed, the walk is already over and the one
    /// report says so; that is not an error.
    pub fn update_all(names: Vec<Vec<u8>>) -> (e: Engine)
        ensures
            e.wf(),
            !e.awaiting(),
            names@.len() == 0 ==> e@.tasks == Seq::<TaskV>::empty() && e@.log == seq![
                ReportV::NothingToUpdate,
            ],
            names@.len() > 0 ==> e@.tasks == update_tasks_of(names.deep_view()) && e@.log
                == Seq::<ReportV>::empty(),
    {
        let mut e = Engine { tasks: Vec::new(), log: Vec::new() };
        proof {
            assert(e@.tasks =~= Seq::<TaskV>::empty());
            assert(e@.log =~= Seq::<ReportV>::empty());
        }
        if names.len() == 0 {
            e.log.push(Report::NothingToUpdate);
            proof {
                assert(e@.log =~= seq![ReportV::NothingToUpdate]);
                assert(e@.tasks =~= Seq::<TaskV>::empty());
            }
            e
        } else {
            e.push_update_deps(&names);
            proof {
                assert(e@.tasks =~= update_tasks_of(names.deep_view()));
            }
            e
        }
    }
}

} // verus!
