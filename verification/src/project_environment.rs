//! Which environment a buffer, a worktree or a directory gets, and which
//! environments still have to be loaded.

use crate::environment::{
    listed_environment, marked, set_origin_marker, Environment, EnvironmentOrigin,
};
use crate::path::{path_parent, path_starts_with, ComponentView, DirPath};
use crate::repository::{
    law_candidates_decide, law_nested_directories_share_the_outermost_repository,
    law_outermost_repository_is_outermost, on_the_way,
    outermost_repository, outermost_repository_in, path_set, repository_candidates,
};
use crate::shell::{Shell, ShellView};
use std::collections::VecDeque;
use vstd::prelude::*;

verus! {

/// The `project_environment` setting: for which directories a shell is started
/// to learn their environment.
#[derive(Clone, Copy, Debug, PartialEq, Eq, Structural)]
pub enum ProjectEnvironmentSettings {
    /// For every directory.
    All,
    /// For the outermost repository of a directory.
    TopLevel,
    /// For the root of the worktree that a directory is in.
    RootOnly,
    /// For none.
    Off,
}

/// What a project environment tells those who watch it.
#[derive(Clone, Copy, Debug, PartialEq, Eq, Structural)]
pub enum ProjectEnvironmentEvent {
    /// There is a new error message.
    ErrorsUpdated,
}

/// A worktree: a directory, or a single file, that is open in the project.
#[derive(Debug)]
pub struct WorktreeInfo {
    pub abs_path: DirPath,
    pub is_single_file: bool,
}

/// What a [`WorktreeInfo`] stands for.
pub struct WorktreeView {
    pub abs_path: Seq<ComponentView>,
    pub is_single_file: bool,
}

impl View for WorktreeInfo {
    type V = WorktreeView;

    open spec fn view(&self) -> WorktreeView {
        WorktreeView { abs_path: self.abs_path@, is_single_file: self.is_single_file }
    }
}

/// The directory of a worktree: its path, or the one above it for a single file.
pub open spec fn worktree_directory(worktree: WorktreeView) -> Option<Seq<ComponentView>> {
    if worktree.is_single_file {
        path_parent(worktree.abs_path)
    } else {
        Some(worktree.abs_path)
    }
}

impl WorktreeInfo {
    /// The directory of the worktree.
    pub fn directory(&self) -> (directory: Option<DirPath>)
        ensures
            directory.is_some() == worktree_directory(self@).is_some(),
            directory matches Some(path) ==> Some(path@) == worktree_directory(self@),
    {
        if self.is_single_file {
            self.abs_path.parent()
        } else {
            Some(self.abs_path.clone())
        }
    }
}

/// What decides where a directory's environment is probed.
#[derive(Debug)]
pub struct ProbeInputs {
    /// The `project_environment` setting.
    pub mode: ProjectEnvironmentSettings,
    /// The worktree that the directory is in, if it is in one.
    pub worktree: Option<WorktreeInfo>,
    /// Directories that hold a repository marker.
    pub repositories: Vec<DirPath>,
}

/// What [`ProbeInputs`] stand for.
pub struct ProbeView {
    pub mode: ProjectEnvironmentSettings,
    pub root: Option<Seq<ComponentView>>,
    pub repositories: Set<Seq<ComponentView>>,
}

impl View for ProbeInputs {
    type V = ProbeView;

    open spec fn view(&self) -> ProbeView {
        ProbeView {
            mode: self.mode,
            root: match self.worktree {
                Some(worktree) => worktree_directory(worktree@),
                None => None,
            },
            repositories: path_set(self.repositories@),
        }
    }
}

impl ProbeInputs {
    fn root(&self) -> (root: Option<DirPath>)
        ensures
            root.is_some() == self@.root.is_some(),
            root matches Some(path) ==> Some(path@) == self@.root,
    {
        match &self.worktree {
            Some(worktree) => worktree.directory(),
            None => None,
        }
    }
}

/// The machine that the project is opened on, where it is not this one: the
/// shell that it reported, if it has reported one.
#[derive(Debug)]
pub struct RemoteHost {
    pub shell: Option<String>,
}

/// A key under which an environment is shared.
pub type JobKey = (ShellView, Seq<ComponentView>);

#[derive(Debug)]
struct Job {
    shell: Shell,
    directory: DirPath,
}

impl View for Job {
    type V = JobKey;

    closed spec fn view(&self) -> JobKey {
        (self.shell@, self.directory@)
    }
}

#[derive(Debug)]
struct Remap {
    mode: ProjectEnvironmentSettings,
    requested: DirPath,
    probed: DirPath,
}

/// The environments of a project: those it was opened with, the loads that were
/// started for its directories, and the messages of those that failed.
#[derive(Debug)]
pub struct ProjectEnvironment {
    cli_environment: Option<Environment>,
    local_environments: Vec<Job>,
    remote_environments: Vec<Job>,
    probe_directory_remaps: Vec<Remap>,
    environment_error_messages: VecDeque<String>,
    is_remote_project: bool,
    test_support: bool,
}

/// What a [`ProjectEnvironment`] stands for.
pub struct ProjectEnvironmentView {
    /// The environment of the command line that opened the project.
    pub cli: Option<Map<Seq<char>, Seq<char>>>,
    /// The loads that were started on this machine, each under its number.
    pub local: Seq<JobKey>,
    /// The loads that were asked of the remote machine, each under its number.
    pub remote: Seq<JobKey>,
    /// Where directories were found to be probed.
    pub remaps: Map<(ProjectEnvironmentSettings, Seq<ComponentView>), Seq<ComponentView>>,
    /// The error messages, oldest first.
    pub errors: Seq<Seq<char>>,
    pub is_remote_project: bool,
    pub test_support: bool,
}

closed spec fn job_keys(jobs: Seq<Job>) -> Seq<JobKey> {
    jobs.map_values(|job: Job| job@)
}

closed spec fn remap_table(remaps: Seq<Remap>) -> Map<
    (ProjectEnvironmentSettings, Seq<ComponentView>),
    Seq<ComponentView>,
>
    decreases remaps.len(),
{
    if remaps.len() == 0 {
        Map::empty()
    } else {
        remap_table(remaps.drop_last()).insert(
            (remaps.last().mode, remaps.last().requested@),
            remaps.last().probed@,
        )
    }
}

impl View for ProjectEnvironment {
    type V = ProjectEnvironmentView;

    closed spec fn view(&self) -> ProjectEnvironmentView {
        ProjectEnvironmentView {
            cli: match self.cli_environment {
                Some(environment) => Some(environment@),
                None => None,
            },
            local: job_keys(self.local_environments@),
            remote: job_keys(self.remote_environments@),
            remaps: remap_table(self.probe_directory_remaps@),
            errors: self.environment_error_messages@.map_values(|message: String| message@),
            is_remote_project: self.is_remote_project,
            test_support: self.test_support,
        }
    }
}

/// How an environment is to be had.
#[derive(Debug)]
pub enum EnvironmentLookup {
    /// It is there, or there is none.
    Ready(Option<Environment>),
    /// It is what the load with this number gives. Where `start` is set, that
    /// load is new: the shell is to be started in the directory.
    Local { job: usize, shell: Shell, directory: DirPath, start: bool },
    /// It is what the remote machine answers to the request with this number.
    /// Where `start` is set, that request is new.
    Remote { job: usize, shell: Shell, directory: DirPath, start: bool },
}

/// What an [`EnvironmentLookup`] stands for.
pub enum LookupView {
    Ready(Option<Map<Seq<char>, Seq<char>>>),
    Local { job: int, shell: ShellView, directory: Seq<ComponentView>, start: bool },
    Remote { job: int, shell: ShellView, directory: Seq<ComponentView>, start: bool },
}

impl View for EnvironmentLookup {
    type V = LookupView;

    open spec fn view(&self) -> LookupView {
        match *self {
            EnvironmentLookup::Ready(Some(environment)) => LookupView::Ready(Some(environment@)),
            EnvironmentLookup::Ready(None) => LookupView::Ready(None),
            EnvironmentLookup::Local { job, shell, directory, start } => LookupView::Local {
                job: job as int,
                shell: shell@,
                directory: directory@,
                start,
            },
            EnvironmentLookup::Remote { job, shell, directory, start } => LookupView::Remote {
                job: job as int,
                shell: shell@,
                directory: directory@,
                start,
            },
        }
    }
}

impl EnvironmentLookup {
    /// The environment that is ready, if one is, holds no variable twice.
    pub open spec fn well_formed(self) -> bool {
        self matches EnvironmentLookup::Ready(Some(environment)) ==> environment.well_formed()
    }
}

/// The environment that the project was opened with: that of the command line,
/// marked as such. Builds for tests take it to be empty.
pub open spec fn cli_environment(state: ProjectEnvironmentView) -> Option<
    Map<Seq<char>, Seq<char>>,
> {
    if state.test_support {
        Some(Map::empty())
    } else {
        match state.cli {
            Some(environment) => Some(marked(environment, EnvironmentOrigin::Cli)),
            None => None,
        }
    }
}

/// Where the environment of a directory is probed.
pub open spec fn probe_target(
    abs_path: Seq<ComponentView>,
    probe: ProbeView,
) -> Seq<ComponentView> {
    match (probe.mode, probe.root) {
        (_, None) => abs_path,
        (ProjectEnvironmentSettings::RootOnly, Some(root)) => root,
        (ProjectEnvironmentSettings::TopLevel, Some(root)) => match outermost_repository(
            root,
            abs_path,
            probe.repositories,
        ) {
            Some(repository) => repository,
            None => abs_path,
        },
        (ProjectEnvironmentSettings::All | ProjectEnvironmentSettings::Off, Some(_)) => abs_path,
    }
}

/// Where the environment of a directory is probed, once that was settled: what
/// was found the first time stands.
pub open spec fn probed(
    state: ProjectEnvironmentView,
    abs_path: Seq<ComponentView>,
    probe: ProbeView,
) -> (ProjectEnvironmentView, Seq<ComponentView>) {
    if state.remaps.contains_key((probe.mode, abs_path)) {
        (state, state.remaps[(probe.mode, abs_path)])
    } else {
        let target = probe_target(abs_path, probe);
        (
            ProjectEnvironmentView {
                remaps: state.remaps.insert((probe.mode, abs_path), target),
                ..state
            },
            target,
        )
    }
}

/// The number of the load for a key: that of the one under way, or the next.
pub open spec fn job_number(jobs: Seq<JobKey>, key: JobKey) -> int {
    if jobs.contains(key) {
        jobs.index_of(key)
    } else {
        jobs.len() as int
    }
}

/// The loads under way, with one for the key among them.
pub open spec fn jobs_with(jobs: Seq<JobKey>, key: JobKey) -> Seq<JobKey> {
    if jobs.contains(key) {
        jobs
    } else {
        jobs.push(key)
    }
}

/// What a load on this machine gives for a shell and a directory.
pub open spec fn local_job(
    state: ProjectEnvironmentView,
    shell: ShellView,
    directory: Seq<ComponentView>,
) -> (ProjectEnvironmentView, LookupView) {
    (
        ProjectEnvironmentView { local: jobs_with(state.local, (shell, directory)), ..state },
        LookupView::Local {
            job: job_number(state.local, (shell, directory)),
            shell,
            directory,
            start: !state.local.contains((shell, directory)),
        },
    )
}

/// The environment of a directory of this machine.
pub open spec fn local_lookup(
    state: ProjectEnvironmentView,
    shell: ShellView,
    abs_path: Seq<ComponentView>,
    probe: ProbeView,
) -> (ProjectEnvironmentView, LookupView) {
    match cli_environment(state) {
        Some(environment) => (state, LookupView::Ready(Some(environment))),
        None => match probe.mode {
            ProjectEnvironmentSettings::All => local_job(state, shell, abs_path),
            ProjectEnvironmentSettings::Off => (state, LookupView::Ready(Some(Map::empty()))),
            _ => {
                let (settled, directory) = probed(state, abs_path, probe);
                local_job(settled, shell, directory)
            },
        },
    }
}

/// The environment of a directory of the remote machine.
pub open spec fn remote_lookup(
    state: ProjectEnvironmentView,
    shell: ShellView,
    abs_path: Seq<ComponentView>,
) -> (ProjectEnvironmentView, LookupView) {
    if state.test_support {
        (state, LookupView::Ready(Some(Map::empty())))
    } else {
        (
            ProjectEnvironmentView { remote: jobs_with(state.remote, (shell, abs_path)), ..state },
            LookupView::Remote {
                job: job_number(state.remote, (shell, abs_path)),
                shell,
                directory: abs_path,
                start: !state.remote.contains((shell, abs_path)),
            },
        )
    }
}

/// The environment of a directory: asked of the remote machine where the
/// project is on one that can be reached and has told its shell; else loaded
/// here, with the system's shell for a project of a remote machine and with
/// the given shell for any other. There is none where the shell is unknown.
pub open spec fn directory_lookup(
    state: ProjectEnvironmentView,
    abs_path: Seq<ComponentView>,
    remote: Option<Option<Seq<char>>>,
    terminal_shell: Option<ShellView>,
    probe: ProbeView,
) -> (ProjectEnvironmentView, LookupView) {
    match remote {
        Some(Some(program)) => remote_lookup(state, ShellView::Program(program), abs_path),
        Some(None) => (state, LookupView::Ready(None)),
        None => if state.is_remote_project {
            local_lookup(state, ShellView::System, abs_path, probe)
        } else {
            match terminal_shell {
                Some(shell) => local_lookup(state, shell, abs_path, probe),
                None => (state, LookupView::Ready(None)),
            }
        },
    }
}

/// The environment of a worktree.
pub open spec fn worktree_lookup(
    state: ProjectEnvironmentView,
    worktree: WorktreeView,
    remote: Option<Option<Seq<char>>>,
    terminal_shell: ShellView,
    probe: ProbeView,
) -> (ProjectEnvironmentView, LookupView) {
    match cli_environment(state) {
        Some(environment) => (state, LookupView::Ready(Some(environment))),
        None => match worktree_directory(worktree) {
            None => (state, LookupView::Ready(None)),
            Some(directory) => directory_lookup(
                state,
                directory,
                remote,
                Some(terminal_shell),
                probe,
            ),
        },
    }
}

/// The shell that a remote machine has told, where there is a remote machine.
pub open spec fn remote_shell(remote: Option<RemoteHost>) -> Option<Option<Seq<char>>> {
    match remote {
        Some(host) => Some(
            match host.shell {
                Some(shell) => Some(shell@),
                None => None,
            },
        ),
        None => None,
    }
}

fn find_job(jobs: &Vec<Job>, shell: &Shell, directory: &DirPath) -> (found: Option<usize>)
    requires
        job_keys(jobs@).no_duplicates(),
    ensures
        match found {
            Some(job) => {
                &&& job_keys(jobs@).contains((shell@, directory@))
                &&& job == job_keys(jobs@).index_of((shell@, directory@))
            },
            None => !job_keys(jobs@).contains((shell@, directory@)),
        },
{
    let mut index: usize = 0;
    while index < jobs.len()
        invariant
            index <= jobs.len(),
            job_keys(jobs@).no_duplicates(),
            forall|i: int|
                0 <= i < index ==> #[trigger] job_keys(jobs@)[i] != (shell@, directory@),
        decreases jobs.len() - index,
    {
        assert(job_keys(jobs@)[index as int] == jobs@[index as int]@);
        if jobs[index].shell.same(shell) && jobs[index].directory.same(directory) {
            assert(job_keys(jobs@).contains((shell@, directory@)));
            return Some(index);
        }
        index = index + 1;
    }
    None
}

/// Finds the load for a key, or adds it; says its number and whether it is new.
fn share_job(jobs: &mut Vec<Job>, shell: &Shell, directory: &DirPath) -> (shared: (usize, bool))
    requires
        job_keys(old(jobs)@).no_duplicates(),
    ensures
        job_keys(final(jobs)@).no_duplicates(),
        job_keys(final(jobs)@) == jobs_with(job_keys(old(jobs)@), (shell@, directory@)),
        shared.0 == job_number(job_keys(old(jobs)@), (shell@, directory@)),
        shared.1 == !job_keys(old(jobs)@).contains((shell@, directory@)),
{
    match find_job(jobs, shell, directory) {
        Some(job) => (job, false),
        None => {
            let ghost before = job_keys(jobs@);
            let job = jobs.len();
            jobs.push(Job { shell: shell.clone(), directory: directory.clone() });
            assert(job_keys(jobs@) =~= before.push((shell@, directory@)));
            (job, true)
        },
    }
}

impl ProjectEnvironment {
    /// No load is kept twice, and no variable of the command line occurs twice.
    pub closed spec fn well_formed(self) -> bool {
        &&& job_keys(self.local_environments@).no_duplicates()
        &&& job_keys(self.remote_environments@).no_duplicates()
        &&& self.cli_environment matches Some(environment) ==> environment.well_formed()
    }

    /// No load and no request is kept twice.
    pub proof fn lemma_loads_are_kept_once(self)
        requires
            self.well_formed(),
        ensures
            self@.local.no_duplicates(),
            self@.remote.no_duplicates(),
    {
    }

    /// The environments of a project that was just opened. `test_support` is
    /// set in builds for tests, which start no shell.
    pub fn new(
        cli_environment: Option<Environment>,
        is_remote_project: bool,
        test_support: bool,
    ) -> (project: Self)
        requires
            cli_environment matches Some(environment) ==> environment.well_formed(),
        ensures
            project.well_formed(),
            project@ == (ProjectEnvironmentView {
                cli: match cli_environment {
                    Some(environment) => Some(environment@),
                    None => None,
                },
                local: Seq::empty(),
                remote: Seq::empty(),
                remaps: Map::empty(),
                errors: Seq::empty(),
                is_remote_project,
                test_support,
            }),
    {
        let project = ProjectEnvironment {
            cli_environment,
            local_environments: Vec::new(),
            remote_environments: Vec::new(),
            probe_directory_remaps: Vec::new(),
            environment_error_messages: VecDeque::new(),
            is_remote_project,
            test_support,
        };
        assert(project@.local =~= Seq::empty());
        assert(project@.remote =~= Seq::empty());
        assert(project@.errors =~= Seq::empty());
        project
    }

    /// Returns the inherited environment, if the project was opened from the
    /// command line.
    pub fn get_cli_environment(&self) -> (environment: Option<Environment>)
        requires
            self.well_formed(),
        ensures
            environment.is_some() == cli_environment(self@).is_some(),
            environment matches Some(found) ==> found.well_formed() && Some(found@)
                == cli_environment(self@),
    {
        if self.test_support {
            return Some(Environment::new());
        }
        match &self.cli_environment {
            Some(environment) => {
                let mut environment = environment.duplicate();
                set_origin_marker(&mut environment, EnvironmentOrigin::Cli);
                Some(environment)
            },
            None => None,
        }
    }

    /// The environment of a buffer: that of the worktree its file is in, if it
    /// is in one.
    pub fn buffer_environment(
        &mut self,
        worktree: Option<&WorktreeInfo>,
        remote: &Option<RemoteHost>,
        terminal_shell: &Shell,
        probe: &ProbeInputs,
    ) -> (lookup: EnvironmentLookup)
        requires
            old(self).well_formed(),
        ensures
            final(self).well_formed(),
            lookup.well_formed(),
            (final(self)@, lookup@) == (match (cli_environment(old(self)@), worktree) {
                (Some(environment), _) => (old(self)@, LookupView::Ready(Some(environment))),
                (None, None) => (old(self)@, LookupView::Ready(None)),
                (None, Some(worktree)) => worktree_lookup(
                    old(self)@,
                    worktree@,
                    remote_shell(*remote),
                    terminal_shell@,
                    probe@,
                ),
            }),
    {
        if let Some(environment) = self.get_cli_environment() {
            return EnvironmentLookup::Ready(Some(environment));
        }
        match worktree {
            Some(worktree) => self.worktree_environment(worktree, remote, terminal_shell, probe),
            None => EnvironmentLookup::Ready(None),
        }
    }

    /// The environment of a worktree.
    pub fn worktree_environment(
        &mut self,
        worktree: &WorktreeInfo,
        remote: &Option<RemoteHost>,
        terminal_shell: &Shell,
        probe: &ProbeInputs,
    ) -> (lookup: EnvironmentLookup)
        requires
            old(self).well_formed(),
        ensures
            final(self).well_formed(),
            lookup.well_formed(),
            (final(self)@, lookup@) == worktree_lookup(
                old(self)@,
                worktree@,
                remote_shell(*remote),
                terminal_shell@,
                probe@,
            ),
    {
        if let Some(environment) = self.get_cli_environment() {
            return EnvironmentLookup::Ready(Some(environment));
        }
        match worktree.directory() {
            Some(directory) => self.directory_environment(
                &directory,
                remote,
                Some(terminal_shell),
                probe,
            ),
            None => EnvironmentLookup::Ready(None),
        }
    }

    /// The environment of a directory. The shell is that of the terminal
    /// settings for the directory, none where they cannot be had.
    pub fn directory_environment(
        &mut self,
        abs_path: &DirPath,
        remote: &Option<RemoteHost>,
        terminal_shell: Option<&Shell>,
        probe: &ProbeInputs,
    ) -> (lookup: EnvironmentLookup)
        requires
            old(self).well_formed(),
        ensures
            final(self).well_formed(),
            lookup.well_formed(),
            (final(self)@, lookup@) == directory_lookup(
                old(self)@,
                abs_path@,
                remote_shell(*remote),
                match terminal_shell {
                    Some(shell) => Some(shell@),
                    None => None,
                },
                probe@,
            ),
    {
        match remote {
            Some(host) => match &host.shell {
                Some(program) => self.remote_directory_environment(
                    &Shell::Program(program.clone()),
                    abs_path,
                ),
                None => EnvironmentLookup::Ready(None),
            },
            None => if self.is_remote_project {
                self.local_directory_environment(&Shell::System, abs_path, probe)
            } else {
                match terminal_shell {
                    Some(shell) => self.local_directory_environment(shell, abs_path, probe),
                    None => EnvironmentLookup::Ready(None),
                }
            },
        }
    }

    /// Returns the environment of a directory of this machine. If the project
    /// was opened from the command line, that is the inherited environment. If
    /// it was not, a shell is to be started in the directory that stands for
    /// this one, to get the variables as if the user had gone there.
    pub fn local_directory_environment(
        &mut self,
        shell: &Shell,
        abs_path: &DirPath,
        probe: &ProbeInputs,
    ) -> (lookup: EnvironmentLookup)
        requires
            old(self).well_formed(),
        ensures
            final(self).well_formed(),
            lookup.well_formed(),
            (final(self)@, lookup@) == local_lookup(old(self)@, shell@, abs_path@, probe@),
    {
        if let Some(environment) = self.get_cli_environment() {
            return EnvironmentLookup::Ready(Some(environment));
        }
        let directory = match probe.mode {
            ProjectEnvironmentSettings::All => abs_path.clone(),
            ProjectEnvironmentSettings::Off => {
                return EnvironmentLookup::Ready(Some(Environment::new()));
            },
            ProjectEnvironmentSettings::TopLevel
            | ProjectEnvironmentSettings::RootOnly => self.probe_directory(abs_path, probe),
        };
        let (job, start) = share_job(&mut self.local_environments, shell, &directory);
        EnvironmentLookup::Local { job, shell: shell.clone(), directory, start }
    }

    /// Returns the environment of a directory of the remote machine.
    pub fn remote_directory_environment(
        &mut self,
        shell: &Shell,
        abs_path: &DirPath,
    ) -> (lookup: EnvironmentLookup)
        requires
            old(self).well_formed(),
        ensures
            final(self).well_formed(),
            lookup.well_formed(),
            (final(self)@, lookup@) == remote_lookup(old(self)@, shell@, abs_path@),
    {
        if self.test_support {
            return EnvironmentLookup::Ready(Some(Environment::new()));
        }
        let (job, start) = share_job(&mut self.remote_environments, shell, abs_path);
        EnvironmentLookup::Remote { job, shell: shell.clone(), directory: abs_path.clone(), start }
    }

    fn find_remap(&self, mode: ProjectEnvironmentSettings, abs_path: &DirPath) -> (found: Option<
        DirPath,
    >)
        ensures
            found.is_some() == self@.remaps.contains_key((mode, abs_path@)),
            found matches Some(directory) ==> directory@ == self@.remaps[(mode, abs_path@)],
    {
        let remaps = &self.probe_directory_remaps;
        let mut count = remaps.len();
        let ghost key = (mode, abs_path@);
        assert(remaps@.take(count as int) =~= remaps@);
        while count > 0
            invariant
                count <= remaps.len(),
                remaps == self.probe_directory_remaps,
                key == (mode, abs_path@),
                remap_table(remaps@).contains_key(key) == remap_table(
                    remaps@.take(count as int),
                ).contains_key(key),
                remap_table(remaps@).contains_key(key) ==> remap_table(remaps@)[key]
                    == remap_table(remaps@.take(count as int))[key],
            decreases count,
        {
            let remap = &remaps[count - 1];
            assert(remaps@.take(count as int).drop_last() =~= remaps@.take(count - 1));
            assert(remaps@.take(count as int).last() == remap);
            if remap.mode == mode && remap.requested.same(abs_path) {
                return Some(remap.probed.clone());
            }
            count = count - 1;
        }
        assert(remaps@.take(0) =~= Seq::empty());
        None
    }

    /// Maps a requested directory to the directory whose environment should be
    /// probed, per the `project_environment` setting. Nested directories that
    /// are mapped to one share a single load.
    pub fn probe_directory(&mut self, abs_path: &DirPath, probe: &ProbeInputs) -> (directory:
        DirPath)
        requires
            old(self).well_formed(),
        ensures
            final(self).well_formed(),
            (final(self)@, directory@) == probed(old(self)@, abs_path@, probe@),
    {
        if let Some(directory) = self.find_remap(probe.mode, abs_path) {
            return directory;
        }
        let directory = match (probe.mode, probe.root()) {
            (_, None) => abs_path.clone(),
            (ProjectEnvironmentSettings::RootOnly, Some(root)) => root,
            (ProjectEnvironmentSettings::TopLevel, Some(root)) => {
                match outermost_repository_in(&root, abs_path, &probe.repositories) {
                    Some(repository) => repository,
                    None => abs_path.clone(),
                }
            },
            (
                ProjectEnvironmentSettings::All | ProjectEnvironmentSettings::Off,
                Some(_),
            ) => abs_path.clone(),
        };
        let ghost before = self.probe_directory_remaps@;
        self.probe_directory_remaps.push(
            Remap { mode: probe.mode, requested: abs_path.clone(), probed: directory.clone() },
        );
        assert(self.probe_directory_remaps@.drop_last() =~= before);
        directory
    }

    /// The directories in which a repository marker decides where the
    /// environment of `abs_path` is probed. There are none where that is
    /// already settled, or settled without one.
    pub fn probe_candidates(
        &self,
        abs_path: &DirPath,
        mode: ProjectEnvironmentSettings,
        worktree: Option<&WorktreeInfo>,
    ) -> (candidates: Vec<DirPath>)
        requires
            self.well_formed(),
        ensures
            path_set(candidates@) == (match worktree {
                Some(worktree) if mode == ProjectEnvironmentSettings::TopLevel
                    && cli_environment(self@).is_none() && !self@.remaps.contains_key(
                    (mode, abs_path@),
                ) => match worktree_directory(worktree@) {
                    Some(root) => Set::new(
                        |directory: Seq<ComponentView>| on_the_way(root, abs_path@, directory),
                    ),
                    None => Set::empty(),
                },
                _ => Set::empty(),
            }),
    {
        let none: Vec<DirPath> = Vec::new();
        assert(path_set(none@) =~= Set::empty());
        if mode != ProjectEnvironmentSettings::TopLevel || self.get_cli_environment().is_some()
            || self.find_remap(mode, abs_path).is_some() {
            return none;
        }
        match worktree {
            Some(worktree) => match worktree.directory() {
                Some(root) => repository_candidates(&root, abs_path),
                None => none,
            },
            None => none,
        }
    }

    /// Takes in the message of a load that failed.
    pub fn push_environment_error(&mut self, message: String) -> (event: ProjectEnvironmentEvent)
        requires
            old(self).well_formed(),
        ensures
            final(self).well_formed(),
            final(self)@ == (ProjectEnvironmentView {
                errors: old(self)@.errors.push(message@),
                ..old(self)@
            }),
            event == ProjectEnvironmentEvent::ErrorsUpdated,
    {
        let ghost before = self@.errors;
        let ghost text = message@;
        self.environment_error_messages.push_back(message);
        assert(self@.errors =~= before.push(text));
        ProjectEnvironmentEvent::ErrorsUpdated
    }

    /// The oldest error message.
    pub fn peek_environment_error(&self) -> (message: Option<&String>)
        ensures
            message.is_some() == (self@.errors.len() > 0),
            message matches Some(text) ==> text@ == self@.errors.first(),
    {
        if self.environment_error_messages.len() > 0 {
            Some(&self.environment_error_messages[0])
        } else {
            None
        }
    }

    /// Takes out the oldest error message.
    pub fn pop_environment_error(&mut self) -> (message: Option<String>)
        requires
            old(self).well_formed(),
        ensures
            final(self).well_formed(),
            message.is_some() == (old(self)@.errors.len() > 0),
            message matches Some(text) ==> text@ == old(self)@.errors.first(),
            final(self)@ == (ProjectEnvironmentView {
                errors: if old(self)@.errors.len() > 0 {
                    old(self)@.errors.drop_first()
                } else {
                    old(self)@.errors
                },
                ..old(self)@
            }),
    {
        let ghost before = self@.errors;
        let message = self.environment_error_messages.pop_front();
        proof {
            if before.len() > 0 {
                assert(self@.errors =~= before.drop_first());
            } else {
                assert(self@.errors =~= before);
            }
        }
        message
    }
}

/// What a load on this machine gives in the end: the environment of the shell,
/// marked as such, or none where the load failed.
pub fn local_environment_result(loaded: Option<Environment>) -> (environment: Option<Environment>)
    requires
        loaded matches Some(found) ==> found.well_formed(),
    ensures
        environment.is_some() == loaded.is_some(),
        environment matches Some(result) ==> result.well_formed() && result@ == marked(
            loaded.unwrap()@,
            EnvironmentOrigin::WorktreeShell,
        ),
{
    match loaded {
        Some(environment) => {
            let mut environment = environment;
            set_origin_marker(&mut environment, EnvironmentOrigin::WorktreeShell);
            Some(environment)
        },
        None => None,
    }
}

/// What a request to the remote machine gives in the end: the variables that it
/// answered with, or none where it did not answer.
pub fn remote_environment_result(
    response: Option<Vec<(String, String)>>,
) -> (environment: Option<Environment>)
    ensures
        environment.is_some() == response.is_some(),
        environment matches Some(result) ==> result.well_formed() && result@ == listed_environment(
            response.unwrap()@,
        ),
{
    match response {
        Some(pairs) => Some(Environment::from_pairs(&pairs)),
        None => None,
    }
}

/// The environment of the command line goes before any other, and to hand it
/// out starts nothing.
pub proof fn law_cli_environment_goes_first(
    state: ProjectEnvironmentView,
    shell: ShellView,
    abs_path: Seq<ComponentView>,
    worktree: WorktreeView,
    remote: Option<Option<Seq<char>>>,
    probe: ProbeView,
)
    requires
        cli_environment(state).is_some(),
    ensures
        local_lookup(state, shell, abs_path, probe) == (
            state,
            LookupView::Ready(cli_environment(state)),
        ),
        worktree_lookup(state, worktree, remote, shell, probe) == (
            state,
            LookupView::Ready(cli_environment(state)),
        ),
        directory_lookup(state, abs_path, None, Some(shell), probe) == (
            state,
            LookupView::Ready(cli_environment(state)),
        ),
{
}

/// With the setting off, a directory of this machine has an empty environment,
/// and no shell is started.
pub proof fn law_off_starts_no_shell(
    state: ProjectEnvironmentView,
    shell: ShellView,
    abs_path: Seq<ComponentView>,
    probe: ProbeView,
)
    requires
        cli_environment(state).is_none(),
        probe.mode == ProjectEnvironmentSettings::Off,
    ensures
        local_lookup(state, shell, abs_path, probe) == (
            state,
            LookupView::Ready(Some(Map::<Seq<char>, Seq<char>>::empty())),
        ),
{
}

proof fn lemma_job_is_shared(jobs: Seq<JobKey>, key: JobKey)
    ensures
        jobs_with(jobs, key).contains(key),
        job_number(jobs_with(jobs, key), key) == job_number(jobs, key),
{
    let after = jobs_with(jobs, key);
    if !jobs.contains(key) {
        assert(after[jobs.len() as int] == key);
        let at = after.index_of(key);
        if at < jobs.len() {
            assert(jobs[at] == key);
        }
    }
}

/// Whether a state can come after another: loads and requests were only added
/// behind those there were, where directories are probed was only settled for
/// more of them, and how the project was opened is as it was.
pub open spec fn can_follow(state: ProjectEnvironmentView, later: ProjectEnvironmentView) -> bool {
    &&& state.local.is_prefix_of(later.local)
    &&& state.remote.is_prefix_of(later.remote)
    &&& later.local.no_duplicates()
    &&& later.remote.no_duplicates()
    &&& forall|key: (ProjectEnvironmentSettings, Seq<ComponentView>)| #[trigger]
        state.remaps.contains_key(key) ==> later.remaps.contains_key(key) && later.remaps[key]
            == state.remaps[key]
    &&& later.cli == state.cli
    &&& later.is_remote_project == state.is_remote_project
    &&& later.test_support == state.test_support
}

proof fn lemma_jobs_with(jobs: Seq<JobKey>, key: JobKey)
    requires
        jobs.no_duplicates(),
    ensures
        jobs.is_prefix_of(jobs_with(jobs, key)),
        jobs_with(jobs, key).no_duplicates(),
{
    if !jobs.contains(key) {
        assert forall|i: int, j: int|
            0 <= i < jobs.push(key).len() && 0 <= j < jobs.push(key).len() && i
                != j implies jobs.push(key)[i] != jobs.push(key)[j] by {
            assert(i < jobs.len() ==> jobs.contains(jobs[i]));
            assert(j < jobs.len() ==> jobs.contains(jobs[j]));
        }
    }
}

/// A load keeps its number and a directory the place where it is probed: a
/// lookup only adds to what there is, and touches neither the messages nor how
/// the project was opened.
pub proof fn law_lookups_only_add(
    state: ProjectEnvironmentView,
    abs_path: Seq<ComponentView>,
    worktree: WorktreeView,
    remote: Option<Option<Seq<char>>>,
    terminal_shell: ShellView,
    known_shell: Option<ShellView>,
    probe: ProbeView,
)
    requires
        state.local.no_duplicates(),
        state.remote.no_duplicates(),
    ensures
        ({
            let after = directory_lookup(state, abs_path, remote, known_shell, probe).0;
            can_follow(state, after) && after.errors == state.errors
        }),
        ({
            let after = worktree_lookup(state, worktree, remote, terminal_shell, probe).0;
            can_follow(state, after) && after.errors == state.errors
        }),
{
    lemma_directory_lookup_only_adds(state, abs_path, remote, known_shell, probe);
    if let Some(directory) = worktree_directory(worktree) {
        lemma_directory_lookup_only_adds(state, directory, remote, Some(terminal_shell), probe);
    }
}

proof fn lemma_directory_lookup_only_adds(
    state: ProjectEnvironmentView,
    abs_path: Seq<ComponentView>,
    remote: Option<Option<Seq<char>>>,
    terminal_shell: Option<ShellView>,
    probe: ProbeView,
)
    requires
        state.local.no_duplicates(),
        state.remote.no_duplicates(),
    ensures
        can_follow(state, directory_lookup(state, abs_path, remote, terminal_shell, probe).0),
        directory_lookup(state, abs_path, remote, terminal_shell, probe).0.errors == state.errors,
{
    let directory = if probe.mode == ProjectEnvironmentSettings::All {
        abs_path
    } else {
        probed(state, abs_path, probe).1
    };
    lemma_jobs_with(state.local, (ShellView::System, directory));
    if let Some(shell) = terminal_shell {
        lemma_jobs_with(state.local, (shell, directory));
    }
    if let Some(Some(program)) = remote {
        lemma_jobs_with(state.remote, (ShellView::Program(program), abs_path));
    }
}

/// What comes after something that comes after a state comes after the state.
pub proof fn law_later_states_follow(
    state: ProjectEnvironmentView,
    later: ProjectEnvironmentView,
    last: ProjectEnvironmentView,
)
    requires
        can_follow(state, later),
        can_follow(later, last),
    ensures
        can_follow(state, last),
{
    assert(state.local =~= last.local.take(state.local.len() as int));
    assert(state.remote =~= last.remote.take(state.remote.len() as int));
}

proof fn lemma_job_keeps_its_number(jobs: Seq<JobKey>, later: Seq<JobKey>, key: JobKey)
    requires
        jobs_with(jobs, key).is_prefix_of(later),
        later.no_duplicates(),
    ensures
        later.contains(key),
        job_number(later, key) == job_number(jobs, key),
{
    let at = job_number(jobs, key);
    assert(jobs_with(jobs, key)[at] == key);
    assert(later[at] == jobs_with(jobs, key)[at]);
    assert(later[later.index_of(key)] == key);
}

/// The load for a shell and a directory is started once. Whoever asks again,
/// at any later time, gets that same load, whatever happened to worktrees and
/// repositories since.
pub proof fn law_a_load_is_started_once(
    state: ProjectEnvironmentView,
    shell: ShellView,
    abs_path: Seq<ComponentView>,
    probe: ProbeView,
    later_state: ProjectEnvironmentView,
    later_probe: ProbeView,
)
    requires
        cli_environment(state).is_none(),
        probe.mode != ProjectEnvironmentSettings::Off,
        later_probe.mode == probe.mode,
        can_follow(local_lookup(state, shell, abs_path, probe).0, later_state),
    ensures
        ({
            let first = local_lookup(state, shell, abs_path, probe).1;
            let (after, second) = local_lookup(later_state, shell, abs_path, later_probe);
            &&& after == later_state
            &&& first matches LookupView::Local { job, shell: used, directory, start: _ }
            &&& second == LookupView::Local { job, shell: used, directory, start: false }
        }),
{
    let directory = if probe.mode == ProjectEnvironmentSettings::All {
        abs_path
    } else {
        assert(local_lookup(state, shell, abs_path, probe).0.remaps.contains_key(
            (probe.mode, abs_path),
        ));
        probed(state, abs_path, probe).1
    };
    lemma_job_keeps_its_number(state.local, later_state.local, (shell, directory));
}

/// The same holds of requests to the remote machine.
pub proof fn law_a_request_is_made_once(
    state: ProjectEnvironmentView,
    shell: ShellView,
    abs_path: Seq<ComponentView>,
    later_state: ProjectEnvironmentView,
)
    requires
        !state.test_support,
        can_follow(remote_lookup(state, shell, abs_path).0, later_state),
    ensures
        ({
            let first = remote_lookup(state, shell, abs_path).1;
            let (after, second) = remote_lookup(later_state, shell, abs_path);
            &&& after == later_state
            &&& first matches LookupView::Remote { job, shell: used, directory, start: _ }
            &&& second == LookupView::Remote { job, shell: used, directory, start: false }
        }),
{
    lemma_job_keeps_its_number(state.remote, later_state.remote, (shell, abs_path));
}

/// Different directories are loaded apart where the setting asks for every one.
pub proof fn law_all_loads_every_directory(
    state: ProjectEnvironmentView,
    shell: ShellView,
    first: Seq<ComponentView>,
    second: Seq<ComponentView>,
    probe: ProbeView,
    later: ProbeView,
)
    requires
        cli_environment(state).is_none(),
        probe.mode == ProjectEnvironmentSettings::All,
        later.mode == ProjectEnvironmentSettings::All,
        first != second,
        state.local.no_duplicates(),
    ensures
        ({
            let (after, one) = local_lookup(state, shell, first, probe);
            let (_, other) = local_lookup(after, shell, second, later);
            &&& one matches LookupView::Local { job: job1, directory: directory1, .. }
            &&& other matches LookupView::Local { job: job2, directory: directory2, .. }
            &&& directory1 == first
            &&& directory2 == second
            &&& job1 != job2
        }),
{
    let key1 = (shell, first);
    let key2 = (shell, second);
    let after = jobs_with(state.local, key1);
    lemma_job_is_shared(state.local, key1);
    assert(after[job_number(state.local, key1)] == key1);
    if after.contains(key2) {
        assert(after[after.index_of(key2)] == key2);
    }
}

/// With the root alone probed, all directories of a worktree share one load,
/// unless it was settled before that one of them is probed elsewhere.
pub proof fn law_root_only_shares_one_load(
    state: ProjectEnvironmentView,
    shell: ShellView,
    first: Seq<ComponentView>,
    second: Seq<ComponentView>,
    probe: ProbeView,
    later: ProbeView,
)
    requires
        cli_environment(state).is_none(),
        probe.mode == ProjectEnvironmentSettings::RootOnly,
        later.mode == ProjectEnvironmentSettings::RootOnly,
        probe.root.is_some(),
        later.root == probe.root,
        state.remaps.contains_key((probe.mode, first)) ==> state.remaps[(probe.mode, first)]
            == probe.root.unwrap(),
        state.remaps.contains_key((probe.mode, second)) ==> state.remaps[(probe.mode, second)]
            == probe.root.unwrap(),
    ensures
        ({
            let (after, one) = local_lookup(state, shell, first, probe);
            let (_, other) = local_lookup(after, shell, second, later);
            &&& one matches LookupView::Local { job, shell: used, directory, start: _ }
            &&& Some(directory) == probe.root
            &&& other == LookupView::Local { job, shell: used, directory, start: false }
        }),
{
    lemma_job_is_shared(state.local, (shell, probe.root.unwrap()));
}

/// With the outermost repository probed, all directories in it share one load,
/// those in the repositories nested in it too, unless it was settled before
/// that one of them is probed elsewhere. Each lookup needs to know of the
/// repositories on its own way only.
pub proof fn law_top_level_shares_one_load(
    state: ProjectEnvironmentView,
    shell: ShellView,
    first: Seq<ComponentView>,
    second: Seq<ComponentView>,
    probe: ProbeView,
    later: ProbeView,
    root: Seq<ComponentView>,
    repositories: Set<Seq<ComponentView>>,
    repository: Seq<ComponentView>,
)
    requires
        cli_environment(state).is_none(),
        probe.mode == ProjectEnvironmentSettings::TopLevel,
        later.mode == ProjectEnvironmentSettings::TopLevel,
        probe.root == Some(root),
        later.root == Some(root),
        outermost_repository(root, first, repositories) == Some(repository),
        path_starts_with(second, repository),
        forall|directory: Seq<ComponentView>|
            on_the_way(root, first, directory) ==> (repositories.contains(directory)
                <==> #[trigger] probe.repositories.contains(directory)),
        forall|directory: Seq<ComponentView>|
            on_the_way(root, second, directory) ==> (repositories.contains(directory)
                <==> #[trigger] later.repositories.contains(directory)),
        state.remaps.contains_key((probe.mode, first)) ==> state.remaps[(probe.mode, first)]
            == repository,
        state.remaps.contains_key((probe.mode, second)) ==> state.remaps[(probe.mode, second)]
            == repository,
    ensures
        ({
            let (after, one) = local_lookup(state, shell, first, probe);
            let (_, other) = local_lookup(after, shell, second, later);
            &&& one matches LookupView::Local { job, shell: used, directory, start: _ }
            &&& directory == repository
            &&& other == LookupView::Local { job, shell: used, directory, start: false }
        }),
{
    law_nested_directories_share_the_outermost_repository(
        root,
        first,
        second,
        repositories,
        repository,
    );
    law_candidates_decide(root, first, repositories, probe.repositories);
    law_candidates_decide(root, second, repositories, later.repositories);
    lemma_job_is_shared(state.local, (shell, repository));
}

/// To look for repository markers in the candidates alone is enough to know
/// where a directory is probed.
pub proof fn law_candidates_settle_the_probe(
    abs_path: Seq<ComponentView>,
    root: Seq<ComponentView>,
    probe: ProbeView,
    seen: ProbeView,
)
    requires
        probe.root == Some(root),
        seen.root == probe.root,
        seen.mode == probe.mode,
        forall|directory: Seq<ComponentView>|
            on_the_way(root, abs_path, directory) ==> (probe.repositories.contains(directory)
                <==> #[trigger] seen.repositories.contains(directory)),
    ensures
        probe_target(abs_path, seen) == probe_target(abs_path, probe),
{
    law_candidates_decide(root, abs_path, probe.repositories, seen.repositories);
}

/// Error messages come out in the order in which they came in: one that comes
/// in while others wait changes nothing about which comes out next.
pub proof fn law_errors_come_out_in_order(errors: Seq<Seq<char>>, message: Seq<char>)
    ensures
        errors.len() == 0 ==> errors.push(message).first() == message,
        errors.len() > 0 ==> {
            &&& errors.push(message).first() == errors.first()
            &&& errors.push(message).drop_first() == errors.drop_first().push(message)
        },
{
    if errors.len() > 0 {
        assert(errors.push(message).drop_first() =~= errors.drop_first().push(message));
    }
}

/// A worktree's directory is its path, or for a single file the path that the
/// file's name was added to.
pub proof fn law_a_worktree_has_one_directory(
    abs_path: Seq<ComponentView>,
    name: Seq<u8>,
    worktree: WorktreeInfo,
)
    ensures
        worktree_directory(WorktreeView { abs_path, is_single_file: false }) == Some(abs_path),
        worktree_directory(
            WorktreeView {
                abs_path: abs_path.push(ComponentView::Normal(name)),
                is_single_file: true,
            },
        ) == Some(abs_path),
        worktree_directory(
            WorktreeView {
                abs_path: abs_path.push(ComponentView::RootDir),
                is_single_file: true,
            },
        ).is_none(),
        worktree@.abs_path == worktree.abs_path@,
        worktree@.is_single_file == worktree.is_single_file,
{
    assert(abs_path.push(ComponentView::Normal(name)).drop_last() =~= abs_path);
}

/// The inherited environment is that of the command line with its origin told,
/// where the project was opened from one; it is empty in builds for tests, and
/// there is none otherwise.
pub proof fn law_the_inherited_environment_is_that_of_the_command_line(
    state: ProjectEnvironmentView,
    name: Seq<char>,
)
    ensures
        state.test_support ==> cli_environment(state) == Some(Map::<Seq<char>, Seq<char>>::empty()),
        !state.test_support && state.cli.is_none() ==> cli_environment(state).is_none(),
        !state.test_support && state.cli.is_some() ==> {
            &&& cli_environment(state).is_some()
            &&& cli_environment(state).unwrap().contains_key("ZED_ENVIRONMENT"@)
            &&& cli_environment(state).unwrap()["ZED_ENVIRONMENT"@] == "cli"@
            &&& name != "ZED_ENVIRONMENT"@ ==> cli_environment(state).unwrap().contains_key(name)
                == state.cli.unwrap().contains_key(name)
            &&& name != "ZED_ENVIRONMENT"@ && state.cli.unwrap().contains_key(name)
                ==> cli_environment(state).unwrap()[name] == state.cli.unwrap()[name]
        },
{
}

/// A directory is probed where the setting says: outside any worktree, and with
/// every directory probed, at itself; with the root alone probed, at the root of
/// its worktree; with the outermost repository probed, at the first directory
/// with a repository on the way down from the root, or at itself where there is
/// none.
pub proof fn law_directories_are_probed_where_the_setting_says(
    abs_path: Seq<ComponentView>,
    probe: ProbeView,
)
    ensures
        probe.root.is_none() ==> probe_target(abs_path, probe) == abs_path,
        probe.mode == ProjectEnvironmentSettings::All || probe.mode
            == ProjectEnvironmentSettings::Off ==> probe_target(abs_path, probe) == abs_path,
        probe.mode == ProjectEnvironmentSettings::RootOnly && probe.root.is_some() ==> Some(
            probe_target(abs_path, probe),
        ) == probe.root,
        probe.mode == ProjectEnvironmentSettings::TopLevel && probe.root.is_some() ==> {
            let root = probe.root.unwrap();
            let target = probe_target(abs_path, probe);
            &&& (exists|depth: int|
                root.len() <= depth <= abs_path.len() && abs_path.take(root.len() as int) == root
                    && probe.repositories.contains(#[trigger] abs_path.take(depth))) ==> {
                &&& probe.repositories.contains(target)
                &&& root.len() <= target.len() <= abs_path.len()
                &&& abs_path.take(target.len() as int) == target
                &&& target.take(root.len() as int) == root
                &&& forall|depth: int|
                    root.len() <= depth < target.len() ==> !probe.repositories.contains(
                        #[trigger] abs_path.take(depth),
                    )
            }
            &&& !(exists|depth: int|
                root.len() <= depth <= abs_path.len() && abs_path.take(root.len() as int) == root
                    && probe.repositories.contains(#[trigger] abs_path.take(depth))) ==> target
                == abs_path
        },
{
    if probe.mode == ProjectEnvironmentSettings::TopLevel && probe.root.is_some() {
        let root = probe.root.unwrap();
        law_outermost_repository_is_outermost(root, abs_path, probe.repositories);
        let found = outermost_repository(root, abs_path, probe.repositories);
        if let Some(target) = found {
            assert(on_the_way(root, abs_path, target));
            assert(target.take(root.len() as int) =~= abs_path.take(root.len() as int));
            assert(probe.repositories.contains(abs_path.take(target.len() as int)));
            assert forall|depth: int|
                root.len() <= depth < target.len() implies !probe.repositories.contains(
                #[trigger] abs_path.take(depth),
            ) by {
                let other = abs_path.take(depth);
                if probe.repositories.contains(other) {
                    assert(other.take(root.len() as int) =~= abs_path.take(root.len() as int));
                    assert(other == abs_path.take(other.len() as int));
                    assert(on_the_way(root, abs_path, other));
                    assert(path_starts_with(other, target));
                }
            }
        } else if abs_path.len() >= root.len() && abs_path.take(root.len() as int) == root {
            assert forall|depth: int|
                root.len() <= depth <= abs_path.len() implies !probe.repositories.contains(
                #[trigger] abs_path.take(depth),
            ) by {
                let other = abs_path.take(depth);
                assert(other.take(root.len() as int) =~= abs_path.take(root.len() as int));
                assert(other == abs_path.take(other.len() as int));
                assert(on_the_way(root, abs_path, other));
            }
        }
    }
}

/// Where a directory is probed is settled the first time that it is asked for
/// under a setting, and stands from then on. To settle it changes nothing else.
pub proof fn law_a_probe_is_settled_once(
    state: ProjectEnvironmentView,
    abs_path: Seq<ComponentView>,
    probe: ProbeView,
    other: (ProjectEnvironmentSettings, Seq<ComponentView>),
)
    ensures
        ({
            let key = (probe.mode, abs_path);
            let (after, directory) = probed(state, abs_path, probe);
            &&& after.remaps.contains_key(key) && after.remaps[key] == directory
            &&& state.remaps.contains_key(key) ==> directory == state.remaps[key]
            &&& !state.remaps.contains_key(key) ==> directory == probe_target(abs_path, probe)
            &&& other != key ==> after.remaps.contains_key(other) == state.remaps.contains_key(
                other,
            )
            &&& other != key && state.remaps.contains_key(other) ==> after.remaps[other]
                == state.remaps[other]
            &&& after.local == state.local && after.remote == state.remote
            &&& after.cli == state.cli && after.errors == state.errors
            &&& after.is_remote_project == state.is_remote_project
            &&& after.test_support == state.test_support
        }),
{
}

/// A lookup on this machine of a project that was not opened from the command
/// line names the load that is under way for the shell and the directory that is
/// probed. It begins one when and only when there was none, and then adds it
/// alone, behind the others. No request is made, and no message is touched.
pub proof fn law_a_lookup_here_names_the_load_for_its_directory(
    state: ProjectEnvironmentView,
    shell: ShellView,
    abs_path: Seq<ComponentView>,
    probe: ProbeView,
)
    requires
        cli_environment(state).is_none(),
        probe.mode != ProjectEnvironmentSettings::Off,
    ensures
        ({
            let (after, lookup) = local_lookup(state, shell, abs_path, probe);
            &&& lookup matches LookupView::Local { job, shell: used, directory, start }
            &&& used == shell
            &&& probe.mode == ProjectEnvironmentSettings::All ==> directory == abs_path
                && after.remaps == state.remaps
            &&& probe.mode != ProjectEnvironmentSettings::All ==> directory == probed(
                state,
                abs_path,
                probe,
            ).1 && after.remaps == probed(state, abs_path, probe).0.remaps
            &&& 0 <= job < after.local.len()
            &&& after.local[job] == (shell, directory)
            &&& start <==> !state.local.contains((shell, directory))
            &&& start ==> after.local == state.local.push((shell, directory)) && job
                == state.local.len()
            &&& !start ==> after.local == state.local
            &&& after.remote == state.remote
            &&& after.errors == state.errors
            &&& after.cli == state.cli
            &&& after.is_remote_project == state.is_remote_project
            &&& after.test_support == state.test_support
        }),
{
}

/// A lookup on the remote machine names the request that was made for the shell
/// and the directory. It makes one when and only when there was none, and then
/// adds it alone, behind the others. No load is begun here.
pub proof fn law_a_lookup_there_names_the_request_for_its_directory(
    state: ProjectEnvironmentView,
    shell: ShellView,
    abs_path: Seq<ComponentView>,
)
    ensures
        ({
            let (after, lookup) = remote_lookup(state, shell, abs_path);
            &&& state.test_support ==> after == state && lookup == LookupView::Ready(
                Some(Map::<Seq<char>, Seq<char>>::empty()),
            )
            &&& !state.test_support ==> {
                &&& lookup matches LookupView::Remote { job, shell: used, directory, start }
                &&& used == shell
                &&& directory == abs_path
                &&& 0 <= job < after.remote.len()
                &&& after.remote[job] == (shell, abs_path)
                &&& start <==> !state.remote.contains((shell, abs_path))
                &&& start ==> after.remote == state.remote.push((shell, abs_path)) && job
                    == state.remote.len()
                &&& !start ==> after.remote == state.remote
            }
            &&& after.local == state.local
            &&& after.remaps == state.remaps
            &&& after.errors == state.errors
            &&& after.cli == state.cli
            &&& after.is_remote_project == state.is_remote_project
            &&& after.test_support == state.test_support
        }),
{
}

/// The remote machine is asked, and nothing is loaded here, whenever there is
/// one that told its shell: for a directory, and for a worktree of a project
/// that was not opened from the command line. Where it has not told its shell
/// there is no environment, and nothing is begun.
pub proof fn law_the_remote_machine_is_asked(
    state: ProjectEnvironmentView,
    abs_path: Seq<ComponentView>,
    program: Seq<char>,
    terminal_shell: ShellView,
    known_shell: Option<ShellView>,
    probe: ProbeView,
)
    requires
        !state.test_support,
    ensures
        ({
            let (after, lookup) = directory_lookup(
                state,
                abs_path,
                Some(Some(program)),
                known_shell,
                probe,
            );
            &&& lookup matches LookupView::Remote { job, shell, directory, start }
            &&& shell == ShellView::Program(program)
            &&& directory == abs_path
            &&& start <==> !state.remote.contains((shell, directory))
            &&& 0 <= job < after.remote.len() && after.remote[job] == (shell, directory)
            &&& after.local == state.local
        }),
        state.cli.is_none() ==> {
            let (after, lookup) = worktree_lookup(
                state,
                WorktreeView { abs_path, is_single_file: false },
                Some(Some(program)),
                terminal_shell,
                probe,
            );
            &&& lookup matches LookupView::Remote { job, shell, directory, start }
            &&& shell == ShellView::Program(program)
            &&& directory == abs_path
            &&& start <==> !state.remote.contains((shell, directory))
            &&& 0 <= job < after.remote.len() && after.remote[job] == (shell, directory)
            &&& after.local == state.local
        },
        directory_lookup(state, abs_path, Some(None), known_shell, probe) == (
            state,
            LookupView::Ready(None),
        ),
{
}

/// Without a remote machine an environment is loaded here: with the system's
/// shell for a project of a remote machine, with the shell of the terminal
/// settings for any other, and not at all where those cannot be had.
pub proof fn law_without_a_remote_machine_the_load_is_here(
    state: ProjectEnvironmentView,
    abs_path: Seq<ComponentView>,
    terminal_shell: ShellView,
    known_shell: Option<ShellView>,
    probe: ProbeView,
)
    ensures
        state.is_remote_project ==> directory_lookup(state, abs_path, None, known_shell, probe)
            == local_lookup(state, ShellView::System, abs_path, probe),
        !state.is_remote_project ==> directory_lookup(
            state,
            abs_path,
            None,
            Some(terminal_shell),
            probe,
        ) == local_lookup(state, terminal_shell, abs_path, probe),
        !state.is_remote_project ==> directory_lookup(state, abs_path, None, None, probe) == (
            state,
            LookupView::Ready(None),
        ),
{
}

/// A worktree of a project that was not opened from the command line has the
/// environment of its directory, looked up with the same remote machine and the
/// same shell: that of its path, or for a single file that of the path which the
/// file's name was added to. A file without a directory has none.
pub proof fn law_a_worktree_has_the_environment_of_its_directory(
    state: ProjectEnvironmentView,
    abs_path: Seq<ComponentView>,
    name: Seq<u8>,
    remote: Option<Option<Seq<char>>>,
    terminal_shell: ShellView,
    probe: ProbeView,
)
    requires
        cli_environment(state).is_none(),
    ensures
        worktree_lookup(
            state,
            WorktreeView { abs_path, is_single_file: false },
            remote,
            terminal_shell,
            probe,
        ) == directory_lookup(state, abs_path, remote, Some(terminal_shell), probe),
        worktree_lookup(
            state,
            WorktreeView {
                abs_path: abs_path.push(ComponentView::Normal(name)),
                is_single_file: true,
            },
            remote,
            terminal_shell,
            probe,
        ) == directory_lookup(state, abs_path, remote, Some(terminal_shell), probe),
        worktree_lookup(
            state,
            WorktreeView {
                abs_path: abs_path.push(ComponentView::RootDir),
                is_single_file: true,
            },
            remote,
            terminal_shell,
            probe,
        ) == (state, LookupView::Ready(None)),
{
    assert(abs_path.push(ComponentView::Normal(name)).drop_last() =~= abs_path);
}

/// What is handed to a lookup and what it hands back are taken as they are: the
/// shell that the remote machine told, the setting, the worktree's directory and
/// the repositories; the load, its shell, its directory and whether it is new.
pub proof fn law_lookups_are_taken_as_they_are(
    remote: Option<RemoteHost>,
    probe: ProbeInputs,
    lookup: EnvironmentLookup,
)
    ensures
        remote.is_none() ==> remote_shell(remote).is_none(),
        remote matches Some(host) ==> remote_shell(remote) == Some(
            match host.shell {
                Some(shell) => Some(shell@),
                None => None,
            },
        ),
        probe@.mode == probe.mode,
        probe.worktree.is_none() ==> probe@.root.is_none(),
        probe.worktree matches Some(worktree) ==> probe@.root == worktree_directory(worktree@),
        forall|directory: Seq<ComponentView>| #[trigger]
            probe@.repositories.contains(directory) <==> exists|i: int|
                0 <= i < probe.repositories@.len() && (#[trigger] probe.repositories@[i])@
                    == directory,
        match lookup {
            EnvironmentLookup::Ready(None) => lookup@ == LookupView::Ready(None),
            EnvironmentLookup::Ready(Some(environment)) => lookup@ == LookupView::Ready(
                Some(environment@),
            ),
            EnvironmentLookup::Local { job, shell, directory, start } => {
                &&& lookup@ matches LookupView::Local { job: j, shell: s, directory: d, start: n }
                &&& j == job && s == shell@ && d == directory@ && n == start
            },
            EnvironmentLookup::Remote { job, shell, directory, start } => {
                &&& lookup@ matches LookupView::Remote { job: j, shell: s, directory: d, start: n }
                &&& j == job && s == shell@ && d == directory@ && n == start
            },
        },
{
}

} // verus!
