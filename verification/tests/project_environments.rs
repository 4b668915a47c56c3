use spacezed::environment::Environment;
use spacezed::path::{DirPath, PathComponent};
use spacezed::project_environment::{
    local_environment_result, remote_environment_result, EnvironmentLookup, ProbeInputs,
    ProjectEnvironment, ProjectEnvironmentEvent, ProjectEnvironmentSettings, RemoteHost,
    WorktreeInfo,
};
use spacezed::shell::Shell;

fn text(value: &str) -> String {
    value.to_string()
}

fn path(value: &str) -> DirPath {
    let mut components = vec![PathComponent::RootDir];
    for name in value.split('/') {
        if !name.is_empty() {
            components.push(PathComponent::named(name));
        }
    }
    DirPath { components }
}

fn worktree(root: &str) -> WorktreeInfo {
    WorktreeInfo { abs_path: path(root), is_single_file: false }
}

fn single_file(file: &str) -> WorktreeInfo {
    WorktreeInfo { abs_path: path(file), is_single_file: true }
}

fn probe(
    mode: ProjectEnvironmentSettings,
    worktree: Option<WorktreeInfo>,
    repositories: &[&str],
) -> ProbeInputs {
    ProbeInputs {
        mode,
        worktree,
        repositories: repositories.iter().map(|repository| path(repository)).collect(),
    }
}

fn environment(name: &str, value: &str) -> Environment {
    Environment::from_pairs(&vec![(text(name), text(value))])
}

fn project() -> ProjectEnvironment {
    ProjectEnvironment::new(None, false, false)
}

fn local(lookup: EnvironmentLookup) -> (usize, DirPath, bool) {
    match lookup {
        EnvironmentLookup::Local { job, directory, start, .. } => (job, directory, start),
        other => panic!("no load on this machine: {:?}", other),
    }
}

fn value(lookup: EnvironmentLookup, name: &str) -> Option<Option<String>> {
    match lookup {
        EnvironmentLookup::Ready(Some(environment)) => {
            Some(environment.get(&text(name)).cloned())
        }
        EnvironmentLookup::Ready(None) => None,
        other => panic!("nothing is ready: {:?}", other),
    }
}

#[test]
fn the_command_line_goes_first() {
    let mut project = ProjectEnvironment::new(Some(environment("A", "1")), false, false);
    let all = probe(ProjectEnvironmentSettings::All, None, &[]);
    for name in ["A", "ZED_ENVIRONMENT"] {
        let expected = if name == "A" { "1" } else { "cli" };
        let lookup = project.buffer_environment(None, &None, &Shell::System, &all);
        assert_eq!(value(lookup, name), Some(Some(text(expected))));
        let lookup = project.worktree_environment(&worktree("/w"), &None, &Shell::System, &all);
        assert_eq!(value(lookup, name), Some(Some(text(expected))));
        let lookup = project.local_directory_environment(&Shell::System, &path("/w"), &all);
        assert_eq!(value(lookup, name), Some(Some(text(expected))));
    }
    assert!(project.get_cli_environment().is_some());
}

#[test]
fn builds_for_tests_start_no_shell() {
    let mut project = ProjectEnvironment::new(Some(environment("A", "1")), false, true);
    let all = probe(ProjectEnvironmentSettings::All, None, &[]);
    assert_eq!(project.get_cli_environment().map(|environment| environment.len()), Some(0));
    let lookup = project.local_directory_environment(&Shell::System, &path("/w"), &all);
    assert_eq!(value(lookup, "A"), Some(None));
    let lookup = project.remote_directory_environment(&Shell::System, &path("/w"));
    assert_eq!(value(lookup, "A"), Some(None));
}

#[test]
fn buffers_outside_worktrees_have_no_environment() {
    let all = probe(ProjectEnvironmentSettings::All, None, &[]);
    let lookup = project().buffer_environment(None, &None, &Shell::System, &all);
    assert_eq!(value(lookup, "A"), None);
    let shell = Shell::Program(text("zsh"));
    let lookup = project().buffer_environment(Some(&worktree("/w")), &None, &shell, &all);
    assert!(matches!(
        lookup,
        EnvironmentLookup::Local { job: 0, shell: Shell::Program(used), start: true, .. }
            if used == "zsh"
    ));
}

#[test]
fn single_files_have_the_environment_of_their_directory() {
    let all = probe(ProjectEnvironmentSettings::All, None, &[]);
    let lookup =
        project().worktree_environment(&single_file("/w/f"), &None, &Shell::System, &all);
    assert_eq!(local(lookup), (0, path("/w"), true));
    let lookup = project().worktree_environment(&single_file("/"), &None, &Shell::System, &all);
    assert_eq!(value(lookup, "A"), None);
}

#[test]
fn remote_machines_are_asked() {
    let mut project = project();
    let all = probe(ProjectEnvironmentSettings::All, None, &[]);
    let host = Some(RemoteHost { shell: Some(text("fish")) });
    let lookup = project.directory_environment(&path("/r"), &host, None, &all);
    assert!(matches!(
        lookup,
        EnvironmentLookup::Remote { job: 0, shell: Shell::Program(used), directory, start: true }
            if used == "fish" && directory == path("/r")
    ));
    let lookup = project.directory_environment(&path("/r"), &host, None, &all);
    assert!(matches!(lookup, EnvironmentLookup::Remote { job: 0, start: false, .. }));
    let silent = Some(RemoteHost { shell: None });
    let lookup = project.directory_environment(&path("/r"), &silent, Some(&Shell::System), &all);
    assert_eq!(value(lookup, "A"), None);
}

#[test]
fn remote_projects_use_the_system_shell() {
    let mut project = ProjectEnvironment::new(None, true, false);
    let all = probe(ProjectEnvironmentSettings::All, None, &[]);
    let zsh = Shell::Program(text("zsh"));
    let lookup = project.directory_environment(&path("/r"), &None, Some(&zsh), &all);
    assert!(matches!(lookup, EnvironmentLookup::Local { shell: Shell::System, .. }));
    let lookup = ProjectEnvironment::new(None, false, false).directory_environment(
        &path("/r"),
        &None,
        None,
        &all,
    );
    assert_eq!(value(lookup, "A"), None);
}

#[test]
fn off_starts_no_shell() {
    let off = probe(ProjectEnvironmentSettings::Off, Some(worktree("/w")), &["/w"]);
    let lookup = project().local_directory_environment(&Shell::System, &path("/w/a"), &off);
    assert_eq!(value(lookup, "A"), Some(None));
}

#[test]
fn all_loads_every_directory_once() {
    let mut project = project();
    let all = probe(ProjectEnvironmentSettings::All, Some(worktree("/w")), &["/w"]);
    let mut ask = |shell: &Shell, at: &str| {
        local(project.local_directory_environment(shell, &path(at), &all))
    };
    assert_eq!(ask(&Shell::System, "/w/a"), (0, path("/w/a"), true));
    assert_eq!(ask(&Shell::System, "/w/b"), (1, path("/w/b"), true));
    assert_eq!(ask(&Shell::System, "/w/a"), (0, path("/w/a"), false));
    let zsh = Shell::WithArguments {
        program: text("zsh"),
        args: vec![text("-l")],
        title_override: None,
    };
    assert_eq!(ask(&zsh, "/w/a"), (2, path("/w/a"), true));
    assert_eq!(ask(&zsh.clone(), "/w/a"), (2, path("/w/a"), false));
}

#[test]
fn root_only_shares_one_load() {
    let mut project = project();
    let inputs = probe(ProjectEnvironmentSettings::RootOnly, Some(worktree("/w")), &["/w/a"]);
    let mut ask = |at: &str| {
        local(project.local_directory_environment(&Shell::System, &path(at), &inputs))
    };
    assert_eq!(ask("/w/a"), (0, path("/w"), true));
    assert_eq!(ask("/w/b/c"), (0, path("/w"), false));
}

#[test]
fn top_level_shares_one_load_per_outermost_repository() {
    let mut project = project();
    let inputs = probe(
        ProjectEnvironmentSettings::TopLevel,
        Some(worktree("/w")),
        &["/w/a", "/w/a/nested", "/w/b"],
    );
    let mut ask = |at: &str| {
        local(project.local_directory_environment(&Shell::System, &path(at), &inputs))
    };
    assert_eq!(ask("/w/a/nested/deep"), (0, path("/w/a"), true));
    assert_eq!(ask("/w/a"), (0, path("/w/a"), false));
    assert_eq!(ask("/w/b"), (1, path("/w/b"), true));
    assert_eq!(ask("/w/c"), (2, path("/w/c"), true));
}

#[test]
fn probed_directories_are_remembered() {
    let mut project = project();
    let at = path("/w/a/b");
    let mode = ProjectEnvironmentSettings::TopLevel;
    let candidates = project.probe_candidates(&at, mode, Some(&worktree("/w")));
    assert_eq!(candidates, vec![path("/w"), path("/w/a"), path("/w/a/b")]);
    let first = probe(mode, Some(worktree("/w")), &["/w/a"]);
    assert_eq!(project.probe_directory(&at, &first), path("/w/a"));
    let later = probe(mode, Some(worktree("/w")), &["/w"]);
    assert_eq!(project.probe_directory(&at, &later), path("/w/a"));
    assert!(project.probe_candidates(&at, mode, Some(&worktree("/w"))).is_empty());
    let root_only = probe(ProjectEnvironmentSettings::RootOnly, Some(worktree("/w")), &[]);
    assert_eq!(project.probe_directory(&at, &root_only), path("/w"));
}

#[test]
fn directories_are_probed_as_the_setting_says() {
    let at = path("/w/a");
    let inputs = probe(ProjectEnvironmentSettings::RootOnly, None, &["/w/a"]);
    assert_eq!(project().probe_directory(&at, &inputs), at);
    let inputs =
        probe(ProjectEnvironmentSettings::RootOnly, Some(single_file("/w/a/file")), &[]);
    assert_eq!(project().probe_directory(&at, &inputs), path("/w/a"));
    let inputs = probe(ProjectEnvironmentSettings::RootOnly, Some(single_file("/")), &[]);
    assert_eq!(project().probe_directory(&at, &inputs), at);
    for mode in [ProjectEnvironmentSettings::All, ProjectEnvironmentSettings::Off] {
        let inputs = probe(mode, Some(worktree("/w")), &["/w"]);
        assert_eq!(project().probe_directory(&at, &inputs), at);
    }
    let candidates =
        project().probe_candidates(&at, ProjectEnvironmentSettings::All, Some(&worktree("/w")));
    assert!(candidates.is_empty());
}

#[test]
fn errors_come_out_in_order() {
    let mut project = project();
    assert_eq!(project.peek_environment_error(), None);
    assert_eq!(project.pop_environment_error(), None);
    for message in ["one", "two"] {
        let event = project.push_environment_error(text(message));
        assert_eq!(event, ProjectEnvironmentEvent::ErrorsUpdated);
    }
    assert_eq!(project.peek_environment_error(), Some(&text("one")));
    assert_eq!(project.pop_environment_error(), Some(text("one")));
    assert_eq!(project.pop_environment_error(), Some(text("two")));
    assert_eq!(project.pop_environment_error(), None);
}

#[test]
fn loads_give_marked_environments() {
    let loaded = local_environment_result(Some(environment("A", "1"))).expect("loaded");
    assert_eq!(loaded.get(&text("A")), Some(&text("1")));
    assert_eq!(loaded.get(&text("ZED_ENVIRONMENT")), Some(&text("worktree-shell")));
    assert!(local_environment_result(None).is_none());
}

#[test]
fn remote_answers_are_taken_as_they_are() {
    let answer = remote_environment_result(Some(vec![
        (text("A"), text("1")),
        (text("A"), text("2")),
    ]))
    .expect("answered");
    assert_eq!(answer.len(), 1);
    assert_eq!(answer.get(&text("A")), Some(&text("2")));
    assert!(remote_environment_result(None).is_none());
}

#[test]
fn shells_differ_in_every_part() {
    let shell = |program: &str, args: &[&str], title: Option<&str>| Shell::WithArguments {
        program: text(program),
        args: args.iter().map(|argument| text(argument)).collect(),
        title_override: title.map(text),
    };
    let base = shell("zsh", &["-l"], None);
    assert!(base.same(&shell("zsh", &["-l"], None)));
    assert!(!base.same(&shell("fish", &["-l"], None)));
    assert!(!base.same(&shell("zsh", &["-i"], None)));
    assert!(!base.same(&shell("zsh", &["-l", "-i"], None)));
    assert!(!base.same(&shell("zsh", &["-l"], Some("title"))));
    assert!(!base.same(&Shell::Program(text("zsh"))));
    assert!(!Shell::System.same(&Shell::Program(text("zsh"))));
    assert!(Shell::System.same(&Shell::System));
}
