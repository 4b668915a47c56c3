use spacezed::environment::{
    direnv_command, load_direnv_environment, read_direnv_reply, set_origin_marker, DirenvError, DirenvRun,
    DirenvSettings, Environment, EnvironmentChanges, EnvironmentOrigin,
};
use spacezed::load::{
    load_directory_shell_environment, LoadError, LoadEvent, LoadRequest, LoadState,
};
use spacezed::path::{DirPath, PathComponent};
use spacezed::string_map::StringMap;

fn text(value: &str) -> String {
    value.to_string()
}

fn path(value: &str) -> DirPath {
    let mut components = vec![PathComponent::RootDir];
    for name in value.split('/') {
        if !name.is_empty() {
            components.push(PathComponent::named(name));
        }
    }
    DirPath { components }
}

fn environment(pairs: &[(&str, &str)]) -> Environment {
    let pairs: Vec<(String, String)> =
        pairs.iter().map(|(name, value)| (text(name), text(value))).collect();
    Environment::from_pairs(&pairs)
}

fn listed(environment: &Environment) -> Vec<(String, String)> {
    let mut pairs = Vec::new();
    for index in 0..environment.len() {
        let (name, value) = environment.variable(index);
        pairs.push((name.clone(), value.clone()));
    }
    pairs.sort();
    pairs
}

fn pairs(pairs: &[(&str, &str)]) -> Vec<(String, String)> {
    pairs.iter().map(|(name, value)| (text(name), text(value))).collect()
}

fn request(load_direnv: DirenvSettings, windows: bool, at: &str) -> LoadRequest {
    LoadRequest { abs_path: path(at), shown_path: text(at), load_direnv, windows }
}

fn finished(output: &str) -> DirenvRun {
    DirenvRun::Finished {
        success: true,
        status: text("exit status: 0"),
        stdout: output.as_bytes().to_vec(),
        stderr: Vec::new(),
    }
}

#[test]
fn maps_keep_one_value_for_each_key() {
    let mut map: StringMap<u32> = StringMap::new();
    map.insert(text("a"), 1);
    map.insert(text("b"), 2);
    map.insert(text("a"), 3);
    assert_eq!(map.len(), 2);
    assert_eq!(map.get(&text("a")), Some(&3));
    assert_eq!(map.remove(&text("a")), Some(3));
    assert_eq!(map.remove(&text("a")), None);
    assert_eq!(map.get(&text("a")), None);
    assert_eq!(map.len(), 1);
    assert_eq!(map.entry(0), (&text("b"), &2));
}

#[test]
fn later_variables_replace_earlier_ones() {
    let environment = environment(&[("A", "1"), ("B", "2"), ("A", "3")]);
    assert_eq!(listed(&environment), pairs(&[("A", "3"), ("B", "2")]));
    assert_eq!(listed(&environment.duplicate()), listed(&environment));
}

#[test]
fn origin_markers_name_the_origin() {
    let mut marked = environment(&[("A", "1")]);
    set_origin_marker(&mut marked, EnvironmentOrigin::Cli);
    assert_eq!(listed(&marked), pairs(&[("A", "1"), ("ZED_ENVIRONMENT", "cli")]));
    set_origin_marker(&mut marked, EnvironmentOrigin::WorktreeShell);
    assert_eq!(listed(&marked), pairs(&[("A", "1"), ("ZED_ENVIRONMENT", "worktree-shell")]));
}

#[test]
fn changes_set_and_take_out_variables() {
    let changes = EnvironmentChanges::from_pairs(&vec![
        (text("A"), Some(text("new"))),
        (text("B"), None),
        (text("C"), None),
        (text("D"), Some(text("4"))),
    ]);
    let mut changed = environment(&[("A", "old"), ("B", "2"), ("E", "5")]);
    changes.apply(&mut changed);
    let expected = pairs(&[("A", "new"), ("D", "4"), ("E", "5")]);
    assert_eq!(listed(&changed), expected);
    changes.apply(&mut changed);
    assert_eq!(listed(&changed), expected);
}

#[test]
fn direnv_is_asked_for_json() {
    let command = direnv_command(&environment(&[("A", "1"), ("TERM", "xterm")]));
    assert_eq!(command.args, vec!["export", "json"]);
    assert_eq!(listed(&command.environment), pairs(&[("A", "1"), ("TERM", "dumb")]));
}

#[test]
fn direnv_output_is_a_set_of_changes() {
    let run = finished("{\"A\": \"x\\ny\", \"B\": null, \"A\": \"z\"}");
    let changes = load_direnv_environment(&run).expect("an object of optional strings");
    let mut changed = environment(&[("B", "2")]);
    changes.apply(&mut changed);
    assert_eq!(listed(&changed), pairs(&[("A", "z")]));
}

#[test]
fn direnv_escapes_are_resolved() {
    let changes = load_direnv_environment(&finished("{\"A\": \"x\\ny\\u00e8\"}"))
        .expect("an object of optional strings");
    let mut changed = Environment::new();
    changes.apply(&mut changed);
    assert_eq!(listed(&changed), pairs(&[("A", "x\nyè")]));
}

#[test]
fn direnv_without_output_changes_nothing() {
    for run in [finished(""), DirenvRun::NotInstalled] {
        let changes = load_direnv_environment(&run).expect("no changes");
        let mut changed = environment(&[("A", "1")]);
        changes.apply(&mut changed);
        assert_eq!(listed(&changed), pairs(&[("A", "1")]));
    }
}

#[test]
fn direnv_output_that_is_no_object_is_an_error() {
    for output in ["[]", "{", "{\"A\": 1}", "nonsense", "{} {}", " "] {
        let reply = load_direnv_environment(&finished(output));
        assert!(matches!(reply, Err(DirenvError::Parse)), "{:?}", output);
    }
}

#[test]
fn direnv_failures_are_reported_in_words() {
    let run = DirenvRun::Finished {
        success: false,
        status: text("exit status: 1"),
        stdout: b"{}".to_vec(),
        stderr: vec![b'n', b'o', 0xff, b'!'],
    };
    let message =
        text("Loading direnv environment failed (exit status: 1), stderr: no\u{fffd}!");
    assert_eq!(
        load_direnv_environment(&run).err(),
        Some(DirenvError::Failed { message })
    );
    assert_eq!(load_direnv_environment(&DirenvRun::NotStarted).err(), Some(DirenvError::Run));
}

#[test]
fn direnv_replies_follow_what_was_parsed() {
    let reply = read_direnv_reply(true, &text("0"), &text("..."), &text(""), None);
    assert_eq!(reply.err(), Some(DirenvError::Parse));
    let parsed = Some(vec![(text("A"), Some(text("1")))]);
    let reply = read_direnv_reply(true, &text("0"), &text("..."), &text(""), parsed);
    let mut changed = Environment::new();
    reply.expect("changes").apply(&mut changed);
    assert_eq!(listed(&changed), pairs(&[("A", "1")]));
    let reply = read_direnv_reply(true, &text("0"), &text(""), &text(""), None);
    assert!(reply.is_ok());
}

fn run(
    request: &LoadRequest,
    is_dir: Option<bool>,
    captured: Option<Environment>,
    direnv: Result<EnvironmentChanges, DirenvError>,
) -> (Result<Vec<(String, String)>, LoadError>, Vec<String>) {
    let mut state = load_directory_shell_environment(request.load_direnv);
    let mut captured = Some(captured);
    let mut direnv = Some(direnv);
    let mut messages = Vec::new();
    loop {
        let event = match &state {
            LoadState::ReadMetadata => LoadEvent::Metadata(is_dir),
            LoadState::CaptureShell { .. } => {
                LoadEvent::Captured(captured.take().expect("one capture"))
            }
            LoadState::RunDirenv { .. } => LoadEvent::Direnv(direnv.take().expect("one run")),
            LoadState::Finished(_) => break,
        };
        let next = request.advance(state, event);
        state = next.state;
        messages.extend(next.message);
    }
    match state {
        LoadState::Finished(Ok(environment)) => (Ok(listed(&environment)), messages),
        LoadState::Finished(Err(error)) => (Err(error), messages),
        _ => unreachable!(),
    }
}

fn one_change() -> Result<EnvironmentChanges, DirenvError> {
    Ok(EnvironmentChanges::from_pairs(&vec![(text("A"), Some(text("direnv")))]))
}

#[test]
fn disabled_loads_are_empty() {
    let request = request(DirenvSettings::Disabled, false, "/p");
    let outcome = run(&request, Some(true), Some(environment(&[("A", "1")])), one_change());
    assert_eq!(outcome, (Ok(Vec::new()), Vec::new()));
}

#[test]
fn shell_hooks_make_direnv_needless() {
    let request = request(DirenvSettings::ShellHook, false, "/p");
    let outcome = run(&request, Some(true), Some(environment(&[("A", "1")])), one_change());
    assert_eq!(outcome, (Ok(pairs(&[("A", "1")])), Vec::new()));
}

#[test]
fn direct_direnv_changes_the_environment() {
    let request = request(DirenvSettings::Direct, false, "/p");
    let outcome = run(&request, Some(true), Some(environment(&[("A", "1")])), one_change());
    assert_eq!(outcome, (Ok(pairs(&[("A", "direnv")])), Vec::new()));
}

#[test]
fn direnv_failures_keep_the_shell_environment() {
    let request = request(DirenvSettings::Direct, false, "/p");
    let outcome =
        run(&request, Some(true), Some(environment(&[("A", "1")])), Err(DirenvError::Run));
    assert_eq!(
        outcome,
        (Ok(pairs(&[("A", "1")])), vec![text("Failed to load direnv environment")])
    );
}

#[test]
fn paths_that_cannot_be_opened_are_reported() {
    let request_p = request(DirenvSettings::Direct, false, "/p");
    assert_eq!(
        run(&request_p, None, None, one_change()),
        (Err(LoadError::Metadata), vec![text("Failed to open /p")])
    );
    let request_root = request(DirenvSettings::Direct, false, "/");
    assert_eq!(
        run(&request_root, Some(false), None, one_change()),
        (Err(LoadError::Parent), vec![text("Failed to open /")])
    );
}

#[test]
fn shells_that_fail_are_reported() {
    let request = request(DirenvSettings::ShellHook, false, "/p");
    assert_eq!(
        run(&request, Some(true), None, one_change()),
        (Err(LoadError::Capture), vec![text("Failed to load environment variables")])
    );
}

#[test]
fn disabled_in_the_middle_is_an_error() {
    let request = request(DirenvSettings::Disabled, false, "/p");
    let next = request.advance(
        LoadState::CaptureShell { directory: path("/p") },
        LoadEvent::Captured(Some(Environment::new())),
    );
    assert!(matches!(next.state, LoadState::Finished(Err(LoadError::DirenvDisabled))));
}

#[test]
fn direnv_runs_in_the_directory_of_a_file() {
    let request = request(DirenvSettings::Direct, false, "/p/file");
    let next = request.advance(LoadState::ReadMetadata, LoadEvent::Metadata(Some(false)));
    assert!(matches!(
        next.state,
        LoadState::CaptureShell { directory } if directory == path("/p")
    ));
}

#[test]
fn unexpected_events_change_nothing() {
    let request = request(DirenvSettings::Direct, false, "/p");
    let next = request.advance(LoadState::ReadMetadata, LoadEvent::Captured(None));
    assert!(matches!(next.state, LoadState::ReadMetadata));
    assert_eq!(next.message, None);
}

#[test]
fn case_insensitive_platforms_call_the_search_path_path() {
    let request_windows = request(DirenvSettings::Direct, true, "/p");
    let captured = environment(&[("Path", "x"), ("A", "1")]);
    assert_eq!(
        run(&request_windows, Some(true), Some(captured), one_change()),
        (Ok(pairs(&[("A", "1"), ("PATH", "x")])), Vec::new())
    );
    let request_other = request(DirenvSettings::ShellHook, false, "/p");
    let captured = environment(&[("Path", "x")]);
    assert_eq!(
        run(&request_other, Some(true), Some(captured), one_change()),
        (Ok(pairs(&[("Path", "x")])), Vec::new())
    );
}
