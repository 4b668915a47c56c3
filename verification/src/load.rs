//! How the environment of a directory is loaded: what is to be done next, and
//! what the outcome of it means.

use crate::environment::{changed, DirenvError, DirenvSettings, Environment, EnvironmentChanges};
use crate::path::{path_parent, ComponentView, DirPath};
use vstd::prelude::*;

verus! {

/// Why an environment could not be loaded.
#[derive(Clone, Copy, Debug, PartialEq, Eq, Structural)]
pub enum LoadError {
    /// The path could not be examined.
    Metadata,
    /// The path is a file with no directory above it.
    Parent,
    /// The shell could not be run, or did not tell its variables.
    Capture,
    /// Environments are not to be loaded.
    DirenvDisabled,
}

/// The load of an environment.
#[derive(Debug)]
pub struct LoadRequest {
    /// The path whose environment is wanted.
    pub abs_path: DirPath,
    /// That path, as it is shown in messages.
    pub shown_path: String,
    pub load_direnv: DirenvSettings,
    /// Whether variable names are case-insensitive here, and direnv not to be had.
    pub windows: bool,
}

/// How far a load has come, and so what is to be done next.
#[derive(Debug)]
pub enum LoadState {
    /// It is to be found out whether the path is a directory.
    ReadMetadata,
    /// The shell is to be run at the path; `directory` is for direnv.
    CaptureShell { directory: DirPath },
    /// direnv is to be run in the directory, with the environment.
    RunDirenv { environment: Environment, directory: DirPath },
    /// Nothing is left to be done.
    Finished(Result<Environment, LoadError>),
}

/// What came of the last thing that was to be done.
#[derive(Debug)]
pub enum LoadEvent {
    /// Whether the path is a directory, unless it could not be examined.
    Metadata(Option<bool>),
    /// The variables of the shell, unless it failed.
    Captured(Option<Environment>),
    /// The changes that direnv asks for, unless it failed.
    Direnv(Result<EnvironmentChanges, DirenvError>),
}

/// The next state of a load, and a message for the user where something failed.
#[derive(Debug)]
pub struct LoadTransition {
    pub state: LoadState,
    pub message: Option<String>,
}

/// What a [`LoadRequest`] stands for.
pub struct LoadRequestView {
    pub abs_path: Seq<ComponentView>,
    pub shown_path: Seq<char>,
    pub load_direnv: DirenvSettings,
    pub windows: bool,
}

/// What a [`LoadState`] stands for.
pub enum LoadStateView {
    ReadMetadata,
    CaptureShell { directory: Seq<ComponentView> },
    RunDirenv { environment: Map<Seq<char>, Seq<char>>, directory: Seq<ComponentView> },
    Finished(Result<Map<Seq<char>, Seq<char>>, LoadError>),
}

/// What a [`LoadEvent`] stands for.
pub enum LoadEventView {
    Metadata(Option<bool>),
    Captured(Option<Map<Seq<char>, Seq<char>>>),
    Direnv(Option<Map<Seq<char>, Option<Seq<char>>>>),
}

impl View for LoadRequest {
    type V = LoadRequestView;

    open spec fn view(&self) -> LoadRequestView {
        LoadRequestView {
            abs_path: self.abs_path@,
            shown_path: self.shown_path@,
            load_direnv: self.load_direnv,
            windows: self.windows,
        }
    }
}

impl View for LoadState {
    type V = LoadStateView;

    open spec fn view(&self) -> LoadStateView {
        match *self {
            LoadState::ReadMetadata => LoadStateView::ReadMetadata,
            LoadState::CaptureShell { directory } => LoadStateView::CaptureShell {
                directory: directory@,
            },
            LoadState::RunDirenv { environment, directory } => LoadStateView::RunDirenv {
                environment: environment@,
                directory: directory@,
            },
            LoadState::Finished(Ok(environment)) => LoadStateView::Finished(Ok(environment@)),
            LoadState::Finished(Err(error)) => LoadStateView::Finished(Err(error)),
        }
    }
}

impl View for LoadEvent {
    type V = LoadEventView;

    open spec fn view(&self) -> LoadEventView {
        match *self {
            LoadEvent::Metadata(is_dir) => LoadEventView::Metadata(is_dir),
            LoadEvent::Captured(Some(environment)) => LoadEventView::Captured(Some(environment@)),
            LoadEvent::Captured(None) => LoadEventView::Captured(None),
            LoadEvent::Direnv(Ok(changes)) => LoadEventView::Direnv(Some(changes@)),
            LoadEvent::Direnv(Err(_)) => LoadEventView::Direnv(None),
        }
    }
}

impl LoadState {
    /// The environment in it, if there is one, holds no variable twice.
    pub open spec fn well_formed(self) -> bool {
        match self {
            LoadState::RunDirenv { environment, .. } => environment.well_formed(),
            LoadState::Finished(Ok(environment)) => environment.well_formed(),
            _ => true,
        }
    }
}

impl LoadEvent {
    /// The environment or the changes in it, if any, hold no variable twice.
    pub open spec fn well_formed(self) -> bool {
        match self {
            LoadEvent::Captured(Some(environment)) => environment.well_formed(),
            LoadEvent::Direnv(Ok(changes)) => changes.well_formed(),
            _ => true,
        }
    }
}

/// How a load begins: there is nothing to do where direnv is disabled.
pub open spec fn first_state(load_direnv: DirenvSettings) -> LoadStateView {
    match load_direnv {
        DirenvSettings::Disabled => LoadStateView::Finished(Ok(Map::empty())),
        _ => LoadStateView::ReadMetadata,
    }
}

/// A shell's environment under the names that variables go by: where names are
/// case-insensitive, `Path` is called `PATH`.
pub open spec fn with_normal_path(
    environment: Map<Seq<char>, Seq<char>>,
    windows: bool,
) -> Map<Seq<char>, Seq<char>> {
    if windows && environment.contains_key("Path"@) {
        environment.remove("Path"@).insert("PATH"@, environment["Path"@])
    } else {
        environment
    }
}

/// What follows once the shell has told its variables.
pub open spec fn after_capture(
    request: LoadRequestView,
    environment: Map<Seq<char>, Seq<char>>,
    directory: Seq<ComponentView>,
) -> LoadStateView {
    let environment = with_normal_path(environment, request.windows);
    match request.load_direnv {
        DirenvSettings::ShellHook => LoadStateView::Finished(Ok(environment)),
        DirenvSettings::Disabled => LoadStateView::Finished(Err(LoadError::DirenvDisabled)),
        DirenvSettings::Direct => if request.windows {
            LoadStateView::Finished(Ok(environment))
        } else {
            LoadStateView::RunDirenv { environment, directory }
        },
    }
}

/// The message for a path that could not be opened.
pub open spec fn open_failure(shown_path: Seq<char>) -> Seq<char> {
    "Failed to open "@ + shown_path
}

/// The next state of a load and the message that goes with it. An event that
/// does not answer what the state asks for changes nothing.
pub open spec fn next_state(
    request: LoadRequestView,
    state: LoadStateView,
    event: LoadEventView,
) -> (LoadStateView, Option<Seq<char>>) {
    match (state, event) {
        (LoadStateView::ReadMetadata, LoadEventView::Metadata(is_dir)) => match is_dir {
            None => (
                LoadStateView::Finished(Err(LoadError::Metadata)),
                Some(open_failure(request.shown_path)),
            ),
            Some(true) => (LoadStateView::CaptureShell { directory: request.abs_path }, None),
            Some(false) => match path_parent(request.abs_path) {
                Some(directory) => (LoadStateView::CaptureShell { directory }, None),
                None => (
                    LoadStateView::Finished(Err(LoadError::Parent)),
                    Some(open_failure(request.shown_path)),
                ),
            },
        },
        (LoadStateView::CaptureShell { directory }, LoadEventView::Captured(captured)) => {
            match captured {
                None => (
                    LoadStateView::Finished(Err(LoadError::Capture)),
                    Some("Failed to load environment variables"@),
                ),
                Some(environment) => (after_capture(request, environment, directory), None),
            }
        },
        (LoadStateView::RunDirenv { environment, .. }, LoadEventView::Direnv(direnv)) => {
            match direnv {
                None => (
                    LoadStateView::Finished(Ok(environment)),
                    Some("Failed to load direnv environment"@),
                ),
                Some(changes) => (
                    LoadStateView::Finished(Ok(changed(environment, changes))),
                    None,
                ),
            }
        },
        _ => (state, None),
    }
}

/// Begins the load of an environment.
pub fn load_directory_shell_environment(load_direnv: DirenvSettings) -> (state: LoadState)
    ensures
        state.well_formed(),
        state@ == first_state(load_direnv),
{
    match load_direnv {
        DirenvSettings::Disabled => LoadState::Finished(Ok(Environment::new())),
        _ => LoadState::ReadMetadata,
    }
}

fn normalize_path(environment: Environment, windows: bool) -> (normal: Environment)
    requires
        environment.well_formed(),
    ensures
        normal.well_formed(),
        normal@ == with_normal_path(environment@, windows),
{
    let mut environment = environment;
    if windows {
        let ghost before = environment@;
        let name = "Path".to_owned();
        match environment.unset(&name) {
            Some(path) => environment.set("PATH".to_owned(), path),
            None => {
                assert(environment@ =~= before);
            },
        }
    }
    environment
}

impl LoadRequest {
    fn open_failure(&self) -> (message: String)
        ensures
            message@ == open_failure(self@.shown_path),
    {
        "Failed to open ".to_owned().concat(self.shown_path.as_str())
    }

    /// Takes a load on by what came of the last thing that was to be done.
    pub fn advance(&self, state: LoadState, event: LoadEvent) -> (next: LoadTransition)
        requires
            state.well_formed(),
            event.well_formed(),
        ensures
            next.state.well_formed(),
            next.state@ == next_state(self@, state@, event@).0,
            match next.message {
                Some(message) => next_state(self@, state@, event@).1 == Some(message@),
                None => next_state(self@, state@, event@).1.is_none(),
            },
    {
        match (state, event) {
            (LoadState::ReadMetadata, LoadEvent::Metadata(is_dir)) => match is_dir {
                None => LoadTransition {
                    state: LoadState::Finished(Err(LoadError::Metadata)),
                    message: Some(self.open_failure()),
                },
                Some(true) => LoadTransition {
                    state: LoadState::CaptureShell { directory: self.abs_path.clone() },
                    message: None,
                },
                Some(false) => match self.abs_path.parent() {
                    Some(directory) => LoadTransition {
                        state: LoadState::CaptureShell { directory },
                        message: None,
                    },
                    None => LoadTransition {
                        state: LoadState::Finished(Err(LoadError::Parent)),
                        message: Some(self.open_failure()),
                    },
                },
            },
            (LoadState::CaptureShell { directory }, LoadEvent::Captured(captured)) => {
                match captured {
                    None => LoadTransition {
                        state: LoadState::Finished(Err(LoadError::Capture)),
                        message: Some("Failed to load environment variables".to_owned()),
                    },
                    Some(environment) => {
                        let environment = normalize_path(environment, self.windows);
                        let state = match self.load_direnv {
                            DirenvSettings::ShellHook => LoadState::Finished(Ok(environment)),
                            DirenvSettings::Disabled => LoadState::Finished(
                                Err(LoadError::DirenvDisabled),
                            ),
                            DirenvSettings::Direct => if self.windows {
                                LoadState::Finished(Ok(environment))
                            } else {
                                LoadState::RunDirenv { environment, directory }
                            },
                        };
                        LoadTransition { state, message: None }
                    },
                }
            },
            (LoadState::RunDirenv { environment, directory: _ }, LoadEvent::Direnv(direnv)) => {
                match direnv {
                    Err(_) => LoadTransition {
                        state: LoadState::Finished(Ok(environment)),
                        message: Some("Failed to load direnv environment".to_owned()),
                    },
                    Ok(changes) => {
                        let mut environment = environment;
                        changes.apply(&mut environment);
                        LoadTransition { state: LoadState::Finished(Ok(environment)), message: None }
                    },
                }
            },
            (state, _) => LoadTransition { state, message: None },
        }
    }
}

/// What a load comes to, given what each thing that it may ask for would give.
pub open spec fn load_outcome(
    request: LoadRequestView,
    is_dir: Option<bool>,
    captured: Option<Map<Seq<char>, Seq<char>>>,
    direnv: Option<Map<Seq<char>, Option<Seq<char>>>>,
) -> Result<Map<Seq<char>, Seq<char>>, LoadError> {
    if request.load_direnv == DirenvSettings::Disabled {
        Ok(Map::empty())
    } else if is_dir.is_none() {
        Err(LoadError::Metadata)
    } else if is_dir == Some(false) && path_parent(request.abs_path).is_none() {
        Err(LoadError::Parent)
    } else if captured.is_none() {
        Err(LoadError::Capture)
    } else {
        let environment = with_normal_path(captured.unwrap(), request.windows);
        if request.load_direnv == DirenvSettings::Direct && !request.windows && direnv.is_some() {
            Ok(changed(environment, direnv.unwrap()))
        } else {
            Ok(environment)
        }
    }
}

/// A load that is handed what it asks for.
pub open spec fn answered(
    request: LoadRequestView,
    state: LoadStateView,
    is_dir: Option<bool>,
    captured: Option<Map<Seq<char>, Seq<char>>>,
    direnv: Option<Map<Seq<char>, Option<Seq<char>>>>,
) -> LoadStateView {
    let event = match state {
        LoadStateView::ReadMetadata => LoadEventView::Metadata(is_dir),
        LoadStateView::CaptureShell { .. } => LoadEventView::Captured(captured),
        _ => LoadEventView::Direnv(direnv),
    };
    next_state(request, state, event).0
}

/// A load ends after at most three answers, with the outcome that they add up
/// to: a failure of direnv alone loses only what direnv would have changed.
pub proof fn law_a_load_comes_to_its_outcome(
    request: LoadRequestView,
    is_dir: Option<bool>,
    captured: Option<Map<Seq<char>, Seq<char>>>,
    direnv: Option<Map<Seq<char>, Option<Seq<char>>>>,
)
    ensures
        ({
            let first = first_state(request.load_direnv);
            let second = answered(request, first, is_dir, captured, direnv);
            let third = answered(request, second, is_dir, captured, direnv);
            let last = answered(request, third, is_dir, captured, direnv);
            last == LoadStateView::Finished(load_outcome(request, is_dir, captured, direnv))
        }),
{
}

/// Whoever loads an environment is told of every failure: a load that fails
/// does so with a message, unless none was to be made, and so does one that goes
/// on without direnv. A load that is over stays as it is.
pub proof fn law_failures_are_told(
    request: LoadRequestView,
    state: LoadStateView,
    event: LoadEventView,
)
    ensures
        ({
            let (next, message) = next_state(request, state, event);
            &&& state is Finished ==> next == state && message.is_none()
            &&& !(state is Finished) ==> (next matches LoadStateView::Finished(Err(error))
                ==> message.is_some() || error == LoadError::DirenvDisabled)
            &&& state is RunDirenv && event == LoadEventView::Direnv(None) ==> message.is_some()
        }),
{
}

/// Where names are case-insensitive the search path is found under `PATH`.
pub proof fn law_search_path_is_called_path(environment: Map<Seq<char>, Seq<char>>)
    requires
        environment.contains_key("Path"@),
    ensures
        !with_normal_path(environment, true).contains_key("Path"@),
        with_normal_path(environment, true)["PATH"@] == environment["Path"@],
        with_normal_path(environment, false) == environment,
{
    reveal_strlit("Path");
    reveal_strlit("PATH");
    assert("Path"@[1] != "PATH"@[1]);
}

/// The shell and direnv run at the right place. Once it is known what the path
/// is, the directory for direnv is the path itself where that is a directory,
/// and what the file's name was added to where it is a file; it stays that one
/// until direnv is run. direnv gets exactly the variables that the shell told.
pub proof fn law_direnv_runs_in_the_directory_of_the_path(
    request: LoadRequestView,
    is_dir: Option<bool>,
    captured: Option<Map<Seq<char>, Seq<char>>>,
    direnv: Option<Map<Seq<char>, Option<Seq<char>>>>,
)
    ensures
        ({
            let first = first_state(request.load_direnv);
            let second = answered(request, first, is_dir, captured, direnv);
            let third = answered(request, second, is_dir, captured, direnv);
            &&& second matches LoadStateView::CaptureShell { directory } ==> {
                &&& is_dir == Some(true) ==> directory == request.abs_path
                &&& is_dir == Some(false) ==> request.abs_path.len() > 0 && request.abs_path
                    == directory.push(request.abs_path.last())
                &&& is_dir.is_some()
            }
            &&& third matches LoadStateView::RunDirenv { environment, directory } ==> {
                &&& is_dir == Some(true) ==> directory == request.abs_path
                &&& is_dir == Some(false) ==> request.abs_path.len() > 0 && request.abs_path
                    == directory.push(request.abs_path.last())
                &&& Some(environment) == captured
                &&& request.load_direnv == DirenvSettings::Direct
                &&& !request.windows
            }
            &&& request.load_direnv != DirenvSettings::Disabled && is_dir == Some(true) ==> second
                is CaptureShell
            &&& request.load_direnv == DirenvSettings::Direct && !request.windows && is_dir
                == Some(true) && captured.is_some() ==> third is RunDirenv
        }),
{
    if request.abs_path.len() > 0 {
        assert(request.abs_path =~= request.abs_path.drop_last().push(request.abs_path.last()));
    }
}

/// What follows from what the path is: the shell is run for any directory, and
/// for any file in a directory. A path that cannot be examined, and a file with
/// no directory above it, end the load with a message that shows the path.
pub proof fn law_the_shell_is_run_for_what_can_be_opened(
    request: LoadRequestView,
    directory: Seq<ComponentView>,
    name: Seq<u8>,
)
    ensures
        first_state(DirenvSettings::ShellHook) == LoadStateView::ReadMetadata,
        first_state(DirenvSettings::Direct) == LoadStateView::ReadMetadata,
        first_state(DirenvSettings::Disabled) == LoadStateView::Finished(
            Ok(Map::<Seq<char>, Seq<char>>::empty()),
        ),
        next_state(request, LoadStateView::ReadMetadata, LoadEventView::Metadata(Some(true))) == (
            LoadStateView::CaptureShell { directory: request.abs_path },
            None::<Seq<char>>,
        ),
        request.abs_path == directory.push(ComponentView::Normal(name)) ==> next_state(
            request,
            LoadStateView::ReadMetadata,
            LoadEventView::Metadata(Some(false)),
        ) == (LoadStateView::CaptureShell { directory }, None::<Seq<char>>),
        request.abs_path == directory.push(ComponentView::RootDir) || request.abs_path.len() == 0
            ==> next_state(
            request,
            LoadStateView::ReadMetadata,
            LoadEventView::Metadata(Some(false)),
        ) == (
            LoadStateView::Finished(Err(LoadError::Parent)),
            Some("Failed to open "@ + request.shown_path),
        ),
        next_state(request, LoadStateView::ReadMetadata, LoadEventView::Metadata(None)) == (
            LoadStateView::Finished(Err(LoadError::Metadata)),
            Some("Failed to open "@ + request.shown_path),
        ),
{
    assert(directory.push(ComponentView::Normal(name)).drop_last() =~= directory);
}

/// What follows from what the shell told: it is the environment where the shell
/// runs direnv's hook or direnv is not to be had, it is handed to direnv where
/// direnv is asked directly, and a shell that failed ends the load. Where names
/// are case-sensitive the variables are just those that the shell told; where
/// they are not, all are but for the search path, which is called `PATH`.
pub proof fn law_the_shell_is_taken_at_its_word(
    request: LoadRequestView,
    directory: Seq<ComponentView>,
    told: Map<Seq<char>, Seq<char>>,
    name: Seq<char>,
)
    ensures
        next_state(
            request,
            LoadStateView::CaptureShell { directory },
            LoadEventView::Captured(None),
        ) == (
            LoadStateView::Finished(Err(LoadError::Capture)),
            Some("Failed to load environment variables"@),
        ),
        ({
            let (next, message) = next_state(
                request,
                LoadStateView::CaptureShell { directory },
                LoadEventView::Captured(Some(told)),
            );
            &&& message.is_none()
            &&& request.load_direnv == DirenvSettings::Disabled ==> next == LoadStateView::Finished(
                Err(LoadError::DirenvDisabled),
            )
            &&& request.load_direnv == DirenvSettings::ShellHook && !request.windows ==> next
                == LoadStateView::Finished(Ok(told))
            &&& request.load_direnv == DirenvSettings::Direct && !request.windows ==> next == (
            LoadStateView::RunDirenv { environment: told, directory })
            &&& request.load_direnv != DirenvSettings::Disabled && request.windows ==> {
                &&& next matches LoadStateView::Finished(Ok(environment))
                &&& told.contains_key("Path"@) ==> !environment.contains_key("Path"@)
                    && environment.contains_key("PATH"@) && environment["PATH"@] == told["Path"@]
                &&& !told.contains_key("Path"@) ==> environment == told
                &&& name != "Path"@ && name != "PATH"@ ==> environment.contains_key(name)
                    == told.contains_key(name)
                &&& name != "Path"@ && name != "PATH"@ && told.contains_key(name)
                    ==> environment[name] == told[name]
            }
        }),
{
    reveal_strlit("Path");
    reveal_strlit("PATH");
    assert("Path"@[1] != "PATH"@[1]);
}

/// What follows from what direnv asked for: its changes are made to the
/// environment, variable by variable. A direnv that failed changes nothing, and
/// the user is told.
pub proof fn law_direnv_changes_the_environment(
    request: LoadRequestView,
    environment: Map<Seq<char>, Seq<char>>,
    directory: Seq<ComponentView>,
    changes: Map<Seq<char>, Option<Seq<char>>>,
    name: Seq<char>,
)
    ensures
        next_state(
            request,
            LoadStateView::RunDirenv { environment, directory },
            LoadEventView::Direnv(None),
        ) == (
            LoadStateView::Finished(Ok(environment)),
            Some("Failed to load direnv environment"@),
        ),
        ({
            let (next, message) = next_state(
                request,
                LoadStateView::RunDirenv { environment, directory },
                LoadEventView::Direnv(Some(changes)),
            );
            &&& message.is_none()
            &&& next matches LoadStateView::Finished(Ok(result))
            &&& changes.contains_key(name) && changes[name].is_some() ==> result.contains_key(name)
                && Some(result[name]) == changes[name]
            &&& changes.contains_key(name) && changes[name].is_none() ==> !result.contains_key(name)
            &&& !changes.contains_key(name) ==> result.contains_key(name)
                == environment.contains_key(name)
            &&& !changes.contains_key(name) && environment.contains_key(name) ==> result[name]
                == environment[name]
        }),
{
}

/// An answer to something that was not asked changes nothing.
pub proof fn law_a_load_waits_for_its_answer(
    request: LoadRequestView,
    state: LoadStateView,
    event: LoadEventView,
)
    requires
        !(state is ReadMetadata && event is Metadata),
        !(state is CaptureShell && event is Captured),
        !(state is RunDirenv && event is Direnv),
    ensures
        next_state(request, state, event) == (state, None::<Seq<char>>),
{
}

/// What is handed to a load and what it hands back are taken as they are.
pub proof fn law_loads_are_taken_as_they_are(
    request: LoadRequest,
    state: LoadState,
    event: LoadEvent,
)
    ensures
        request@.abs_path == request.abs_path@,
        request@.shown_path == request.shown_path@,
        request@.load_direnv == request.load_direnv,
        request@.windows == request.windows,
        match state {
            LoadState::ReadMetadata => state@ is ReadMetadata,
            LoadState::CaptureShell { directory } => {
                &&& state@ matches LoadStateView::CaptureShell { directory: shown }
                &&& shown == directory@
            },
            LoadState::RunDirenv { environment, directory } => {
                &&& state@ matches LoadStateView::RunDirenv { environment: e, directory: d }
                &&& e == environment@ && d == directory@
            },
            LoadState::Finished(Ok(environment)) => state@ == LoadStateView::Finished(
                Ok(environment@),
            ),
            LoadState::Finished(Err(error)) => state@ == LoadStateView::Finished(Err(error)),
        },
        match event {
            LoadEvent::Metadata(is_dir) => event@ == LoadEventView::Metadata(is_dir),
            LoadEvent::Captured(None) => event@ == LoadEventView::Captured(None),
            LoadEvent::Captured(Some(told)) => event@ == LoadEventView::Captured(Some(told@)),
            LoadEvent::Direnv(Ok(changes)) => event@ == LoadEventView::Direnv(Some(changes@)),
            LoadEvent::Direnv(Err(_)) => event@ == LoadEventView::Direnv(None),
        },
{
}

} // verus!
