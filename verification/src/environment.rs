//! Environment variables, where they came from, and changes to them.

use crate::outside::{
    json_optional_strings, lossy_utf8, option_text, pairs_map, parse_optional_strings,
    read_lossily,
};
use crate::string_map::StringMap;
use vstd::prelude::*;
use vstd::utf8::{decode_utf8, valid_utf8};

verus! {

/// Environment variables with their values.
#[derive(Debug)]
pub struct Environment {
    variables: StringMap<String>,
}

impl View for Environment {
    type V = Map<Seq<char>, Seq<char>>;

    closed spec fn view(&self) -> Map<Seq<char>, Seq<char>> {
        self.variables@.map_values(|value: String| value@)
    }
}

impl Environment {
    /// No variable occurs twice.
    pub closed spec fn well_formed(self) -> bool {
        self.variables.well_formed()
    }

    /// The names of the variables, in the order in which they are walked.
    pub closed spec fn names(self) -> Seq<Seq<char>> {
        self.variables.keys()
    }

    /// An environment without variables.
    pub fn new() -> (environment: Self)
        ensures
            environment.well_formed(),
            environment@ == Map::<Seq<char>, Seq<char>>::empty(),
    {
        let environment = Environment { variables: StringMap::new() };
        assert(environment@ =~= Map::<Seq<char>, Seq<char>>::empty());
        environment
    }

    /// The number of variables.
    pub fn len(&self) -> (count: usize)
        requires
            self.well_formed(),
        ensures
            count == self@.len(),
            count == self.names().len(),
    {
        assert(self@.dom() =~= self.variables@.dom());
        self.variables.len()
    }

    /// The name and the value of the variable that the walk meets at a position.
    pub fn variable(&self, index: usize) -> (variable: (&String, &String))
        requires
            self.well_formed(),
            index < self.names().len(),
        ensures
            variable.0@ == self.names()[index as int],
            self@.contains_key(variable.0@),
            variable.1@ == self@[variable.0@],
    {
        self.variables.entry(index)
    }

    /// The value of a variable.
    pub fn get(&self, name: &String) -> (value: Option<&String>)
        requires
            self.well_formed(),
        ensures
            match value {
                Some(found) => self@.contains_key(name@) && found@ == self@[name@],
                None => !self@.contains_key(name@),
            },
    {
        self.variables.get(name)
    }

    /// Gives a variable a value.
    pub fn set(&mut self, name: String, value: String)
        requires
            old(self).well_formed(),
        ensures
            final(self).well_formed(),
            final(self)@ == old(self)@.insert(name@, value@),
    {
        let ghost before = self@;
        let ghost name_text = name@;
        let ghost value_text = value@;
        self.variables.insert(name, value);
        assert(self@ =~= before.insert(name_text, value_text));
    }

    /// Takes a variable out and hands back the value it had.
    pub fn unset(&mut self, name: &String) -> (value: Option<String>)
        requires
            old(self).well_formed(),
        ensures
            final(self).well_formed(),
            final(self)@ == old(self)@.remove(name@),
            match value {
                Some(found) => old(self)@.contains_key(name@) && found@ == old(self)@[name@],
                None => !old(self)@.contains_key(name@),
            },
    {
        let ghost before = self@;
        let value = self.variables.remove(name);
        assert(self@ =~= before.remove(name@));
        value
    }

    /// A copy of the environment.
    pub fn duplicate(&self) -> (copy: Self)
        requires
            self.well_formed(),
        ensures
            copy.well_formed(),
            copy@ == self@,
    {
        let mut copy = Environment::new();
        let count = self.len();
        let mut index: usize = 0;
        while index < count
            invariant
                self.well_formed(),
                copy.well_formed(),
                index <= count,
                count == self.names().len(),
                forall|name: Seq<char>| #[trigger]
                    copy@.contains_key(name) ==> self@.contains_key(name) && copy@[name]
                        == self@[name],
                forall|i: int| 0 <= i < index ==> copy@.contains_key(#[trigger] self.names()[i]),
            decreases count - index,
        {
            let (name, value) = self.variable(index);
            let ghost before = copy@;
            copy.set(name.clone(), value.clone());
            assert forall|other: Seq<char>| #[trigger] copy@.contains_key(other) implies self@.contains_key(other)
                && copy@[other] == self@[other] by {
                if other != name@ {
                    assert(before.contains_key(other));
                }
            }
            index = index + 1;
        }
        proof {
            self.variables.lemma_keys();
            assert forall|name: Seq<char>| self@.contains_key(name) implies copy@.contains_key(
                name,
            ) by {
                assert(self.names().contains(name));
                let at = self.names().index_of(name);
                assert(copy@.contains_key(self.names()[at]));
            }
            assert(copy@ =~= self@);
        }
        copy
    }
}

/// The environment that a list of names and values describes; a later pair
/// replaces an earlier one with the same name.
pub open spec fn listed_environment(pairs: Seq<(String, String)>) -> Map<Seq<char>, Seq<char>>
    decreases pairs.len(),
{
    if pairs.len() == 0 {
        Map::empty()
    } else {
        listed_environment(pairs.drop_last()).insert(pairs.last().0@, pairs.last().1@)
    }
}

impl Environment {
    /// The environment that a list of names and values describes.
    pub fn from_pairs(pairs: &Vec<(String, String)>) -> (environment: Self)
        ensures
            environment.well_formed(),
            environment@ == listed_environment(pairs@),
    {
        let mut environment = Environment::new();
        let mut index: usize = 0;
        assert(pairs@.take(0) =~= Seq::empty());
        while index < pairs.len()
            invariant
                index <= pairs.len(),
                environment.well_formed(),
                environment@ == listed_environment(pairs@.take(index as int)),
            decreases pairs.len() - index,
        {
            let pair = &pairs[index];
            environment.set(pair.0.clone(), pair.1.clone());
            index = index + 1;
            assert(pairs@.take(index as int).drop_last() =~= pairs@.take(index - 1));
        }
        assert(pairs@.take(pairs@.len() as int) =~= pairs@);
        environment
    }
}

/// The variable that says where an environment came from.
pub open spec fn origin_marker() -> Seq<char> {
    "ZED_ENVIRONMENT"@
}

/// Where an environment came from.
#[derive(Clone, Copy, Debug, PartialEq, Eq)]
pub enum EnvironmentOrigin {
    /// The command line that opened the project.
    Cli,
    /// A shell that was started in a directory of the project.
    WorktreeShell,
}

/// The value of the origin marker.
pub open spec fn origin_text(origin: EnvironmentOrigin) -> Seq<char> {
    match origin {
        EnvironmentOrigin::Cli => "cli"@,
        EnvironmentOrigin::WorktreeShell => "worktree-shell"@,
    }
}

/// An environment that is marked with its origin.
pub open spec fn marked(
    environment: Map<Seq<char>, Seq<char>>,
    origin: EnvironmentOrigin,
) -> Map<Seq<char>, Seq<char>> {
    environment.insert(origin_marker(), origin_text(origin))
}

impl EnvironmentOrigin {
    /// The value of the origin marker.
    pub fn text(self) -> (text: String)
        ensures
            text@ == origin_text(self),
    {
        match self {
            EnvironmentOrigin::Cli => "cli".to_owned(),
            EnvironmentOrigin::WorktreeShell => "worktree-shell".to_owned(),
        }
    }
}

/// Marks an environment with where it came from.
pub fn set_origin_marker(environment: &mut Environment, origin: EnvironmentOrigin)
    requires
        old(environment).well_formed(),
    ensures
        final(environment).well_formed(),
        final(environment)@ == marked(old(environment)@, origin),
{
    environment.set("ZED_ENVIRONMENT".to_owned(), origin.text());
}

/// The origin marker changes no other variable, and the two origins are told
/// apart by it.
pub proof fn law_origin_marker_tells_the_origin(
    environment: Map<Seq<char>, Seq<char>>,
    origin: EnvironmentOrigin,
    other: EnvironmentOrigin,
)
    ensures
        marked(environment, origin)[origin_marker()] == origin_text(origin),
        marked(environment, origin).remove(origin_marker()) == environment.remove(origin_marker()),
        marked(marked(environment, other), origin) == marked(environment, origin),
        origin_text(origin) == origin_text(other) ==> origin == other,
{
    reveal_strlit("cli");
    reveal_strlit("worktree-shell");
    assert(marked(environment, origin).remove(origin_marker()) =~= environment.remove(
        origin_marker(),
    ));
    assert(marked(marked(environment, other), origin) =~= marked(environment, origin));
    assert("cli"@.len() != "worktree-shell"@.len());
}

/// Changes to an environment: a value for a variable that is to be set, none
/// for one that is to be taken out.
#[derive(Debug)]
pub struct EnvironmentChanges {
    changes: StringMap<Option<String>>,
}

impl View for EnvironmentChanges {
    type V = Map<Seq<char>, Option<Seq<char>>>;

    closed spec fn view(&self) -> Map<Seq<char>, Option<Seq<char>>> {
        self.changes@.map_values(|value: Option<String>| option_text(value))
    }
}

/// The environment that a set of changes leads to.
pub open spec fn changed(
    environment: Map<Seq<char>, Seq<char>>,
    changes: Map<Seq<char>, Option<Seq<char>>>,
) -> Map<Seq<char>, Seq<char>> {
    Map::new(
        |name: Seq<char>|
            if changes.contains_key(name) {
                changes[name].is_some()
            } else {
                environment.contains_key(name)
            },
        |name: Seq<char>|
            if changes.contains_key(name) {
                changes[name].unwrap()
            } else {
                environment[name]
            },
    )
}

impl EnvironmentChanges {
    /// No variable occurs twice.
    pub closed spec fn well_formed(self) -> bool {
        self.changes.well_formed()
    }

    /// No changes.
    pub fn new() -> (changes: Self)
        ensures
            changes.well_formed(),
            changes@ == Map::<Seq<char>, Option<Seq<char>>>::empty(),
    {
        let changes = EnvironmentChanges { changes: StringMap::new() };
        assert(changes@ =~= Map::<Seq<char>, Option<Seq<char>>>::empty());
        changes
    }

    /// The changes that a list of names and optional values describes.
    pub fn from_pairs(pairs: &Vec<(String, Option<String>)>) -> (changes: Self)
        ensures
            changes.well_formed(),
            changes@ == pairs_map(pairs@),
    {
        let mut changes = EnvironmentChanges::new();
        let mut index: usize = 0;
        assert(pairs@.take(0) =~= Seq::empty());
        while index < pairs.len()
            invariant
                index <= pairs.len(),
                changes.well_formed(),
                changes@ == pairs_map(pairs@.take(index as int)),
            decreases pairs.len() - index,
        {
            let pair = &pairs[index];
            let ghost before = changes@;
            let value = match &pair.1 {
                Some(text) => Some(text.clone()),
                None => None,
            };
            changes.changes.insert(pair.0.clone(), value);
            assert(changes@ =~= before.insert(pair.0@, option_text(pair.1)));
            index = index + 1;
            assert(pairs@.take(index as int).drop_last() =~= pairs@.take(index - 1));
        }
        assert(pairs@.take(pairs@.len() as int) =~= pairs@);
        changes
    }

    /// Makes the changes to an environment.
    pub fn apply(&self, environment: &mut Environment)
        requires
            self.well_formed(),
            old(environment).well_formed(),
        ensures
            final(environment).well_formed(),
            final(environment)@ == changed(old(environment)@, self@),
    {
        let ghost before = environment@;
        let ghost keys = self.changes.keys();
        let count = self.changes.len();
        let mut index: usize = 0;
        while index < count
            invariant
                self.well_formed(),
                environment.well_formed(),
                index <= count,
                count == keys.len(),
                keys == self.changes.keys(),
                forall|name: Seq<char>| #[trigger]
                    environment@.contains_key(name) == (if keys.take(index as int).contains(name) {
                        self@[name].is_some()
                    } else {
                        before.contains_key(name)
                    }),
                forall|name: Seq<char>|
                    environment@.contains_key(name) ==> #[trigger] environment@[name] == (
                    if keys.take(index as int).contains(name) {
                        self@[name].unwrap()
                    } else {
                        before[name]
                    }),
            decreases count - index,
        {
            let (name, value) = self.changes.entry(index);
            let ghost current = environment@;
            match value {
                Some(text) => environment.set(name.clone(), text.clone()),
                None => {
                    environment.unset(name);
                },
            }
            proof {
                assert(self@[name@] == option_text(*value));
                let taken = keys.take(index as int);
                let next = keys.take(index + 1);
                assert(next =~= taken.push(name@));
                assert forall|other: Seq<char>| next.contains(other) <==> (taken.contains(other)
                    || other == name@) by {
                    if taken.contains(other) {
                        let at = taken.index_of(other);
                        assert(next[at] == other);
                    }
                    assert(next[index as int] == name@);
                }
            }
            index = index + 1;
        }
        proof {
            self.changes.lemma_keys();
            assert(keys.take(count as int) =~= keys);
            assert(environment@ =~= changed(before, self@));
        }
    }
}

/// A change that is made twice is made once.
pub proof fn law_changes_are_idempotent(
    environment: Map<Seq<char>, Seq<char>>,
    changes: Map<Seq<char>, Option<Seq<char>>>,
)
    ensures
        changed(changed(environment, changes), changes) == changed(environment, changes),
        changed(environment, Map::empty()) == environment,
{
    assert(changed(changed(environment, changes), changes) =~= changed(environment, changes));
    assert(changed(environment, Map::empty()) =~= environment);
}

/// How direnv may be used.
#[derive(Clone, Copy, Debug, PartialEq, Eq)]
pub enum DirenvSettings {
    /// The shell runs its own hook.
    ShellHook,
    /// direnv is asked directly.
    Direct,
    /// No environment is loaded.
    Disabled,
}

/// How direnv is to be run.
#[derive(Debug)]
pub struct DirenvCommand {
    pub args: Vec<String>,
    /// The variables that it is given, besides those of this process.
    pub environment: Environment,
}

/// How direnv is to be asked for its changes to an environment: with that
/// environment, and for a terminal that shows plain text.
pub fn direnv_command(environment: &Environment) -> (command: DirenvCommand)
    requires
        environment.well_formed(),
    ensures
        command.args@.len() == 2,
        command.args@[0]@ == "export"@,
        command.args@[1]@ == "json"@,
        command.environment.well_formed(),
        command.environment@ == environment@.insert("TERM"@, "dumb"@),
{
    let mut args: Vec<String> = Vec::new();
    args.push("export".to_owned());
    args.push("json".to_owned());
    let mut environment = environment.duplicate();
    environment.set("TERM".to_owned(), "dumb".to_owned());
    DirenvCommand { args, environment }
}

/// What came of an attempt to run direnv.
#[derive(Debug)]
pub enum DirenvRun {
    /// There is no direnv on this machine.
    NotInstalled,
    /// It could not be run.
    NotStarted,
    /// It ran to its end.
    Finished {
        success: bool,
        /// The exit status, in words.
        status: String,
        stdout: Vec<u8>,
        stderr: Vec<u8>,
    },
}

/// Why direnv's changes could not be had.
#[derive(Debug, PartialEq, Eq)]
pub enum DirenvError {
    /// direnv could not be run.
    Run,
    /// direnv reported a failure.
    Failed { message: String },
    /// What it wrote is not what it should write.
    Parse,
}

/// The message for a run of direnv that failed.
pub open spec fn direnv_failure_message(status: Seq<char>, stderr: Seq<char>) -> Seq<char> {
    "Loading direnv environment failed ("@ + status + "), stderr: "@ + stderr
}

/// What a run of direnv that ended says, given the JSON object in its output.
pub open spec fn is_direnv_reply(
    success: bool,
    status: Seq<char>,
    stdout: Seq<char>,
    stderr: Seq<char>,
    parsed: Option<Map<Seq<char>, Option<Seq<char>>>>,
    reply: Result<EnvironmentChanges, DirenvError>,
) -> bool {
    if !success {
        reply matches Err(DirenvError::Failed { message }) && message@ == direnv_failure_message(
            status,
            stderr,
        )
    } else if stdout.len() == 0 {
        reply matches Ok(changes) && changes.well_formed() && changes@ == Map::<
            Seq<char>,
            Option<Seq<char>>,
        >::empty()
    } else {
        match parsed {
            Some(map) => reply matches Ok(changes) && changes.well_formed() && changes@ == map,
            None => reply matches Err(DirenvError::Parse),
        }
    }
}

/// Reads what direnv wrote, once it is known what JSON object is in it: the
/// pairs of names and optional values, or none where there is no such object.
pub fn read_direnv_reply(
    success: bool,
    status: &String,
    stdout: &String,
    stderr: &String,
    parsed: Option<Vec<(String, Option<String>)>>,
) -> (reply: Result<EnvironmentChanges, DirenvError>)
    ensures
        is_direnv_reply(
            success,
            status@,
            stdout@,
            stderr@,
            match parsed {
                Some(pairs) => Some(pairs_map(pairs@)),
                None => None,
            },
            reply,
        ),
{
    if !success {
        let message = "Loading direnv environment failed (".to_owned().concat(
            status.as_str(),
        ).concat("), stderr: ").concat(stderr.as_str());
        return Err(DirenvError::Failed { message });
    }
    // direnv writes nothing when it has no changes to make.
    if stdout.as_str().is_empty() {
        return Ok(EnvironmentChanges::new());
    }
    match parsed {
        Some(pairs) => Ok(EnvironmentChanges::from_pairs(&pairs)),
        None => Err(DirenvError::Parse),
    }
}

/// The changes that a run of direnv asks for. A machine without direnv, and a
/// direnv that writes nothing, ask for none.
pub fn load_direnv_environment(run: &DirenvRun) -> (reply: Result<EnvironmentChanges, DirenvError>)
    ensures
        match *run {
            DirenvRun::NotInstalled => reply matches Ok(changes) && changes.well_formed()
                && changes@ == Map::<Seq<char>, Option<Seq<char>>>::empty(),
            DirenvRun::NotStarted => reply matches Err(DirenvError::Run),
            DirenvRun::Finished { success, status, stdout, stderr } => {
                &&& is_direnv_reply(
                    success,
                    status@,
                    lossy_utf8(stdout@),
                    lossy_utf8(stderr@),
                    json_optional_strings(lossy_utf8(stdout@)),
                    reply,
                )
                &&& valid_utf8(stdout@) ==> lossy_utf8(stdout@) == decode_utf8(stdout@)
                &&& valid_utf8(stderr@) ==> lossy_utf8(stderr@) == decode_utf8(stderr@)
            },
        },
{
    match run {
        DirenvRun::NotInstalled => Ok(EnvironmentChanges::new()),
        DirenvRun::NotStarted => Err(DirenvError::Run),
        DirenvRun::Finished { success, status, stdout, stderr } => {
            let stdout_text = read_lossily(stdout);
            let stderr_text = read_lossily(stderr);
            let parsed = if *success && !stdout_text.as_str().is_empty() {
                match parse_optional_strings(stdout_text.as_str()) {
                    Ok(pairs) => Some(pairs),
                    Err(_) => None,
                }
            } else {
                None
            };
            read_direnv_reply(*success, status, &stdout_text, &stderr_text, parsed)
        },
    }
}

/// A variable is in the environment of a list of pairs when and only when a pair
/// names it, and the last pair that does gives its value.
pub proof fn law_the_last_pair_of_a_variable_counts(pairs: Seq<(String, String)>, index: int)
    requires
        0 <= index < pairs.len(),
        forall|later: int| index < later < pairs.len() ==> (#[trigger] pairs[later]).0@
            != pairs[index].0@,
    ensures
        listed_environment(pairs).contains_key(pairs[index].0@),
        listed_environment(pairs)[pairs[index].0@] == pairs[index].1@,
        forall|name: Seq<char>| #[trigger]
            listed_environment(pairs).contains_key(name) ==> exists|i: int|
                0 <= i < pairs.len() && (#[trigger] pairs[i]).0@ == name,
    decreases pairs.len(),
{
    lemma_variables_come_from_pairs(pairs);
    if index < pairs.len() - 1 {
        let rest = pairs.drop_last();
        assert forall|later: int| index < later < rest.len() implies (#[trigger] rest[later]).0@
            != rest[index].0@ by {
            assert(pairs[later].0@ != pairs[index].0@);
        }
        law_the_last_pair_of_a_variable_counts(rest, index);
        assert(pairs[pairs.len() - 1].0@ != pairs[index].0@);
    }
}

proof fn lemma_variables_come_from_pairs(pairs: Seq<(String, String)>)
    ensures
        forall|name: Seq<char>| #[trigger]
            listed_environment(pairs).contains_key(name) ==> exists|i: int|
                0 <= i < pairs.len() && (#[trigger] pairs[i]).0@ == name,
    decreases pairs.len(),
{
    if pairs.len() > 0 {
        let rest = pairs.drop_last();
        lemma_variables_come_from_pairs(rest);
        assert forall|name: Seq<char>| #[trigger]
            listed_environment(pairs).contains_key(name) implies exists|i: int|
            0 <= i < pairs.len() && (#[trigger] pairs[i]).0@ == name by {
            if name == pairs.last().0@ {
                assert(pairs[pairs.len() - 1].0@ == name);
            } else {
                assert(listed_environment(rest).contains_key(name));
                let i = choose|i: int| 0 <= i < rest.len() && (#[trigger] rest[i]).0@ == name;
                assert(pairs[i].0@ == name);
            }
        }
    }
}

/// A marked environment has one variable that says where it came from, and all
/// other variables as they were.
pub proof fn law_marked_environments_keep_their_variables(
    environment: Map<Seq<char>, Seq<char>>,
    origin: EnvironmentOrigin,
    name: Seq<char>,
)
    ensures
        marked(environment, EnvironmentOrigin::Cli).contains_key("ZED_ENVIRONMENT"@),
        marked(environment, EnvironmentOrigin::Cli)["ZED_ENVIRONMENT"@] == "cli"@,
        marked(environment, EnvironmentOrigin::WorktreeShell).contains_key("ZED_ENVIRONMENT"@),
        marked(environment, EnvironmentOrigin::WorktreeShell)["ZED_ENVIRONMENT"@]
            == "worktree-shell"@,
        name != "ZED_ENVIRONMENT"@ ==> marked(environment, origin).contains_key(name)
            == environment.contains_key(name),
        name != "ZED_ENVIRONMENT"@ && environment.contains_key(name) ==> marked(
            environment,
            origin,
        )[name] == environment[name],
{
}

/// Changes do to each variable what they say of it: one with a value gets that
/// value, one without is taken out, and one of which they say nothing stays.
pub proof fn law_changes_do_what_they_say(
    environment: Map<Seq<char>, Seq<char>>,
    changes: Map<Seq<char>, Option<Seq<char>>>,
    name: Seq<char>,
)
    ensures
        changes.contains_key(name) && changes[name].is_some() ==> changed(
            environment,
            changes,
        ).contains_key(name) && Some(changed(environment, changes)[name]) == changes[name],
        changes.contains_key(name) && changes[name].is_none() ==> !changed(
            environment,
            changes,
        ).contains_key(name),
        !changes.contains_key(name) ==> changed(environment, changes).contains_key(name)
            == environment.contains_key(name),
        !changes.contains_key(name) && environment.contains_key(name) ==> changed(
            environment,
            changes,
        )[name] == environment[name],
{
}

/// What a run of direnv says is told in full: a run that failed is told with its
/// status and what it wrote about it; one that succeeded asks for nothing where
/// it wrote nothing, and else for exactly the object that it wrote, if it wrote
/// one.
pub proof fn law_direnv_is_taken_at_its_word(
    success: bool,
    status: Seq<char>,
    stdout: Seq<char>,
    stderr: Seq<char>,
    parsed: Option<Map<Seq<char>, Option<Seq<char>>>>,
    reply: Result<EnvironmentChanges, DirenvError>,
)
    requires
        is_direnv_reply(success, status, stdout, stderr, parsed, reply),
    ensures
        reply.is_ok() <==> success && (stdout.len() == 0 || parsed.is_some()),
        !success ==> (reply matches Err(DirenvError::Failed { message }) && message@
            == "Loading direnv environment failed ("@ + status + "), stderr: "@ + stderr),
        success && stdout.len() == 0 ==> (reply matches Ok(changes) && forall|name: Seq<char>|
            !#[trigger] changes@.contains_key(name)),
        success && stdout.len() > 0 && parsed.is_some() ==> (reply matches Ok(changes)
            && Some(changes@) == parsed),
        success && stdout.len() > 0 && parsed.is_none() ==> reply matches Err(DirenvError::Parse),
        reply matches Ok(changes) ==> changes.well_formed(),
{
}

} // verus!
