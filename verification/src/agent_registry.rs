//! The registry of agents: every agent that runs in a terminal, as its state
//! file tells.

use crate::path::{
    has_json_extension, law_json_names_end_in_json, path_file_name, ComponentView, DirPath,
};
use crate::string_map::StringMap;
use vstd::prelude::*;
use vstd::set_lib::*;
use vstd::utf8::encode_utf8;

verus! {

/// What an agent is doing.
#[derive(Clone, Copy, Debug, PartialEq, Eq, Structural)]
pub enum AgentStatus {
    Working,
    /// It waits for the user.
    Blocked,
    Idle,
}

/// What an agent's state file says.
#[derive(Debug, PartialEq, Eq)]
pub struct AgentState {
    /// The terminal that the agent runs in.
    pub term_id: String,
    pub status: AgentStatus,
    /// The agent's process.
    pub pid: Option<i32>,
    /// The directory that it works in.
    pub cwd: Option<String>,
    /// When it took on its status, in seconds of the epoch.
    pub ts: Option<u64>,
}

impl Clone for AgentState {
    fn clone(&self) -> (copy: Self)
        ensures
            copy == *self,
    {
        AgentState {
            term_id: self.term_id.clone(),
            status: self.status,
            pid: self.pid,
            cwd: match &self.cwd {
                Some(cwd) => Some(cwd.clone()),
                None => None,
            },
            ts: self.ts,
        }
    }
}

/// A file that a look into the state directory met.
#[derive(Debug)]
pub struct StateFile {
    pub path: DirPath,
    /// What the file says, if it could be read and says what a state file says.
    pub state: Option<AgentState>,
    /// Whether the process that the file names is alive.
    pub process_alive: bool,
}

/// The agents, each under its terminal.
pub type Agents = Map<Seq<char>, AgentState>;

/// The agents that run, each under the terminal that it runs in.
#[derive(Debug)]
pub struct AgentRegistry {
    agents: StringMap<AgentState>,
}

impl View for AgentRegistry {
    type V = Agents;

    closed spec fn view(&self) -> Agents {
        self.agents@
    }
}

/// The directory of the state files, below the user's home.
pub open spec fn state_directory(home: Seq<ComponentView>) -> Seq<ComponentView> {
    home.push(ComponentView::Normal(encode_utf8(".local"@))).push(
        ComponentView::Normal(encode_utf8("state"@)),
    ).push(ComponentView::Normal(encode_utf8("spacezed"@))).push(
        ComponentView::Normal(encode_utf8("agents"@)),
    )
}

/// The directory of the state files, for a user who has a home.
pub fn state_dir(home: Option<DirPath>) -> (directory: Option<DirPath>)
    ensures
        directory.is_some() == home.is_some(),
        directory matches Some(path) ==> path@ == state_directory(home.unwrap()@),
{
    match home {
        Some(home) => {
            let mut directory = home;
            directory.push_name(".local");
            directory.push_name("state");
            directory.push_name("spacezed");
            directory.push_name("agents");
            Some(directory)
        },
        None => None,
    }
}

/// Whether a file is one that an agent writes its state to.
pub open spec fn is_state_path(path: Seq<ComponentView>) -> bool {
    path_file_name(path) matches Some(name) && has_json_extension(name)
}

/// Whether a file is the state of an agent whose process is gone.
pub open spec fn is_ghost(file: StateFile) -> bool {
    &&& is_state_path(file.path@)
    &&& file.state matches Some(state)
    &&& state.pid.is_some()
    &&& !file.process_alive
}

/// Whether a file is the state of an agent that runs, as far as it tells.
pub open spec fn is_live(file: StateFile) -> bool {
    &&& is_state_path(file.path@)
    &&& file.state matches Some(state)
    &&& state.pid.is_none() || file.process_alive
}

/// The agents that the files tell of; of two files for one terminal the later
/// one counts.
pub open spec fn scanned(files: Seq<StateFile>) -> Agents
    decreases files.len(),
{
    if files.len() == 0 {
        Map::empty()
    } else if is_live(files.last()) {
        let state = files.last().state.unwrap();
        scanned(files.drop_last()).insert(state.term_id@, state)
    } else {
        scanned(files.drop_last())
    }
}

/// The paths of the files that agents left behind when they died.
pub open spec fn ghost_paths(files: Seq<StateFile>) -> Seq<Seq<ComponentView>>
    decreases files.len(),
{
    if files.len() == 0 {
        Seq::empty()
    } else if is_ghost(files.last()) {
        ghost_paths(files.drop_last()).push(files.last().path@)
    } else {
        ghost_paths(files.drop_last())
    }
}

/// Whether there is something new in a scan: an agent came or went, or has
/// another status.
pub open spec fn is_news(known: Agents, scan: Agents) -> bool {
    ||| scan.len() != known.len()
    ||| exists|term_id: Seq<char>| #[trigger]
        scan.contains_key(term_id) && !(known.contains_key(term_id) && known[term_id].status
            == scan[term_id].status)
}

/// The agents that are known after a scan.
pub open spec fn known_after(known: Agents, scan: Agents) -> Agents {
    if is_news(known, scan) {
        scan
    } else {
        known
    }
}

/// The outcome of a look into the state directory.
#[derive(Debug)]
pub struct Rescan {
    /// The files to be deleted.
    pub removals: Vec<DirPath>,
    /// Whether those who watch the registry are to be told.
    pub changed: bool,
}

/// The paths in a list.
pub open spec fn path_list(paths: Seq<DirPath>) -> Seq<Seq<ComponentView>> {
    paths.map_values(|path: DirPath| path@)
}

/// The terminals whose agents have a status.
pub open spec fn terminals_with_status(agents: Agents, status: AgentStatus) -> Set<Seq<char>> {
    agents.dom().filter(|term_id: Seq<char>| agents[term_id].status == status)
}

/// How much a status asks for the user, the most urgent first: an agent that
/// is blocked, one that is idle, one that works.
pub open spec fn status_rank(status: AgentStatus) -> int {
    match status {
        AgentStatus::Blocked => 0,
        AgentStatus::Idle => 1,
        AgentStatus::Working => 2,
    }
}

/// Whether one has waited longer than the other. One of which it is not known
/// since when it waits comes last.
pub open spec fn waits_longer(first: Option<u64>, second: Option<u64>) -> bool {
    match (first, second) {
        (Some(earlier), Some(later)) => earlier < later,
        (Some(_), None) => true,
        _ => false,
    }
}

/// Whether one agent is more urgent than another.
pub open spec fn more_urgent(first: AgentState, second: AgentState) -> bool {
    ||| status_rank(first.status) < status_rank(second.status)
    ||| status_rank(first.status) == status_rank(second.status) && waits_longer(
        first.ts,
        second.ts,
    )
}

/// Whether an agent is the one most deserving of attention: the one that has
/// been blocked longest or, where none is blocked, idle longest. An agent that
/// works deserves none.
pub open spec fn is_attention_target(agents: Agents, target: Option<AgentState>) -> bool {
    match target {
        Some(state) => {
            &&& agents.contains_key(state.term_id@)
            &&& agents[state.term_id@] == state
            &&& state.status != AgentStatus::Working
            &&& forall|term_id: Seq<char>| #[trigger]
                agents.contains_key(term_id) ==> !more_urgent(agents[term_id], state)
        },
        None => forall|term_id: Seq<char>| #[trigger]
            agents.contains_key(term_id) ==> agents[term_id].status == AgentStatus::Working,
    }
}

/// Whether no agent of a list stands before a more urgent one.
pub open spec fn is_by_urgency(list: Seq<AgentState>) -> bool {
    forall|i: int, j: int|
        0 <= i < j < list.len() ==> !more_urgent(#[trigger] list[j], #[trigger] list[i])
}

/// Whether a list holds every agent once, with none before a more urgent one.
pub open spec fn is_urgency_order(agents: Agents, list: Seq<AgentState>) -> bool {
    &&& forall|i: int|
        0 <= i < list.len() ==> agents.contains_key((#[trigger] list[i]).term_id@)
            && agents[list[i].term_id@] == list[i]
    &&& forall|i: int, j: int|
        0 <= i < j < list.len() ==> (#[trigger] list[i]).term_id@ != (#[trigger] list[j]).term_id@
    &&& forall|term_id: Seq<char>| #[trigger]
        agents.contains_key(term_id) ==> exists|i: int|
            0 <= i < list.len() && (#[trigger] list[i]).term_id@ == term_id
    &&& is_by_urgency(list)
}

fn rank(status: AgentStatus) -> (rank: u8)
    ensures
        rank == status_rank(status),
{
    match status {
        AgentStatus::Blocked => 0,
        AgentStatus::Idle => 1,
        AgentStatus::Working => 2,
    }
}

impl AgentState {
    /// Whether this agent is more urgent than the other.
    pub fn is_more_urgent(&self, other: &AgentState) -> (more: bool)
        ensures
            more == more_urgent(*self, *other),
    {
        let first = rank(self.status);
        let second = rank(other.status);
        if first != second {
            return first < second;
        }
        match (self.ts, other.ts) {
            (Some(earlier), Some(later)) => earlier < later,
            (Some(_), None) => true,
            _ => false,
        }
    }
}

impl StateFile {
    fn is_live(&self) -> (live: bool)
        ensures
            live == is_live(*self),
    {
        self.path.is_json_file() && match &self.state {
            Some(state) => state.pid.is_none() || self.process_alive,
            None => false,
        }
    }

    fn is_ghost(&self) -> (ghost_file: bool)
        ensures
            ghost_file == is_ghost(*self),
    {
        self.path.is_json_file() && match &self.state {
            Some(state) => state.pid.is_some() && !self.process_alive,
            None => false,
        }
    }
}

/// The agents that the files tell of.
fn scan(files: &Vec<StateFile>) -> (agents: StringMap<AgentState>)
    ensures
        agents.well_formed(),
        agents@ == scanned(files@),
{
    let mut agents: StringMap<AgentState> = StringMap::new();
    let mut index: usize = 0;
    assert(files@.take(0) =~= Seq::empty());
    while index < files.len()
        invariant
            index <= files.len(),
            agents.well_formed(),
            agents@ == scanned(files@.take(index as int)),
        decreases files.len() - index,
    {
        let file = &files[index];
        assert(files@.take(index + 1).drop_last() =~= files@.take(index as int));
        assert(files@.take(index + 1).last() == files@[index as int]);
        if file.is_live() {
            if let Some(state) = &file.state {
                agents.insert(state.term_id.clone(), state.clone());
            }
        }
        index = index + 1;
    }
    assert(files@.take(files@.len() as int) =~= files@);
    agents
}

/// The files that are to be deleted.
fn removals(files: &Vec<StateFile>) -> (paths: Vec<DirPath>)
    ensures
        path_list(paths@) == ghost_paths(files@),
{
    let mut paths: Vec<DirPath> = Vec::new();
    let mut index: usize = 0;
    assert(files@.take(0) =~= Seq::empty());
    assert(path_list(paths@) =~= Seq::empty());
    while index < files.len()
        invariant
            index <= files.len(),
            path_list(paths@) == ghost_paths(files@.take(index as int)),
        decreases files.len() - index,
    {
        let file = &files[index];
        assert(files@.take(index + 1).drop_last() =~= files@.take(index as int));
        assert(files@.take(index + 1).last() == files@[index as int]);
        if file.is_ghost() {
            let ghost before = path_list(paths@);
            paths.push(file.path.clone());
            assert(path_list(paths@) =~= before.push(file.path@));
        }
        index = index + 1;
    }
    assert(files@.take(files@.len() as int) =~= files@);
    paths
}

proof fn lemma_scanned_agents_know_their_terminal(files: Seq<StateFile>)
    ensures
        forall|term_id: Seq<char>| #[trigger]
            scanned(files).contains_key(term_id) ==> scanned(files)[term_id].term_id@ == term_id,
        scanned(files).dom().finite(),
    decreases files.len(),
{
    if files.len() > 0 {
        lemma_scanned_agents_know_their_terminal(files.drop_last());
    }
}

impl AgentRegistry {
    /// Every agent is kept once, under the terminal that it names.
    pub closed spec fn well_formed(self) -> bool {
        &&& self.agents.well_formed()
        &&& forall|term_id: Seq<char>| #[trigger]
            self@.contains_key(term_id) ==> self@[term_id].term_id@ == term_id
    }

    /// A registry holds a finite number of agents.
    pub proof fn lemma_finite(self)
        requires
            self.well_formed(),
        ensures
            self@.dom().finite(),
    {
        self.agents.lemma_keys();
    }

    /// Every agent stands under the terminal that it names.
    pub proof fn lemma_keyed(self)
        requires
            self.well_formed(),
        ensures
            forall|term_id: Seq<char>| #[trigger]
                self@.contains_key(term_id) ==> self@[term_id].term_id@ == term_id,
    {
    }

    /// A registry that knows of no agent yet.
    pub fn new() -> (registry: Self)
        ensures
            registry.well_formed(),
            registry@ == Map::<Seq<char>, AgentState>::empty(),
    {
        AgentRegistry { agents: StringMap::new() }
    }

    /// Takes in what a look into the state directory met. An agent whose
    /// process is gone is left out, and its file is to be deleted: it would
    /// haunt the registry otherwise. The registry, and what it knows of each
    /// agent, stays as it is where no agent came, went or changed its status,
    /// and where there was no directory to look into, for want of a home. A
    /// directory that cannot be read holds no files.
    pub fn rescan(&mut self, files: Option<&Vec<StateFile>>) -> (outcome: Rescan)
        requires
            old(self).well_formed(),
        ensures
            final(self).well_formed(),
            match files {
                Some(files) => {
                    &&& outcome.changed == is_news(old(self)@, scanned(files@))
                    &&& final(self)@ == known_after(old(self)@, scanned(files@))
                    &&& path_list(outcome.removals@) == ghost_paths(files@)
                },
                None => {
                    &&& !outcome.changed
                    &&& final(self)@ == old(self)@
                    &&& outcome.removals@.len() == 0
                },
            },
    {
        let files = match files {
            Some(files) => files,
            None => return Rescan { removals: Vec::new(), changed: false },
        };
        let agents = scan(files);
        let removals = removals(files);
        let count = agents.len();
        let mut changed = count != self.agents.len();
        let mut index: usize = 0;
        while index < count
            invariant
                self.well_formed(),
                agents.well_formed(),
                agents@ == scanned(files@),
                index <= count,
                count == agents.keys().len(),
                count == agents@.len(),
                changed ==> is_news(self@, agents@),
                !changed ==> {
                    &&& count == self@.len()
                    &&& forall|i: int|
                        0 <= i < index ==> self@.contains_key(#[trigger] agents.keys()[i])
                            && self@[agents.keys()[i]].status == agents@[agents.keys()[i]].status
                },
            decreases count - index,
        {
            let (term_id, state) = agents.entry(index);
            let same = match self.agents.get(term_id) {
                Some(existing) => existing.status == state.status,
                None => false,
            };
            if !same {
                assert(agents@.contains_key(term_id@));
                changed = true;
            }
            index = index + 1;
        }
        proof {
            agents.lemma_keys();
            if !changed {
                assert forall|term_id: Seq<char>| #[trigger]
                    agents@.contains_key(term_id) implies self@.contains_key(term_id)
                    && self@[term_id].status == agents@[term_id].status by {
                    assert(agents.keys().contains(term_id));
                    let at = agents.keys().index_of(term_id);
                    assert(self@.contains_key(agents.keys()[at]));
                }
            }
            lemma_scanned_agents_know_their_terminal(files@);
        }
        if changed {
            self.agents = agents;
        }
        Rescan { removals, changed }
    }

    /// The number of agents that have a status.
    pub fn count_with_status(&self, status: AgentStatus) -> (count: usize)
        requires
            self.well_formed(),
        ensures
            count == terminals_with_status(self@, status).len(),
            count <= self@.len(),
    {
        let total = self.agents.len();
        let ghost keys = self.agents.keys();
        let ghost mut found: Set<Seq<char>> = Set::empty();
        let mut count: usize = 0;
        let mut index: usize = 0;
        while index < total
            invariant
                self.well_formed(),
                index <= total,
                total == keys.len(),
                keys == self.agents.keys(),
                keys.no_duplicates(),
                count <= index,
                found.finite(),
                count == found.len(),
                forall|term_id: Seq<char>| #[trigger]
                    found.contains(term_id) <==> keys.take(index as int).contains(term_id)
                        && self@[term_id].status == status,
            decreases total - index,
        {
            let (term_id, state) = self.agents.entry(index);
            proof {
                let taken = keys.take(index as int);
                let next = keys.take(index + 1);
                assert(next =~= taken.push(term_id@));
                assert(next[index as int] == term_id@);
                assert forall|other: Seq<char>| next.contains(other) <==> (taken.contains(other)
                    || other == term_id@) by {
                    if taken.contains(other) {
                        let at = taken.index_of(other);
                        assert(next[at] == other);
                    }
                }
                assert(!taken.contains(term_id@)) by {
                    if taken.contains(term_id@) {
                        let at = taken.index_of(term_id@);
                        assert(keys[at] == keys[index as int]);
                    }
                }
                if state.status == status {
                    found = found.insert(term_id@);
                }
            }
            if state.status == status {
                count = count + 1;
            }
            index = index + 1;
        }
        proof {
            self.agents.lemma_keys();
            assert(keys.take(total as int) =~= keys);
            assert(found =~= terminals_with_status(self@, status));
        }
        count
    }

    /// The agent most deserving of attention: the longest blocked, else the
    /// longest idle.
    pub fn attention_target(&self) -> (target: Option<&AgentState>)
        requires
            self.well_formed(),
        ensures
            is_attention_target(
                self@,
                match target {
                    Some(state) => Some(*state),
                    None => None,
                },
            ),
    {
        let total = self.agents.len();
        let ghost keys = self.agents.keys();
        let mut target: Option<&AgentState> = None;
        let mut index: usize = 0;
        while index < total
            invariant
                self.well_formed(),
                index <= total,
                total == keys.len(),
                keys == self.agents.keys(),
                match target {
                    Some(state) => {
                        &&& self@.contains_key(state.term_id@)
                        &&& self@[state.term_id@] == *state
                        &&& state.status != AgentStatus::Working
                        &&& forall|i: int|
                            0 <= i < index ==> !more_urgent(self@[#[trigger] keys[i]], *state)
                    },
                    None => forall|i: int|
                        0 <= i < index ==> self@[#[trigger] keys[i]].status
                            == AgentStatus::Working,
                },
            decreases total - index,
        {
            let (_, state) = self.agents.entry(index);
            assert(self@[keys[index as int]] == *state);
            let better = match target {
                Some(best) => state.is_more_urgent(best),
                None => true,
            };
            if state.status != AgentStatus::Working && better {
                target = Some(state);
            }
            index = index + 1;
        }
        proof {
            self.agents.lemma_keys();
            assert forall|term_id: Seq<char>| #[trigger]
                self@.contains_key(term_id) implies keys.contains(term_id) by {}
            assert forall|term_id: Seq<char>| #[trigger] self@.contains_key(term_id) implies (
            match target {
                Some(state) => !more_urgent(self@[term_id], *state),
                None => self@[term_id].status == AgentStatus::Working,
            }) by {
                let at = keys.index_of(term_id);
                assert(keys[at] == term_id);
            }
        }
        target
    }

    /// All agents, the most urgent first.
    pub fn agents_by_urgency(&self) -> (list: Vec<AgentState>)
        requires
            self.well_formed(),
        ensures
            is_urgency_order(self@, list@),
            list@.len() == self@.len(),
    {
        let total = self.agents.len();
        let ghost keys = self.agents.keys();
        let mut list: Vec<AgentState> = Vec::new();
        let mut index: usize = 0;
        while index < total
            invariant
                self.well_formed(),
                index <= total,
                total == keys.len(),
                keys == self.agents.keys(),
                keys.no_duplicates(),
                list@.len() == index,
                lists_terminals(self@, list@, keys.take(index as int)),
                is_by_urgency(list@),
            decreases total - index,
        {
            let (term_id, state) = self.agents.entry(index);
            let place = place_by_urgency(&list, state);
            proof {
                assert(!keys.take(index as int).contains(term_id@)) by {
                    if keys.take(index as int).contains(term_id@) {
                        let at = keys.take(index as int).index_of(term_id@);
                        assert(keys[at] == keys[index as int]);
                    }
                }
                assert(keys.take(index + 1) =~= keys.take(index as int).push(term_id@));
                lemma_insert_keeps_terminals(
                    self@,
                    list@,
                    keys.take(index as int),
                    place as int,
                    *state,
                );
                lemma_insert_keeps_urgency(list@, place as int, *state);
            }
            list.insert(place, state.clone());
            index = index + 1;
        }
        proof {
            self.agents.lemma_keys();
            assert(keys.take(total as int) =~= keys);
            assert forall|term_id: Seq<char>| #[trigger] self@.contains_key(term_id) implies exists|
                i: int,
            |
                0 <= i < list@.len() && (#[trigger] list@[i]).term_id@ == term_id by {
                assert(keys.contains(term_id));
            }
        }
        list
    }
}

/// Whether a list holds the agents of these terminals, each once.
spec fn lists_terminals(agents: Agents, list: Seq<AgentState>, terminals: Seq<Seq<char>>) -> bool {
    &&& forall|i: int|
        0 <= i < list.len() ==> agents.contains_key((#[trigger] list[i]).term_id@)
            && agents[list[i].term_id@] == list[i] && terminals.contains(list[i].term_id@)
    &&& forall|i: int, j: int|
        0 <= i < j < list.len() ==> (#[trigger] list[i]).term_id@ != (#[trigger] list[j]).term_id@
    &&& forall|term_id: Seq<char>| #[trigger]
        terminals.contains(term_id) ==> exists|i: int|
            0 <= i < list.len() && (#[trigger] list[i]).term_id@ == term_id
}

/// Finds the place of an agent in a list by urgency: behind all that are as
/// urgent.
fn place_by_urgency(list: &Vec<AgentState>, state: &AgentState) -> (place: usize)
    requires
        is_by_urgency(list@),
    ensures
        place <= list@.len(),
        forall|i: int| 0 <= i < place ==> !more_urgent(*state, #[trigger] list@[i]),
        forall|i: int| place <= i < list@.len() ==> more_urgent(*state, #[trigger] list@[i]),
{
    let mut place: usize = list.len();
    while place > 0 && state.is_more_urgent(&list[place - 1])
        invariant
            place <= list@.len(),
            forall|i: int| place <= i < list@.len() ==> more_urgent(*state, #[trigger] list@[i]),
        decreases place,
    {
        place = place - 1;
    }
    assert forall|i: int| 0 <= i < place implies !more_urgent(*state, #[trigger] list@[i]) by {
        assert(!more_urgent(*state, list@[place - 1]));
        if i < place - 1 {
            assert(!more_urgent(list@[place - 1], list@[i]));
        }
    }
    place
}

proof fn lemma_insert_keeps_urgency(list: Seq<AgentState>, at: int, state: AgentState)
    requires
        0 <= at <= list.len(),
        is_by_urgency(list),
        forall|i: int| 0 <= i < at ==> !more_urgent(state, #[trigger] list[i]),
        forall|i: int| at <= i < list.len() ==> more_urgent(state, #[trigger] list[i]),
    ensures
        is_by_urgency(list.insert(at, state)),
{
    let longer = list.insert(at, state);
    assert forall|i: int, j: int| 0 <= i < j < longer.len() implies !more_urgent(
        #[trigger] longer[j],
        #[trigger] longer[i],
    ) by {
        if i == at {
            assert(more_urgent(state, list[j - 1]));
        } else if j == at {
            assert(!more_urgent(state, list[i]));
        } else {
            let old_i = if i < at { i } else { i - 1 };
            let old_j = if j < at { j } else { j - 1 };
            assert(!more_urgent(list[old_j], list[old_i]));
        }
    }
}

proof fn lemma_insert_keeps_terminals(
    agents: Agents,
    list: Seq<AgentState>,
    terminals: Seq<Seq<char>>,
    at: int,
    state: AgentState,
)
    requires
        0 <= at <= list.len(),
        lists_terminals(agents, list, terminals),
        agents.contains_key(state.term_id@),
        agents[state.term_id@] == state,
        !terminals.contains(state.term_id@),
    ensures
        lists_terminals(agents, list.insert(at, state), terminals.push(state.term_id@)),
{
    let longer = list.insert(at, state);
    let more = terminals.push(state.term_id@);
    assert(more[terminals.len() as int] == state.term_id@);
    assert forall|term_id: Seq<char>| terminals.contains(term_id) implies more.contains(
        term_id,
    ) by {
        assert(more[terminals.index_of(term_id)] == term_id);
    }
    assert forall|i: int| 0 <= i < longer.len() implies agents.contains_key(
        (#[trigger] longer[i]).term_id@,
    ) && agents[longer[i].term_id@] == longer[i] && more.contains(longer[i].term_id@) by {
        if i != at {
            let old_i = if i < at { i } else { i - 1 };
            assert(longer[i] == list[old_i]);
        }
    }
    assert forall|i: int, j: int| 0 <= i < j < longer.len() implies (#[trigger] longer[i]).term_id@
        != (#[trigger] longer[j]).term_id@ by {
        let old_i = if i < at { i } else { i - 1 };
        let old_j = if j < at { j } else { j - 1 };
        if i == at {
            assert(longer[j] == list[old_j]);
        } else if j == at {
            assert(longer[i] == list[old_i]);
        } else {
            assert(list[old_i].term_id@ != list[old_j].term_id@);
        }
    }
    assert forall|term_id: Seq<char>| #[trigger] more.contains(term_id) implies exists|i: int|
        0 <= i < longer.len() && (#[trigger] longer[i]).term_id@ == term_id by {
        if term_id == state.term_id@ {
            assert(longer[at].term_id@ == term_id);
        } else {
            let k = more.index_of(term_id);
            assert(terminals[k] == term_id);
            assert(terminals.contains(term_id));
            let i = choose|i: int| 0 <= i < list.len() && (#[trigger] list[i]).term_id@ == term_id;
            if i < at {
                assert(longer[i] == list[i]);
            } else {
                assert(longer[i + 1] == list[i]);
            }
        }
    }
}

/// The one registry of the application, once there is one.
#[derive(Debug)]
pub struct GlobalAgentRegistry {
    pub registry: Option<AgentRegistry>,
}

impl AgentRegistry {
    /// Gives the application its registry, unless it has one.
    pub fn init(global: &mut GlobalAgentRegistry)
        ensures
            old(global).registry.is_some() ==> *final(global) == *old(global),
            old(global).registry.is_none() ==> {
                &&& final(global).registry matches Some(registry)
                &&& registry.well_formed()
                &&& registry@ == Map::<Seq<char>, AgentState>::empty()
            },
    {
        if global.registry.is_none() {
            global.registry = Some(AgentRegistry::new());
        }
    }

    /// The registry of the application, if it has one.
    pub fn global(global: &GlobalAgentRegistry) -> (registry: Option<&AgentRegistry>)
        ensures
            match registry {
                Some(found) => global.registry == Some(*found),
                None => global.registry.is_none(),
            },
    {
        global.registry.as_ref()
    }
}

/// After a scan the registry has the agents that were met, each with the
/// status it was met with, whether there was news or not.
pub proof fn law_a_scan_settles_every_status(known: Agents, files: Seq<StateFile>)
    requires
        known.dom().finite(),
    ensures
        known_after(known, scanned(files)).dom() == scanned(files).dom(),
        forall|term_id: Seq<char>| #[trigger]
            scanned(files).contains_key(term_id) ==> known_after(known, scanned(
                files,
            ))[term_id].status == scanned(files)[term_id].status,
        forall|status: AgentStatus| #[trigger]
            terminals_with_status(known_after(known, scanned(files)), status)
                == terminals_with_status(scanned(files), status),
{
    let scan = scanned(files);
    let after = known_after(known, scan);
    lemma_scanned_agents_know_their_terminal(files);
    if !is_news(known, scan) {
        assert(scan.dom().subset_of(known.dom())) by {
            assert forall|term_id: Seq<char>| scan.dom().contains(
                term_id,
            ) implies known.dom().contains(term_id) by {
                assert(scan.contains_key(term_id));
            }
        }
        lemma_subset_equality(scan.dom(), known.dom());
        assert forall|term_id: Seq<char>| #[trigger]
            scan.contains_key(term_id) implies after[term_id].status == scan[term_id].status by {}
    }
    assert forall|status: AgentStatus| #[trigger]
        terminals_with_status(after, status) == terminals_with_status(scan, status) by {
        assert forall|term_id: Seq<char>|
            terminals_with_status(after, status).contains(term_id) == terminals_with_status(
                scan,
                status,
            ).contains(term_id) by {
            if scan.contains_key(term_id) {
                assert(after[term_id].status == scan[term_id].status);
            }
        }
        assert(terminals_with_status(after, status) =~= terminals_with_status(scan, status));
    }
}

/// The same scan again is no news: those who watch the registry are told once.
pub proof fn law_a_repeated_scan_is_no_news(known: Agents, files: Seq<StateFile>)
    ensures
        !is_news(known_after(known, scanned(files)), scanned(files)),
        known_after(known_after(known, scanned(files)), scanned(files)) == known_after(
            known,
            scanned(files),
        ),
{
}

/// No agent whose process is known to be gone is kept: each agent of a scan
/// stands in a file that is not to be deleted.
pub proof fn law_scanned_agents_are_live(files: Seq<StateFile>, term_id: Seq<char>)
    requires
        scanned(files).contains_key(term_id),
    ensures
        exists|i: int|
            0 <= i < files.len() && is_live(#[trigger] files[i]) && !is_ghost(files[i])
                && files[i].state == Some(scanned(files)[term_id])
                && scanned(files)[term_id].term_id@ == term_id,
    decreases files.len(),
{
    let last = files.last();
    if is_live(last) && last.state.unwrap().term_id@ == term_id {
        assert(files[files.len() - 1] == last);
    } else {
        law_scanned_agents_are_live(files.drop_last(), term_id);
        let i = choose|i: int|
            0 <= i < files.drop_last().len() && is_live(#[trigger] files.drop_last()[i])
                && !is_ghost(files.drop_last()[i]) && files.drop_last()[i].state == Some(
                scanned(files.drop_last())[term_id],
            );
        assert(files[i] == files.drop_last()[i]);
    }
}

/// Once the files of dead agents are deleted, the files that are left tell of
/// the same agents, and there is none to be deleted any more.
pub proof fn law_deleting_ghosts_loses_no_agent(files: Seq<StateFile>)
    ensures
        scanned(files.filter(|file: StateFile| !is_ghost(file))) == scanned(files),
        ghost_paths(files.filter(|file: StateFile| !is_ghost(file))).len() == 0,
    decreases files.len(),
{
    let kept = |file: StateFile| !is_ghost(file);
    reveal(Seq::filter);
    if files.len() > 0 {
        law_deleting_ghosts_loses_no_agent(files.drop_last());
        let before = files.drop_last().filter(kept);
        if kept(files.last()) {
            assert(files.filter(kept).drop_last() =~= before);
            assert(files.filter(kept).last() == files.last());
        }
    }
}

/// Every agent is counted under one status.
pub proof fn law_counts_add_up(agents: Agents)
    requires
        agents.dom().finite(),
    ensures
        terminals_with_status(agents, AgentStatus::Blocked).len() + terminals_with_status(
            agents,
            AgentStatus::Working,
        ).len() + terminals_with_status(agents, AgentStatus::Idle).len() == agents.len(),
{
    let blocked = terminals_with_status(agents, AgentStatus::Blocked);
    let working = terminals_with_status(agents, AgentStatus::Working);
    let idle = terminals_with_status(agents, AgentStatus::Idle);
    lemma_set_disjoint_lens(blocked, working);
    lemma_set_disjoint_lens(blocked.union(working), idle);
    assert(blocked.union(working).union(idle) =~= agents.dom());
}

/// The agent most deserving of attention heads the list by urgency. Where none
/// deserves it, the list holds agents that work, if any.
pub proof fn law_attention_target_heads_the_urgency_order(agents: Agents, list: Seq<AgentState>)
    requires
        is_urgency_order(agents, list),
    ensures
        list.len() == 0 || list[0].status == AgentStatus::Working ==> is_attention_target(
            agents,
            None,
        ),
        list.len() > 0 && list[0].status != AgentStatus::Working ==> is_attention_target(
            agents,
            Some(list[0]),
        ),
{
    assert forall|term_id: Seq<char>| #[trigger] agents.contains_key(term_id) implies list.len() > 0
        && !more_urgent(agents[term_id], list[0]) by {
        let i = choose|i: int| 0 <= i < list.len() && (#[trigger] list[i]).term_id@ == term_id;
        assert(agents[term_id] == list[i]);
        if i > 0 {
            assert(!more_urgent(list[i], list[0]));
        }
    }
}

/// An agent that is blocked goes before one that is idle, and that before one
/// that works, however long each has waited; of two with the same status the
/// one that has waited longer goes first.
pub proof fn law_urgency_follows_status_and_waiting(first: AgentState, second: AgentState)
    ensures
        first.status == AgentStatus::Blocked && second.status != AgentStatus::Blocked
            ==> more_urgent(first, second),
        first.status == AgentStatus::Idle && second.status == AgentStatus::Working ==> more_urgent(
            first,
            second,
        ),
        first.status == second.status ==> more_urgent(first, second) == waits_longer(
            first.ts,
            second.ts,
        ),
        !(more_urgent(first, second) && more_urgent(second, first)),
{
}

/// The state files are those with the extension `json`, in any directory.
pub proof fn law_state_files_are_json_files(
    directory: Seq<ComponentView>,
    stem: Seq<u8>,
    component: ComponentView,
)
    ensures
        stem.len() > 0 ==> is_state_path(
            directory.push(ComponentView::Normal(stem + seq![0x2eu8, 0x6a, 0x73, 0x6f, 0x6e])),
        ),
        is_state_path(directory.push(component)) ==> {
            &&& component matches ComponentView::Normal(name)
            &&& name.len() > 5
            &&& name == name.take(name.len() - 5) + seq![0x2eu8, 0x6a, 0x73, 0x6f, 0x6e]
        },
        !is_state_path(Seq::empty()),
        state_directory(directory).len() == directory.len() + 4,
        state_directory(directory).take(directory.len() as int) == directory,
        state_directory(directory).skip(directory.len() as int) == seq![
            ComponentView::Normal(encode_utf8(".local"@)),
            ComponentView::Normal(encode_utf8("state"@)),
            ComponentView::Normal(encode_utf8("spacezed"@)),
            ComponentView::Normal(encode_utf8("agents"@)),
        ],
{
    let ending = seq![0x2eu8, 0x6a, 0x73, 0x6f, 0x6e];
    law_json_names_end_in_json(stem, stem);
    if let ComponentView::Normal(name) = component {
        law_json_names_end_in_json(name, stem);
    }
    assert(directory.push(component).last() == component);
    assert(directory.push(ComponentView::Normal(stem + ending)).last() == ComponentView::Normal(
        stem + ending,
    ));
    assert(state_directory(directory).take(directory.len() as int) =~= directory);
}

/// A scan is complete: whatever else a state file says, its agent is among those
/// scanned, under the terminal that the file names, unless the agent's process
/// is known to be gone or a later file tells of an agent in that terminal.
pub proof fn law_every_live_agent_is_scanned(
    files: Seq<StateFile>,
    index: int,
    directory: Seq<ComponentView>,
    stem: Seq<u8>,
    state: AgentState,
)
    requires
        0 <= index < files.len(),
        stem.len() > 0,
        files[index].path@ == directory.push(
            ComponentView::Normal(stem + seq![0x2eu8, 0x6a, 0x73, 0x6f, 0x6e]),
        ),
        files[index].state == Some(state),
        state.pid.is_none() || files[index].process_alive,
        forall|later: int| #![trigger files[later]]
            index < later < files.len() && is_state_path(files[later].path@) ==> (
            files[later].state matches Some(other) ==> (other.pid.is_none()
                || files[later].process_alive ==> other.term_id@ != state.term_id@)),
    ensures
        scanned(files).contains_key(state.term_id@),
        scanned(files)[state.term_id@] == state,
    decreases files.len(),
{
    law_state_files_are_json_files(directory, stem, ComponentView::RootDir);
    let last = files.last();
    assert(files[files.len() - 1] == last);
    if index < files.len() - 1 {
        let rest = files.drop_last();
        assert forall|later: int| #![trigger rest[later]]
            index < later < rest.len() && is_state_path(rest[later].path@) implies (
        rest[later].state matches Some(other) ==> (other.pid.is_none() || rest[later].process_alive
            ==> other.term_id@ != state.term_id@)) by {
            assert(files[later] == rest[later]);
        }
        law_every_live_agent_is_scanned(rest, index, directory, stem, state);
    }
}

/// A scan is sound: every agent in it is told of by a state file that names its
/// terminal, and its process is not known to be gone.
pub proof fn law_every_scanned_agent_has_a_file(files: Seq<StateFile>, term_id: Seq<char>)
    requires
        scanned(files).contains_key(term_id),
    ensures
        exists|i: int| #![trigger files[i]]
            {
                &&& 0 <= i < files.len()
                &&& is_state_path(files[i].path@)
                &&& files[i].state == Some(scanned(files)[term_id])
                &&& scanned(files)[term_id].term_id@ == term_id
                &&& scanned(files)[term_id].pid.is_none() || files[i].process_alive
            },
    decreases files.len(),
{
    let last = files.last();
    assert(files[files.len() - 1] == last);
    if !(is_live(last) && last.state.unwrap().term_id@ == term_id) {
        let rest = files.drop_last();
        law_every_scanned_agent_has_a_file(rest, term_id);
        let i = choose|i: int| #![trigger rest[i]]
            {
                &&& 0 <= i < rest.len()
                &&& is_state_path(rest[i].path@)
                &&& rest[i].state == Some(scanned(rest)[term_id])
                &&& scanned(rest)[term_id].term_id@ == term_id
                &&& scanned(rest)[term_id].pid.is_none() || rest[i].process_alive
            };
        assert(files[i] == rest[i]);
    }
}

/// The files to be deleted are exactly the state files that name a process which
/// is gone.
pub proof fn law_the_files_of_the_dead_are_deleted(
    files: Seq<StateFile>,
    path: Seq<ComponentView>,
)
    ensures
        ghost_paths(files).contains(path) <==> exists|i: int| #![trigger files[i]]
            {
                &&& 0 <= i < files.len()
                &&& files[i].path@ == path
                &&& is_state_path(path)
                &&& files[i].state matches Some(state)
                &&& state.pid.is_some()
                &&& !files[i].process_alive
            },
    decreases files.len(),
{
    if files.len() > 0 {
        let rest = files.drop_last();
        let last = files.last();
        law_the_files_of_the_dead_are_deleted(rest, path);
        assert(files[files.len() - 1] == last);
        let before = ghost_paths(rest);
        if is_ghost(last) {
            assert(before.push(last.path@)[before.len() as int] == last.path@);
        }
        if ghost_paths(files).contains(path) {
            let at = ghost_paths(files).index_of(path);
            if !(is_ghost(last) && last.path@ == path) {
                assert(before[at] == path);
                assert(before.contains(path));
                let i = choose|i: int| #![trigger rest[i]]
                    {
                        &&& 0 <= i < rest.len()
                        &&& rest[i].path@ == path
                        &&& is_state_path(path)
                        &&& rest[i].state matches Some(state)
                        &&& state.pid.is_some()
                        &&& !rest[i].process_alive
                    };
                assert(files[i] == rest[i]);
            }
        }
        if exists|i: int| #![trigger files[i]]
            {
                &&& 0 <= i < files.len()
                &&& files[i].path@ == path
                &&& is_state_path(path)
                &&& files[i].state matches Some(state)
                &&& state.pid.is_some()
                &&& !files[i].process_alive
            } {
            let i = choose|i: int| #![trigger files[i]]
                {
                    &&& 0 <= i < files.len()
                    &&& files[i].path@ == path
                    &&& is_state_path(path)
                    &&& files[i].state matches Some(state)
                    &&& state.pid.is_some()
                    &&& !files[i].process_alive
                };
            if i < rest.len() {
                assert(rest[i] == files[i]);
                assert(before.contains(path));
                let at = before.index_of(path);
                assert(ghost_paths(files)[at] == path);
            }
        }
    }
}

/// There is news when and only when the agents that were met are not those that
/// are known, or one of them has another status. With news the registry knows
/// what was met; without, it keeps what it knew.
pub proof fn law_news_are_agents_or_statuses(known: Agents, scan: Agents)
    requires
        known.dom().finite(),
        scan.dom().finite(),
    ensures
        !is_news(known, scan) <==> (known.dom() == scan.dom() && forall|term_id: Seq<char>|
            #[trigger] scan.contains_key(term_id) ==> known[term_id].status
                == scan[term_id].status),
        is_news(known, scan) ==> known_after(known, scan) == scan,
        !is_news(known, scan) ==> known_after(known, scan) == known,
{
    if !is_news(known, scan) {
        assert(scan.dom().subset_of(known.dom())) by {
            assert forall|term_id: Seq<char>| scan.dom().contains(
                term_id,
            ) implies known.dom().contains(term_id) by {
                assert(scan.contains_key(term_id));
            }
        }
        lemma_subset_equality(scan.dom(), known.dom());
    }
    if known.dom() == scan.dom() {
        assert forall|term_id: Seq<char>| #[trigger]
            scan.contains_key(term_id) implies known.contains_key(term_id) by {
            assert(scan.dom().contains(term_id));
        }
    }
}

/// A terminal counts for a status when and only when its agent has it.
pub proof fn law_an_agent_counts_for_its_status(
    agents: Agents,
    status: AgentStatus,
    term_id: Seq<char>,
)
    ensures
        terminals_with_status(agents, status).contains(term_id) <==> agents.contains_key(term_id)
            && agents[term_id].status == status,
{
}

/// Of two agents with the same status the one that took it on at an earlier time
/// is more urgent, and one of which the time is known than one of which it is
/// not. Of two with different statuses the blocked one is, and else the idle one.
pub proof fn law_the_earlier_agent_is_more_urgent(first: AgentState, second: AgentState)
    ensures
        first.status == second.status && first.ts.is_some() && second.ts.is_some() ==> more_urgent(
            first,
            second,
        ) == (first.ts.unwrap() < second.ts.unwrap()),
        first.status == second.status && first.ts.is_some() && second.ts.is_none() ==> more_urgent(
            first,
            second,
        ),
        first.status == second.status && first.ts.is_none() ==> !more_urgent(first, second),
        first.status != second.status ==> more_urgent(first, second) == (first.status
            == AgentStatus::Blocked || first.status == AgentStatus::Idle && second.status
            == AgentStatus::Working),
{
}

/// The agent most deserving of attention is one of the agents and does not work.
/// It is idle only where none is blocked, and no agent of its status has had
/// that status for longer, as far as is known. Where none deserves attention all
/// agents work.
pub proof fn law_the_longest_blocked_deserves_attention(
    agents: Agents,
    target: Option<AgentState>,
    term_id: Seq<char>,
)
    requires
        is_attention_target(agents, target),
        agents.contains_key(term_id),
    ensures
        target.is_none() ==> agents[term_id].status == AgentStatus::Working,
        target matches Some(state) ==> {
            &&& agents.contains_key(state.term_id@)
            &&& agents[state.term_id@] == state
            &&& state.status != AgentStatus::Working
            &&& state.status == AgentStatus::Idle ==> agents[term_id].status
                != AgentStatus::Blocked
            &&& agents[term_id].status == state.status && agents[term_id].ts.is_some()
                ==> state.ts.is_some() && state.ts.unwrap() <= agents[term_id].ts.unwrap()
        },
{
}

/// The list by urgency holds every agent, each once. The blocked ones come
/// first, then the idle ones, then those that work, and among those of one
/// status an earlier time comes before a later one and before none.
pub proof fn law_the_list_goes_by_status_and_time(
    agents: Agents,
    list: Seq<AgentState>,
    i: int,
    j: int,
    term_id: Seq<char>,
)
    requires
        is_urgency_order(agents, list),
    ensures
        0 <= i < j < list.len() ==> {
            &&& list[j].status == AgentStatus::Blocked ==> list[i].status == AgentStatus::Blocked
            &&& list[j].status == AgentStatus::Idle ==> list[i].status != AgentStatus::Working
            &&& list[i].status == list[j].status && list[j].ts.is_some() ==> list[i].ts.is_some()
                && list[i].ts.unwrap() <= list[j].ts.unwrap()
            &&& list[i].term_id@ != list[j].term_id@
        },
        0 <= i < list.len() ==> agents.contains_key(list[i].term_id@)
            && agents[list[i].term_id@] == list[i],
        agents.contains_key(term_id) ==> exists|k: int|
            0 <= k < list.len() && (#[trigger] list[k]).term_id@ == term_id,
{
    if 0 <= i < j < list.len() {
        assert(!more_urgent(list[j], list[i]));
    }
}

/// The paths in a list are told in order, each as it is.
pub proof fn law_paths_are_told_in_order(paths: Seq<DirPath>, index: int)
    ensures
        path_list(paths).len() == paths.len(),
        0 <= index < paths.len() ==> path_list(paths)[index] == paths[index]@,
{
}

} // verus!
