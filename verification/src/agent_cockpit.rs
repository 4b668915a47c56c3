//! The agent cockpit: a terminal for a new agent, the jump to the agent most
//! deserving of attention, and the picker of agents.

use crate::agent_registry::{
    is_attention_target, is_urgency_order, AgentRegistry, AgentState, AgentStatus,
};
use crate::palette::{status_color, status_color_of, status_glyph, status_glyph_of, BarColor};
use crate::path::{file_name_of, text_file_name, DirPath};
use crate::text::{decimal, decimal_text, digits_value};
use vstd::prelude::*;
use vstd::utf8::encode_utf8;

verus! {

/// The command that starts an agent. The shell finds it on its search path, so
/// that what a login shell sets up applies.
pub open spec fn agent_command() -> Seq<char> {
    "cccp"@
}

/// A terminal that is to be opened.
#[derive(Debug)]
pub struct AgentTerminal {
    /// The directory that its shell starts in, if not the shell's own choice.
    pub working_directory: Option<DirPath>,
    /// What is typed into it.
    pub input: Vec<u8>,
}

/// The terminal for a new agent: a login shell in the directory of the active
/// project, into which the command is typed as a user would.
pub fn new_agent_terminal(active_project_directory: Option<DirPath>) -> (terminal: AgentTerminal)
    ensures
        terminal.working_directory == active_project_directory,
        terminal.input@ == encode_utf8(agent_command() + "\n"@),
{
    let line = "cccp".to_owned().concat("\n");
    AgentTerminal {
        working_directory: active_project_directory,
        input: line.as_str().as_bytes_vec(),
    }
}

/// The terminal of the agent most deserving of attention, if there is a
/// registry and an agent in it that deserves attention.
pub fn focus_next_blocked(registry: Option<&AgentRegistry>) -> (term_id: Option<String>)
    requires
        registry matches Some(registry) ==> registry.well_formed(),
    ensures
        match registry {
            None => term_id.is_none(),
            Some(registry) => match term_id {
                Some(id) => exists|target: AgentState|
                    #![trigger is_attention_target(registry@, Some(target))]
                    is_attention_target(registry@, Some(target)) && target.term_id == id,
                None => is_attention_target(registry@, None),
            },
        },
{
    match registry {
        Some(registry) => match registry.attention_target() {
            Some(state) => {
                assert(is_attention_target(registry@, Some(*state)));
                Some(state.term_id.clone())
            },
            None => None,
        },
        None => None,
    }
}

/// An age in words: seconds, whole minutes or whole hours.
pub open spec fn age_text(seconds: nat) -> Seq<char> {
    if seconds < 60 {
        decimal_text(seconds) + "s"@
    } else if seconds < 3600 {
        decimal_text(seconds / 60) + "m"@
    } else {
        decimal_text(seconds / 3600) + "h"@
    }
}

/// Writes an age in words.
pub fn format_age(seconds: u64) -> (text: String)
    ensures
        text@ == age_text(seconds as nat),
{
    if seconds < 60 {
        decimal(seconds).concat("s")
    } else if seconds < 3600 {
        decimal(seconds / 60).concat("m")
    } else {
        decimal(seconds / 3600).concat("h")
    }
}

/// The word for a status.
pub open spec fn status_word_of(status: AgentStatus) -> Seq<char> {
    match status {
        AgentStatus::Blocked => "blocked"@,
        AgentStatus::Working => "working"@,
        AgentStatus::Idle => "idle"@,
    }
}

/// The name of the directory that an agent works in, or a question mark.
pub open spec fn directory_label(state: AgentState) -> Seq<char> {
    match state.cwd {
        Some(cwd) => match text_file_name(cwd@) {
            Some(name) => name,
            None => "?"@,
        },
        None => "?"@,
    }
}

/// For how long an agent has had its status, if that is known.
pub open spec fn age_label(state: AgentState, now: u64) -> Seq<char> {
    match state.ts {
        Some(ts) => age_text(
            if ts <= now {
                (now - ts) as nat
            } else {
                0
            },
        ),
        None => Seq::empty(),
    }
}

/// What the picker shows of an agent.
pub open spec fn agent_label(state: AgentState, now: u64) -> Seq<char> {
    directory_label(state) + "  "@ + status_word_of(state.status) + "  "@ + age_label(state, now)
}

fn status_word(status: AgentStatus) -> (word: &'static str)
    ensures
        word@ == status_word_of(status),
{
    match status {
        AgentStatus::Blocked => "blocked",
        AgentStatus::Working => "working",
        AgentStatus::Idle => "idle",
    }
}

/// Writes what the picker shows of an agent.
pub fn label(state: &AgentState, now: u64) -> (label: String)
    ensures
        label@ == agent_label(*state, now),
{
    let directory = match &state.cwd {
        Some(cwd) => match file_name_of(cwd.as_str()) {
            Some(name) => name,
            None => "?".to_owned(),
        },
        None => "?".to_owned(),
    };
    let age = match state.ts {
        Some(ts) => {
            let seconds: u64 = if ts <= now {
                now - ts
            } else {
                0
            };
            format_age(seconds)
        },
        None => String::new(),
    };
    directory.concat("  ").concat(status_word(state.status)).concat("  ").concat(age.as_str())
}

/// An agent in the picker.
#[derive(Debug)]
pub struct AgentEntry {
    pub state: AgentState,
    pub label: String,
}

/// An entry that matches what the user typed.
#[derive(Debug, PartialEq, Eq)]
pub struct StringMatch {
    /// The entry, by its position among the entries.
    pub candidate_id: usize,
    /// The entry's label.
    pub string: String,
    /// The characters of the label that match.
    pub positions: Vec<usize>,
}

/// A search for the entries that match what the user typed.
#[derive(Debug)]
pub struct FuzzyQuery {
    /// The entries, each with its position and its label.
    pub candidates: Vec<(usize, String)>,
    pub query: String,
    pub smart_case: bool,
    pub penalize_length: bool,
    pub max_results: usize,
}

/// How the matches for what the user typed are to be had.
#[derive(Debug)]
pub enum MatchRequest {
    /// These are the matches.
    Ready(Vec<StringMatch>),
    /// They are to be searched for.
    Search(FuzzyQuery),
}

/// A row of the picker.
#[derive(Debug)]
pub struct MatchRow {
    pub glyph: &'static str,
    pub color: BarColor,
    pub label: String,
    pub positions: Vec<usize>,
}

/// What the picker shows, and which row is selected.
#[derive(Debug)]
pub struct AgentPickerDelegate {
    pub matches: Vec<StringMatch>,
    pub entries: Vec<AgentEntry>,
    pub selected_index: usize,
}

/// The picker of agents.
#[derive(Debug)]
pub struct AgentPicker {
    pub delegate: AgentPickerDelegate,
}

/// Whether the entries of a picker are these agents, each with its label.
pub open spec fn lists_agents(entries: Seq<AgentEntry>, agents: Seq<AgentState>, now: u64) -> bool {
    &&& entries.len() == agents.len()
    &&& forall|i: int|
        0 <= i < entries.len() ==> (#[trigger] entries[i]).state == agents[i]
            && entries[i].label@ == agent_label(agents[i], now)
}

/// The picker that `list_agents` opens, if it opens one: it does where there is
/// a registry with an agent in it, and lists all agents, the most urgent first.
/// Without a clock it takes the time to be that of the epoch.
pub fn list_agents(registry: Option<&AgentRegistry>, now: Option<u64>) -> (picker: Option<
    AgentPicker,
>)
    requires
        registry matches Some(registry) ==> registry.well_formed(),
    ensures
        picker.is_some() == (registry matches Some(registry) && registry@.len() > 0),
        picker matches Some(picker) ==> {
            &&& exists|agents: Seq<AgentState>|
                #![trigger is_urgency_order(registry.unwrap()@, agents)]
                is_urgency_order(registry.unwrap()@, agents) && lists_agents(
                    picker.delegate.entries@,
                    agents,
                    match now {
                        Some(seconds) => seconds,
                        None => 0,
                    },
                )
            &&& picker.delegate.matches@.len() == 0
            &&& picker.delegate.selected_index == 0
        },
{
    match registry {
        Some(registry) => {
            let agents = registry.agents_by_urgency();
            if agents.len() == 0 {
                return None;
            }
            let now: u64 = match now {
                Some(seconds) => seconds,
                None => 0,
            };
            assert(is_urgency_order(registry@, agents@));
            Some(AgentPicker::new(&agents, now))
        },
        None => None,
    }
}

impl AgentPicker {
    /// A picker of these agents, with nothing matched and nothing typed yet.
    pub fn new(agents: &Vec<AgentState>, now: u64) -> (picker: Self)
        ensures
            lists_agents(picker.delegate.entries@, agents@, now),
            picker.delegate.matches@.len() == 0,
            picker.delegate.selected_index == 0,
    {
        let mut entries: Vec<AgentEntry> = Vec::new();
        let mut index: usize = 0;
        while index < agents.len()
            invariant
                index <= agents@.len(),
                lists_agents(entries@, agents@.take(index as int), now),
            decreases agents.len() - index,
        {
            let state = &agents[index];
            entries.push(AgentEntry { state: state.clone(), label: label(state, now) });
            index = index + 1;
        }
        assert(agents@.take(agents@.len() as int) =~= agents@);
        AgentPicker {
            delegate: AgentPickerDelegate { matches: Vec::new(), entries, selected_index: 0 },
        }
    }
}

/// The matches where nothing was typed: every entry, in order.
pub open spec fn is_every_entry(matches: Seq<StringMatch>, entries: Seq<AgentEntry>) -> bool {
    &&& matches.len() == entries.len()
    &&& forall|i: int|
        0 <= i < matches.len() ==> (#[trigger] matches[i]).candidate_id == i
            && matches[i].string@ == entries[i].label@ && matches[i].positions@.len() == 0
}

/// The candidates of a search: every entry, with its position and its label.
pub open spec fn are_candidates(
    candidates: Seq<(usize, String)>,
    entries: Seq<AgentEntry>,
) -> bool {
    &&& candidates.len() == entries.len()
    &&& forall|i: int|
        0 <= i < candidates.len() ==> (#[trigger] candidates[i]).0 == i && candidates[i].1@
            == entries[i].label@
}

/// The entry that a row of the picker shows, if there is such a row.
pub open spec fn entry_of_row(delegate: AgentPickerDelegate, row: int) -> Option<AgentEntry> {
    if 0 <= row < delegate.matches@.len() && delegate.matches@[row].candidate_id
        < delegate.entries@.len() {
        Some(delegate.entries@[delegate.matches@[row].candidate_id as int])
    } else {
        None
    }
}

/// Where the selection goes when there are `count` rows: it stays where it is
/// unless that is past the last row.
pub open spec fn clamped_selection(selected: nat, count: nat) -> nat {
    if selected < count {
        selected
    } else if count == 0 {
        0
    } else {
        (count - 1) as nat
    }
}

fn copy_positions(positions: &Vec<usize>) -> (copy: Vec<usize>)
    ensures
        copy@ == positions@,
{
    let copy = positions.clone();
    assert(copy@ =~= positions@);
    copy
}

impl AgentPickerDelegate {
    /// What stands in the empty search field.
    pub fn placeholder_text(&self) -> (text: &'static str)
        ensures
            text@ == "Jump to agent…"@,
    {
        "Jump to agent…"
    }

    /// The number of rows.
    pub fn match_count(&self) -> (count: usize)
        ensures
            count == self.matches@.len(),
    {
        self.matches.len()
    }

    /// The selected row.
    pub fn selected_index(&self) -> (index: usize)
        ensures
            index == self.selected_index,
    {
        self.selected_index
    }

    /// Selects a row.
    pub fn set_selected_index(&mut self, index: usize)
        ensures
            final(self).selected_index == index,
            final(self).matches == old(self).matches,
            final(self).entries == old(self).entries,
    {
        self.selected_index = index;
    }

    /// The terminal to jump to when the user confirms: that of the selected row.
    pub fn confirm(&self) -> (term_id: Option<String>)
        ensures
            match entry_of_row(*self, self.selected_index as int) {
                Some(entry) => term_id == Some(entry.state.term_id),
                None => term_id.is_none(),
            },
    {
        if self.selected_index < self.matches.len() {
            let id = self.matches[self.selected_index].candidate_id;
            if id < self.entries.len() {
                return Some(self.entries[id].state.term_id.clone());
            }
        }
        None
    }

    /// How the matches for what the user typed are to be had. All entries match
    /// where nothing was typed; else they are searched for.
    pub fn update_matches(&self, query: String) -> (request: MatchRequest)
        ensures
            query@.len() == 0 ==> (request matches MatchRequest::Ready(matches) && is_every_entry(
                matches@,
                self.entries@,
            )),
            query@.len() > 0 ==> {
                &&& request matches MatchRequest::Search(search)
                &&& are_candidates(search.candidates@, self.entries@)
                &&& search.query == query
                &&& !search.smart_case
                &&& search.penalize_length
                &&& search.max_results == 100
            },
    {
        let mut index: usize = 0;
        if query.as_str().is_empty() {
            let mut matches: Vec<StringMatch> = Vec::new();
            while index < self.entries.len()
                invariant
                    index <= self.entries@.len(),
                    is_every_entry(matches@, self.entries@.take(index as int)),
                decreases self.entries.len() - index,
            {
                matches.push(
                    StringMatch {
                        candidate_id: index,
                        string: self.entries[index].label.clone(),
                        positions: Vec::new(),
                    },
                );
                index = index + 1;
            }
            assert(self.entries@.take(self.entries@.len() as int) =~= self.entries@);
            MatchRequest::Ready(matches)
        } else {
            let mut candidates: Vec<(usize, String)> = Vec::new();
            while index < self.entries.len()
                invariant
                    index <= self.entries@.len(),
                    are_candidates(candidates@, self.entries@.take(index as int)),
                decreases self.entries.len() - index,
            {
                candidates.push((index, self.entries[index].label.clone()));
                index = index + 1;
            }
            assert(self.entries@.take(self.entries@.len() as int) =~= self.entries@);
            MatchRequest::Search(
                FuzzyQuery {
                    candidates,
                    query,
                    smart_case: false,
                    penalize_length: true,
                    max_results: 100,
                },
            )
        }
    }

    /// Takes in the matches. The selection stays where it is unless that is past
    /// the last row.
    pub fn set_matches(&mut self, matches: Vec<StringMatch>)
        ensures
            final(self).matches == matches,
            final(self).entries == old(self).entries,
            final(self).selected_index == clamped_selection(
                old(self).selected_index as nat,
                matches@.len(),
            ),
    {
        let last: usize = if matches.len() == 0 {
            0
        } else {
            matches.len() - 1
        };
        self.matches = matches;
        if self.selected_index > last {
            self.selected_index = last;
        }
    }

    /// What a row of the picker shows.
    pub fn render_match(&self, index: usize) -> (row: Option<MatchRow>)
        ensures
            match entry_of_row(*self, index as int) {
                Some(entry) => {
                    &&& row matches Some(row)
                    &&& row.glyph@ == status_glyph_of(entry.state.status)
                    &&& row.color == status_color_of(entry.state.status)
                    &&& row.label@ == entry.label@
                    &&& row.positions@ == self.matches@[index as int].positions@
                },
                None => row.is_none(),
            },
    {
        if index < self.matches.len() {
            let found = &self.matches[index];
            if found.candidate_id < self.entries.len() {
                let entry = &self.entries[found.candidate_id];
                return Some(
                    MatchRow {
                        glyph: status_glyph(entry.state.status),
                        color: status_color(entry.state.status),
                        label: entry.label.clone(),
                        positions: copy_positions(&found.positions),
                    },
                );
            }
        }
        None
    }
}

/// Once matches are in, the selection is one of them, unless there are none.
pub proof fn law_the_selection_is_a_row(selected: nat, count: nat)
    ensures
        count > 0 ==> clamped_selection(selected, count) < count,
        count == 0 ==> clamped_selection(selected, count) == 0,
        selected < count ==> clamped_selection(selected, count) == selected,
        clamped_selection(clamped_selection(selected, count), count) == clamped_selection(
            selected,
            count,
        ),
{
}

/// A picker in which nothing was typed shows every agent, in the order in which
/// it lists them, and to confirm a row jumps to the agent that the row shows.
pub proof fn law_every_agent_can_be_picked(
    delegate: AgentPickerDelegate,
    agents: Seq<AgentState>,
    now: u64,
    row: int,
)
    requires
        lists_agents(delegate.entries@, agents, now),
        is_every_entry(delegate.matches@, delegate.entries@),
        0 <= row < agents.len(),
    ensures
        entry_of_row(delegate, row) matches Some(entry) && entry.state == agents[row]
            && entry.label@ == agent_label(agents[row], now),
{
    assert(delegate.matches@[row].candidate_id == row);
}

/// Below a minute an age is exact; above, two ages with one text are less than
/// an hour apart.
pub proof fn law_ages_are_told_apart(first: nat, second: nat)
    requires
        age_text(first) == age_text(second),
    ensures
        first < 60 ==> first == second,
        first < 3600 ==> first / 60 == second / 60,
        first / 3600 == second / 3600,
{
    reveal_strlit("s");
    reveal_strlit("m");
    reveal_strlit("h");
    lemma_age_text_parts(first);
    lemma_age_text_parts(second);
    crate::text::law_decimal_text_is_injective(age_number(first), age_number(second));
}

spec fn age_number(seconds: nat) -> nat {
    if seconds < 60 {
        seconds
    } else if seconds < 3600 {
        seconds / 60
    } else {
        seconds / 3600
    }
}

proof fn lemma_age_text_parts(seconds: nat)
    ensures
        age_text(seconds).drop_last() == decimal_text(age_number(seconds)),
        age_text(seconds).last() == (if seconds < 60 {
            's'
        } else if seconds < 3600 {
            'm'
        } else {
            'h'
        }),
{
    reveal_strlit("s");
    reveal_strlit("m");
    reveal_strlit("h");
    assert(age_text(seconds).drop_last() =~= decimal_text(age_number(seconds)));
}

/// An age is told as a number and a unit: the number of whole units that have
/// passed, in seconds below a minute, in minutes below an hour, and in hours
/// from there on.
pub proof fn law_ages_are_told_in_whole_units(seconds: nat)
    ensures
        ({
            let text = age_text(seconds);
            let number = digits_value(text.drop_last());
            &&& text.len() > 1
            &&& text.drop_last() == decimal_text(number)
            &&& seconds < 60 ==> text.last() == 's' && number == seconds
            &&& 60 <= seconds < 3600 ==> text.last() == 'm' && number * 60 <= seconds < number * 60
                + 60
            &&& 3600 <= seconds ==> text.last() == 'h' && number * 3600 <= seconds < number * 3600
                + 3600
        }),
{
    lemma_age_text_parts(seconds);
    crate::text::law_numerals_say_their_number(age_number(seconds));
    reveal_strlit("s");
    reveal_strlit("m");
    reveal_strlit("h");
}

/// A label tells the agent's directory, its status and how long it has had it,
/// with two blanks between them. The directory is the last name of its path, or
/// a question mark where there is none; a time that is yet to come counts as
/// now, and one that is not known is not told.
pub proof fn law_labels_tell_directory_status_and_age(state: AgentState, now: u64)
    ensures
        ({
            let directory = match state.cwd {
                Some(cwd) => match text_file_name(cwd@) {
                    Some(name) => name,
                    None => "?"@,
                },
                None => "?"@,
            };
            let word = if state.status == AgentStatus::Blocked {
                "blocked"@
            } else if state.status == AgentStatus::Working {
                "working"@
            } else {
                "idle"@
            };
            &&& state.ts.is_none() ==> agent_label(state, now) == directory + "  "@ + word + "  "@
            &&& state.ts matches Some(ts) ==> (ts <= now ==> agent_label(state, now) == directory
                + "  "@ + word + "  "@ + age_text((now - ts) as nat))
            &&& state.ts matches Some(ts) ==> (ts > now ==> agent_label(state, now) == directory
                + "  "@ + word + "  "@ + age_text(0))
        }),
{
    if state.ts.is_none() {
        assert(agent_label(state, now) =~= directory_label(state) + "  "@ + status_word_of(
            state.status,
        ) + "  "@);
    }
}

/// The entries of a picker are the agents, in order, each with its label; where
/// nothing was typed the matches are the entries, in order, each with its label
/// and nothing in it marked; and a search goes through the entries, each with
/// its position and its label.
pub proof fn law_pickers_go_through_every_agent(
    entries: Seq<AgentEntry>,
    agents: Seq<AgentState>,
    now: u64,
    matches: Seq<StringMatch>,
    candidates: Seq<(usize, String)>,
    index: int,
)
    requires
        0 <= index < entries.len(),
    ensures
        lists_agents(entries, agents, now) ==> entries.len() == agents.len()
            && entries[index].state == agents[index] && entries[index].label@ == agent_label(
            agents[index],
            now,
        ),
        is_every_entry(matches, entries) ==> matches.len() == entries.len()
            && matches[index].candidate_id == index && matches[index].string@
            == entries[index].label@ && matches[index].positions@.len() == 0,
        are_candidates(candidates, entries) ==> candidates.len() == entries.len()
            && candidates[index].0 == index && candidates[index].1@ == entries[index].label@,
{
}

/// A row shows the entry that its match names, and there is no other row. A
/// selection past the last row goes to the last row.
pub proof fn law_a_row_shows_the_entry_of_its_match(
    delegate: AgentPickerDelegate,
    row: int,
    selected: nat,
    count: nat,
)
    ensures
        0 <= row < delegate.matches@.len() && delegate.matches@[row].candidate_id
            < delegate.entries@.len() ==> entry_of_row(delegate, row) == Some(
            delegate.entries@[delegate.matches@[row].candidate_id as int],
        ),
        0 <= row < delegate.matches@.len() && delegate.matches@[row].candidate_id
            >= delegate.entries@.len() ==> entry_of_row(delegate, row).is_none(),
        row < 0 || row >= delegate.matches@.len() ==> entry_of_row(delegate, row).is_none(),
        0 < count <= selected ==> clamped_selection(selected, count) + 1 == count,
{
}

/// The command that is typed for a new agent.
pub proof fn law_agents_are_started_by_their_command()
    ensures
        agent_command() == "cccp"@,
{
}

} // verus!
