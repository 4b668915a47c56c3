use spacezed::agent_cockpit::{
    focus_next_blocked, format_age, label, list_agents, new_agent_terminal, AgentPicker,
    MatchRequest, StringMatch,
};
use spacezed::agent_registry::{
    state_dir, AgentRegistry, AgentState, AgentStatus, GlobalAgentRegistry, StateFile,
};
use spacezed::agent_watch::{
    begin, sweep_task, watch_task, SweepEvent, SweepState, WatchEvent, WatchState,
    SWEEP_INTERVAL_SECONDS, WATCH_LATENCY_MILLISECONDS,
};
use spacezed::focus::{focus_agent_terminal, FocusTarget, Pane, PaneItem, WindowPanes};
use spacezed::palette::{
    agent_blocked_color, agent_idle_color, agent_working_color, status_color, status_glyph,
    BarColor,
};
use spacezed::path::{DirPath, PathComponent};

fn path(value: &str) -> DirPath {
    let mut components = vec![PathComponent::RootDir];
    for name in value.split('/') {
        if !name.is_empty() {
            components.push(PathComponent::named(name));
        }
    }
    DirPath { components }
}

fn agent(term_id: &str, status: AgentStatus, ts: Option<u64>) -> AgentState {
    AgentState { term_id: term_id.to_string(), status, pid: Some(7), cwd: None, ts }
}

fn file(name: &str, state: AgentState) -> StateFile {
    StateFile { path: path("/agents/").child(name), state: Some(state), process_alive: true }
}

trait Child {
    fn child(self, name: &str) -> Self;
}

impl Child for DirPath {
    fn child(mut self, name: &str) -> DirPath {
        self.push_name(name);
        self
    }
}

fn registry(agents: &[AgentState]) -> AgentRegistry {
    let mut registry = AgentRegistry::new();
    let files = agents.iter().map(|agent| file("a.json", agent.clone())).collect();
    registry.rescan(Some(&files));
    registry
}

#[test]
fn state_files_are_below_the_home() {
    assert_eq!(
        state_dir(Some(path("/home/me"))),
        Some(path("/home/me/.local/state/spacezed/agents"))
    );
    assert_eq!(state_dir(None), None);
}

#[test]
fn only_json_files_tell_of_agents() {
    let mut registry = AgentRegistry::new();
    let outcome = registry.rescan(Some(&vec![
        file("a.json", agent("a", AgentStatus::Working, None)),
        file("b.txt", agent("b", AgentStatus::Working, None)),
        StateFile { path: path("/agents/c.json"), state: None, process_alive: true },
    ]));
    assert!(outcome.changed);
    assert!(outcome.removals.is_empty());
    assert_eq!(registry.count_with_status(AgentStatus::Working), 1);
}

#[test]
fn dead_agents_are_pruned() {
    let mut dead = file("dead.json", agent("dead", AgentStatus::Idle, None));
    dead.process_alive = false;
    let mut unknown = file("unknown.json", agent("unknown", AgentStatus::Idle, None));
    unknown.process_alive = false;
    unknown.state = unknown.state.map(|state| AgentState { pid: None, ..state });
    let mut dead_elsewhere = file("dead.txt", agent("dead", AgentStatus::Idle, None));
    dead_elsewhere.process_alive = false;
    let mut registry = AgentRegistry::new();
    let outcome = registry.rescan(Some(&vec![dead, unknown, dead_elsewhere]));
    assert_eq!(outcome.removals, vec![path("/agents/dead.json")]);
    assert_eq!(registry.count_with_status(AgentStatus::Idle), 1);
    assert_eq!(focus_next_blocked(Some(&registry)), Some("unknown".to_string()));
}

#[test]
fn deleting_ghosts_loses_no_agent() {
    let scan = |with_ghost: bool| {
        let mut files = vec![file("a.json", agent("a", AgentStatus::Idle, None))];
        if with_ghost {
            let mut ghost = file("b.json", agent("b", AgentStatus::Idle, None));
            ghost.process_alive = false;
            files.push(ghost);
        }
        files
    };
    let mut registry = AgentRegistry::new();
    assert_eq!(registry.rescan(Some(&scan(true))).removals.len(), 1);
    let again = registry.rescan(Some(&scan(false)));
    assert!(!again.changed);
    assert!(again.removals.is_empty());
}

#[test]
fn only_news_are_told() {
    let first = agent("a", AgentStatus::Working, Some(1));
    let mut registry = registry(&[first.clone()]);
    let outcome = registry.rescan(Some(&vec![file("a.json", first)]));
    assert!(!outcome.changed);

    let later = agent("a", AgentStatus::Working, Some(9));
    assert!(!registry.rescan(Some(&vec![file("a.json", later)])).changed);
    assert_eq!(registry.agents_by_urgency()[0].ts, Some(1));

    let blocked = agent("a", AgentStatus::Blocked, Some(9));
    assert!(registry.rescan(Some(&vec![file("a.json", blocked)])).changed);
    assert_eq!(registry.count_with_status(AgentStatus::Blocked), 1);
    assert_eq!(registry.count_with_status(AgentStatus::Working), 0);

    let other = agent("b", AgentStatus::Blocked, Some(9));
    assert!(registry.rescan(Some(&vec![file("b.json", other)])).changed);
    assert_eq!(registry.agents_by_urgency()[0].term_id, "b");

    assert!(!registry.rescan(None).changed);
    assert_eq!(registry.count_with_status(AgentStatus::Blocked), 1);
    assert!(registry.rescan(Some(&Vec::new())).changed);
    assert!(registry.agents_by_urgency().is_empty());
}

#[test]
fn the_later_file_of_a_terminal_counts() {
    let registry = registry(&[
        agent("a", AgentStatus::Working, None),
        agent("a", AgentStatus::Blocked, None),
    ]);
    assert_eq!(registry.count_with_status(AgentStatus::Working), 0);
    assert_eq!(registry.count_with_status(AgentStatus::Blocked), 1);
}

#[test]
fn agents_are_sorted_by_urgency() {
    let registry = registry(&[
        agent("working", AgentStatus::Working, Some(1)),
        agent("idle-late", AgentStatus::Idle, Some(5)),
        agent("blocked-unknown", AgentStatus::Blocked, None),
        agent("blocked-late", AgentStatus::Blocked, Some(8)),
        agent("idle-early", AgentStatus::Idle, Some(2)),
        agent("blocked-early", AgentStatus::Blocked, Some(7)),
    ]);
    let order: Vec<String> =
        registry.agents_by_urgency().into_iter().map(|state| state.term_id).collect();
    assert_eq!(
        order,
        vec![
            "blocked-early",
            "blocked-late",
            "blocked-unknown",
            "idle-early",
            "idle-late",
            "working"
        ]
    );
    assert_eq!(focus_next_blocked(Some(&registry)), Some("blocked-early".to_string()));
    let blocked = agent("a", AgentStatus::Blocked, None);
    assert!(blocked.is_more_urgent(&agent("b", AgentStatus::Idle, Some(0))));
    assert!(!blocked.is_more_urgent(&blocked));
}

#[test]
fn the_longest_idle_agent_is_next_where_none_is_blocked() {
    let registry_idle = registry(&[
        agent("w", AgentStatus::Working, Some(0)),
        agent("i", AgentStatus::Idle, Some(3)),
        agent("j", AgentStatus::Idle, Some(2)),
    ]);
    assert_eq!(focus_next_blocked(Some(&registry_idle)), Some("j".to_string()));
    let registry_busy = registry(&[agent("w", AgentStatus::Working, Some(0))]);
    assert_eq!(focus_next_blocked(Some(&registry_busy)), None);
    assert_eq!(focus_next_blocked(None), None);
}

#[test]
fn there_is_one_registry() {
    let mut global = GlobalAgentRegistry { registry: None };
    assert!(AgentRegistry::global(&global).is_none());
    AgentRegistry::init(&mut global);
    if let Some(registry) = global.registry.as_mut() {
        registry.rescan(Some(&vec![file("a.json", agent("a", AgentStatus::Idle, None))]));
    }
    AgentRegistry::init(&mut global);
    let registry = AgentRegistry::global(&global).expect("a registry");
    assert_eq!(registry.count_with_status(AgentStatus::Idle), 1);
}

#[test]
fn tasks_are_begun_once() {
    let mut global = GlobalAgentRegistry { registry: None };
    let tasks = begin(&mut global, Some(path("/h")));
    assert!(matches!(
        tasks,
        Some((WatchState::Open { directory }, SweepState::Sleep))
            if directory == path("/h/.local/state/spacezed/agents")
    ));
    if let Some(registry) = global.registry.as_mut() {
        registry.rescan(Some(&vec![file("a.json", agent("a", AgentStatus::Idle, None))]));
    }
    assert!(begin(&mut global, Some(path("/h"))).is_none());
    let registry = AgentRegistry::global(&global).expect("a registry");
    assert_eq!(registry.count_with_status(AgentStatus::Idle), 1);

    let mut homeless = GlobalAgentRegistry { registry: None };
    assert!(matches!(
        begin(&mut homeless, None),
        Some((WatchState::Stopped, SweepState::Sleep))
    ));
}

#[test]
fn the_watch_looks_before_it_waits() {
    assert!(matches!(watch_task(None), WatchState::Stopped));
    let state = watch_task(Some(path("/h")));
    assert!(matches!(
        &state,
        WatchState::Open { directory } if *directory == path("/h/.local/state/spacezed/agents")
    ));
    let state = state.advance(WatchEvent::Opened);
    assert!(matches!(state, WatchState::Rescan));
    let state = state.advance(WatchEvent::Rescanned { registry_alive: true });
    assert!(matches!(state, WatchState::AwaitEvent));
    let state = state.advance(WatchEvent::Waited { event: true });
    assert!(matches!(state, WatchState::Rescan));
    let state = state.advance(WatchEvent::Rescanned { registry_alive: false });
    assert!(matches!(state, WatchState::Stopped));
    assert!(matches!(
        WatchState::AwaitEvent.advance(WatchEvent::Waited { event: false }),
        WatchState::Stopped
    ));
    assert!(matches!(WatchState::Rescan.advance(WatchEvent::Opened), WatchState::Rescan));
    assert_eq!(WATCH_LATENCY_MILLISECONDS, 100);
}

#[test]
fn the_sweep_goes_on_as_long_as_the_registry() {
    let state = sweep_task();
    assert_eq!(state, SweepState::Sleep);
    let state = state.advance(SweepEvent::Woke);
    assert_eq!(state, SweepState::Rescan);
    assert_eq!(
        state.advance(SweepEvent::Rescanned { registry_alive: true }),
        SweepState::Sleep
    );
    let stopped = state.advance(SweepEvent::Rescanned { registry_alive: false });
    assert_eq!(stopped, SweepState::Stopped);
    assert_eq!(stopped.advance(SweepEvent::Woke), SweepState::Stopped);
    assert_eq!(SWEEP_INTERVAL_SECONDS, 20);
}

#[test]
fn statuses_differ_in_sign_and_color() {
    assert_eq!(status_color(AgentStatus::Blocked), BarColor::Rgb(0xf2241f));
    assert_eq!(status_color(AgentStatus::Working), BarColor::Rgb(0x67b11d));
    assert_eq!(status_color(AgentStatus::Idle), BarColor::Rgb(0x7d7a8a));
    assert_eq!(status_color(AgentStatus::Blocked), agent_blocked_color());
    assert_eq!(status_color(AgentStatus::Working), agent_working_color());
    assert_eq!(status_color(AgentStatus::Idle), agent_idle_color());
    assert_eq!(status_glyph(AgentStatus::Blocked), "◉");
    assert_eq!(status_glyph(AgentStatus::Working), "●");
    assert_eq!(status_glyph(AgentStatus::Idle), "○");
}

#[test]
fn ages_are_told_in_one_unit() {
    for (seconds, expected) in [
        (0, "0s"),
        (59, "59s"),
        (60, "1m"),
        (119, "1m"),
        (3599, "59m"),
        (3600, "1h"),
        (7199, "1h"),
        (360000, "100h"),
    ] {
        assert_eq!(format_age(seconds), expected);
    }
}

#[test]
fn labels_tell_directory_status_and_age() {
    let mut state = agent("a", AgentStatus::Blocked, Some(100));
    assert_eq!(label(&state, 190), "?  blocked  1m");
    state.cwd = Some("/home/me/project/".to_string());
    assert_eq!(label(&state, 190), "project  blocked  1m");
    assert_eq!(label(&state, 90), "project  blocked  0s");
    state.status = AgentStatus::Working;
    state.ts = None;
    assert_eq!(label(&state, 190), "project  working  ");
    state.status = AgentStatus::Idle;
    state.cwd = Some("/".to_string());
    assert_eq!(label(&state, 190), "?  idle  ");
}

#[test]
fn new_agents_get_a_terminal() {
    let terminal = new_agent_terminal(Some(path("/w")));
    assert_eq!(terminal.working_directory, Some(path("/w")));
    assert_eq!(terminal.input, b"cccp\n".to_vec());
    assert_eq!(new_agent_terminal(None).working_directory, None);
}

fn picker() -> AgentPicker {
    let registry = registry(&[
        agent("i", AgentStatus::Idle, Some(10)),
        agent("b", AgentStatus::Blocked, Some(70)),
    ]);
    list_agents(Some(&registry), Some(130)).expect("agents to list")
}

#[test]
fn without_agents_no_picker_opens() {
    assert!(list_agents(None, Some(1)).is_none());
    assert!(list_agents(Some(&AgentRegistry::new()), Some(1)).is_none());
}

#[test]
fn without_a_clock_ages_are_zero() {
    let registry = registry(&[agent("i", AgentStatus::Idle, Some(10))]);
    let picker = list_agents(Some(&registry), None).expect("an agent to list");
    assert_eq!(picker.delegate.entries[0].label, "?  idle  0s");
}

#[test]
fn every_agent_can_be_picked() {
    let mut delegate = picker().delegate;
    assert_eq!(delegate.match_count(), 0);
    assert_eq!(delegate.confirm(), None);
    match delegate.update_matches(String::new()) {
        MatchRequest::Ready(matches) => delegate.set_matches(matches),
        MatchRequest::Search(_) => panic!("nothing to search for"),
    }
    assert_eq!(delegate.match_count(), 2);
    assert_eq!(delegate.selected_index(), 0);
    assert_eq!(delegate.confirm(), Some("b".to_string()));
    delegate.set_selected_index(1);
    assert_eq!(delegate.confirm(), Some("i".to_string()));
    let row = delegate.render_match(0).expect("a row");
    assert_eq!((row.glyph, row.color), ("◉", BarColor::Rgb(0xf2241f)));
    assert_eq!(row.label, "?  blocked  1m");
    assert!(row.positions.is_empty());
    assert!(delegate.render_match(2).is_none());
    assert_eq!(delegate.placeholder_text(), "Jump to agent…");
}

#[test]
fn typed_text_is_searched_for() {
    match picker().delegate.update_matches("blo".to_string()) {
        MatchRequest::Search(search) => {
            assert_eq!(
                search.candidates,
                vec![(0, "?  blocked  1m".to_string()), (1, "?  idle  2m".to_string())]
            );
            assert_eq!(search.query, "blo");
            assert!(!search.smart_case);
            assert!(search.penalize_length);
            assert_eq!(search.max_results, 100);
        }
        MatchRequest::Ready(_) => panic!("a search is needed"),
    }
}

#[test]
fn the_selection_stays_on_a_row() {
    let found = |candidate_id: usize| StringMatch {
        candidate_id,
        string: String::new(),
        positions: vec![1, 2],
    };
    let mut delegate = picker().delegate;
    delegate.set_selected_index(7);
    delegate.set_matches(vec![found(1), found(0)]);
    assert_eq!(delegate.selected_index(), 1);
    delegate.set_matches(vec![found(1)]);
    assert_eq!(delegate.selected_index(), 0);
    assert_eq!(delegate.confirm(), Some("i".to_string()));
    assert_eq!(delegate.render_match(0).map(|row| row.positions), Some(vec![1, 2]));
    delegate.set_matches(Vec::new());
    assert_eq!(delegate.selected_index(), 0);
    assert_eq!(delegate.confirm(), None);
    delegate.set_matches(vec![found(9)]);
    assert_eq!(delegate.confirm(), None);
    assert!(delegate.render_match(0).is_none());
}

fn terminal(term_id: &str) -> PaneItem {
    PaneItem::Terminal { term_id: Some(term_id.to_string()) }
}

#[test]
fn terminals_are_found_across_windows() {
    let windows = vec![
        None,
        Some(WindowPanes {
            center: vec![Pane {
                items: vec![PaneItem::Other, PaneItem::Terminal { term_id: None }],
            }],
            dock: vec![Pane { items: vec![terminal("a")] }],
        }),
        Some(WindowPanes {
            center: vec![
                Pane { items: Vec::new() },
                Pane { items: vec![PaneItem::Other, terminal("b"), terminal("a")] },
            ],
            dock: vec![Pane { items: vec![terminal("b")] }],
        }),
    ];
    assert_eq!(
        focus_agent_terminal(&windows, &"a".to_string()),
        Some(FocusTarget { window: 1, in_dock: true, pane: 0, item: 0 })
    );
    assert_eq!(
        focus_agent_terminal(&windows, &"b".to_string()),
        Some(FocusTarget { window: 2, in_dock: false, pane: 1, item: 1 })
    );
    assert_eq!(focus_agent_terminal(&windows, &"c".to_string()), None);
}
