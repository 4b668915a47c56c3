use spacezed::agent_registry::{AgentRegistry, AgentState, AgentStatus, StateFile};
use spacezed::palette::{BarColor, ThemeKey};
use spacezed::path::{DirPath, PathComponent};
use spacezed::powerline::{
    join_leftward, join_rightward, Badge, BarPiece, BarSegment, SegmentKind, TextRun,
};
use spacezed::spaceline::{
    agent_segment, branch_name, item_kind, scroll_percent_label, window_number, ActiveItem,
    EditorEvent, EditorSnapshot, ItemInfo, ItemKind, ItemSubscription, Mode, RenderInputs,
    ScrollMeasure, Spaceline, TerminalInfo, MAX_SEGMENT_TEXT,
};

const SEG2: BarColor = BarColor::Rgb(0x34323e);
const SEG3: BarColor = BarColor::Rgb(0x2a2a32);
const TEXT: BarColor = BarColor::Rgb(0xb2b2b2);
const BAR: BarColor = BarColor::Theme(ThemeKey::StatusBarBackground);
const NORMAL: BarColor = BarColor::Theme(ThemeKey::VimNormalBackground);
const ON_NORMAL: BarColor = BarColor::Theme(ThemeKey::VimNormalForeground);

fn registry(statuses: &[AgentStatus]) -> AgentRegistry {
    let files = statuses
        .iter()
        .enumerate()
        .map(|(index, status)| StateFile {
            path: DirPath { components: vec![PathComponent::named("a.json")] },
            state: Some(AgentState {
                term_id: index.to_string(),
                status: *status,
                pid: None,
                cwd: None,
                ts: None,
            }),
            process_alive: false,
        })
        .collect();
    let mut registry = AgentRegistry::new();
    registry.rescan(Some(&files));
    registry
}

fn run(text: &str, color: BarColor, bold: bool) -> TextRun {
    TextRun { text: text.to_string(), color, bold }
}

fn plain(background: BarColor, color: BarColor, text: &str, bold: bool) -> BarSegment {
    BarSegment {
        kind: SegmentKind::Plain,
        background,
        badge: None,
        runs: vec![run(text, color, bold)],
    }
}

fn state(background: BarColor, foreground: BarColor, text: &str, number: &str) -> BarSegment {
    BarSegment {
        kind: SegmentKind::State,
        background,
        badge: Some(Badge {
            text: number.to_string(),
            background: BarColor::Rgb(0x1a1a22),
            color: background,
        }),
        runs: vec![run(text, foreground, true)],
    }
}

fn right(previous: BarColor, next: BarColor) -> BarPiece {
    BarPiece::ArrowRight { previous, next }
}

fn left(previous: BarColor, next: BarColor) -> BarPiece {
    BarPiece::ArrowLeft { previous, next }
}

fn inputs() -> RenderInputs {
    RenderInputs {
        mode: None,
        terminal: None,
        windows: vec![11, 22],
        window: 22,
        branch: Some("main".to_string()),
    }
}

fn snapshot() -> EditorSnapshot {
    EditorSnapshot {
        row: 4,
        column: 0,
        scroll: Some(ScrollMeasure {
            all_visible: false,
            at_top: false,
            at_bottom: false,
            percent: 37,
        }),
        language: Some("Rust".to_string()),
    }
}

fn item(kind: ItemKind) -> Option<ItemInfo> {
    Some(ItemInfo { name: "file.rs".to_string(), dirty: false, kind })
}

#[test]
fn scroll_positions_are_told_in_words() {
    let measure = ScrollMeasure { all_visible: true, at_top: true, at_bottom: true, percent: 5 };
    assert_eq!(scroll_percent_label(None), "All");
    assert_eq!(scroll_percent_label(Some(measure)), "All");
    let measure = ScrollMeasure { all_visible: false, ..measure };
    assert_eq!(scroll_percent_label(Some(measure)), "Top");
    let measure = ScrollMeasure { at_top: false, ..measure };
    assert_eq!(scroll_percent_label(Some(measure)), "Bot");
    let measure = ScrollMeasure { at_bottom: false, ..measure };
    assert_eq!(scroll_percent_label(Some(measure)), "5%");
    let measure = ScrollMeasure { percent: u32::MAX, ..measure };
    assert_eq!(scroll_percent_label(Some(measure)), "4294967295%");
}

#[test]
fn windows_are_numbered_from_one() {
    assert_eq!(window_number(&vec![5, 6, 7], 5), 1);
    assert_eq!(window_number(&vec![5, 6, 7], 7), 3);
    assert_eq!(window_number(&vec![5, 6, 7], 8), 1);
    assert_eq!(window_number(&vec![5, 6, 6], 6), 2);
    assert_eq!(window_number(&Vec::new(), 6), 1);
}

#[test]
fn branches_are_cut_off() {
    assert_eq!(MAX_SEGMENT_TEXT, 40);
    assert_eq!(branch_name(&None), None);
    let fits = "b".repeat(40);
    assert_eq!(branch_name(&Some(fits.clone())), Some(fits.clone()));
    let long = "b".repeat(41);
    assert_eq!(branch_name(&Some(long)), Some(fits + "…"));
}

#[test]
fn agents_are_counted_by_status() {
    assert_eq!(agent_segment(None), None);
    assert_eq!(agent_segment(Some(&registry(&[]))), None);
    let segment = agent_segment(Some(&registry(&[
        AgentStatus::Idle,
        AgentStatus::Blocked,
        AgentStatus::Working,
        AgentStatus::Working,
    ])))
    .expect("agents");
    assert_eq!(segment.kind, SegmentKind::Agents);
    assert_eq!(segment.background, SEG3);
    assert_eq!(
        segment.runs,
        vec![
            run("◉ 1", BarColor::Rgb(0xf2241f), true),
            run("● 2", BarColor::Rgb(0x67b11d), false),
            run("○ 1", BarColor::Rgb(0x7d7a8a), false),
        ]
    );
    let segment = agent_segment(Some(&registry(&[AgentStatus::Working]))).expect("an agent");
    assert_eq!(segment.runs, vec![run("● 1", BarColor::Rgb(0x67b11d), false)]);
}

#[test]
fn arrows_join_their_neighbours() {
    let one = || plain(SEG2, TEXT, "1", false);
    let two = || plain(SEG3, TEXT, "2", false);
    assert_eq!(
        join_rightward(vec![one(), two()], BAR),
        vec![
            BarPiece::Segment(one()),
            right(SEG2, SEG3),
            BarPiece::Segment(two()),
            right(SEG3, BAR),
        ]
    );
    assert_eq!(
        join_leftward(BAR, vec![one(), two()]),
        vec![
            left(BAR, SEG2),
            BarPiece::Segment(one()),
            left(SEG2, SEG3),
            BarPiece::Segment(two()),
        ]
    );
    assert!(join_rightward(Vec::new(), BAR).is_empty());
    assert!(join_leftward(BAR, Vec::new()).is_empty());
}

#[test]
fn an_empty_bar_shows_the_mode() {
    let bar = Spaceline::new().render(&inputs(), None);
    assert_eq!(bar.background, BAR);
    assert_eq!(
        bar.left,
        vec![BarPiece::Segment(state(NORMAL, ON_NORMAL, "NORMAL", "2")), right(NORMAL, BAR)]
    );
    assert!(bar.right.is_empty());
}

#[test]
fn editors_are_shown_in_full() {
    let mut spaceline = Spaceline::new();
    spaceline.set_active_pane_item(item(ItemKind::Editor(snapshot())));
    spaceline.observe_editor(true);
    let bar = spaceline.render(&inputs(), Some(&registry(&[AgentStatus::Blocked])));
    let name = BarSegment {
        kind: SegmentKind::Name,
        background: SEG2,
        badge: None,
        runs: vec![run("file.rs", TEXT, false), run("[+]", BarColor::Rgb(0x7d7a8a), false)],
    };
    let branch = BarSegment { kind: SegmentKind::Branch, ..plain(SEG3, TEXT, "main", false) };
    assert_eq!(
        bar.left,
        vec![
            BarPiece::Segment(state(NORMAL, ON_NORMAL, "NORMAL", "2")),
            right(NORMAL, SEG2),
            BarPiece::Segment(name),
            right(SEG2, SEG3),
            BarPiece::Segment(branch),
            right(SEG3, BAR),
        ]
    );
    let agents = BarSegment {
        kind: SegmentKind::Agents,
        ..plain(SEG3, BarColor::Rgb(0xf2241f), "◉ 1", true)
    };
    assert_eq!(
        bar.right,
        vec![
            left(BAR, SEG3),
            BarPiece::Segment(agents),
            left(SEG3, SEG3),
            BarPiece::Segment(plain(SEG3, TEXT, "Rust", false)),
            left(SEG3, SEG2),
            BarPiece::Segment(plain(SEG2, TEXT, "5:1", false)),
            left(SEG2, NORMAL),
            BarPiece::Segment(plain(NORMAL, ON_NORMAL, "37%", true)),
        ]
    );
}

#[test]
fn names_without_a_branch_end_the_left_side() {
    let mut spaceline = Spaceline::new();
    spaceline.set_active_pane_item(Some(ItemInfo {
        name: "n".repeat(50),
        dirty: false,
        kind: ItemKind::Other,
    }));
    let bar = spaceline.render(&RenderInputs { branch: None, ..inputs() }, None);
    assert_eq!(bar.left.len(), 4);
    match &bar.left[2] {
        BarPiece::Segment(segment) => {
            assert_eq!(segment.runs, vec![run(&("n".repeat(40) + "…"), TEXT, false)]);
        }
        other => panic!("no segment: {:?}", other),
    }
    assert_eq!(bar.left[3], right(SEG2, BAR));
    assert!(bar.right.is_empty());
}

#[test]
fn terminals_have_their_own_state() {
    let mut spaceline = Spaceline::new();
    spaceline.set_active_pane_item(item(ItemKind::Terminal));
    let directory = DirPath {
        components: vec![
            PathComponent::RootDir,
            PathComponent::Normal(vec![b'd', 0xff, b'r']),
        ],
    };
    let with = |vi_mode: bool, working_directory: Option<DirPath>| RenderInputs {
        mode: Some(Mode::Visual),
        terminal: Some(TerminalInfo { vi_mode, working_directory }),
        ..inputs()
    };
    let bar = spaceline.render(&with(true, Some(directory.clone())), None);
    let blue = BarColor::Rgb(0x4f97d7);
    let on_blue = BarColor::Rgb(0x1a1a22);
    assert_eq!(bar.left[0], BarPiece::Segment(state(blue, on_blue, "TERM-VI", "2")));
    assert_eq!(
        bar.right,
        vec![left(BAR, blue), BarPiece::Segment(plain(blue, on_blue, "d\u{fffd}r", true))]
    );
    let bar = spaceline.render(&with(false, Some(path_of_root())), None);
    let insert = BarColor::Theme(ThemeKey::VimInsertBackground);
    let on_insert = BarColor::Theme(ThemeKey::VimInsertForeground);
    assert_eq!(bar.left[0], BarPiece::Segment(state(insert, on_insert, "TERM", "2")));
    assert!(bar.right.is_empty());
    assert!(spaceline.render(&with(false, None), None).right.is_empty());

    let gone = RenderInputs { mode: Some(Mode::Normal), ..inputs() };
    let bar = spaceline.render(&gone, None);
    assert_eq!(bar.left[0], BarPiece::Segment(state(NORMAL, ON_NORMAL, "NORMAL", "2")));
    assert!(bar.right.is_empty());
}

fn path_of_root() -> DirPath {
    DirPath { components: vec![PathComponent::RootDir] }
}

#[test]
fn modes_have_names_and_colors() {
    let mut spaceline = Spaceline::new();
    spaceline.set_active_pane_item(item(ItemKind::Other));
    for (mode, text, background, foreground) in [
        (None, "NORMAL", ThemeKey::VimNormalBackground, ThemeKey::VimNormalForeground),
        (
            Some(Mode::Normal),
            "NORMAL",
            ThemeKey::VimNormalBackground,
            ThemeKey::VimNormalForeground,
        ),
        (
            Some(Mode::Insert),
            "INSERT",
            ThemeKey::VimInsertBackground,
            ThemeKey::VimInsertForeground,
        ),
        (
            Some(Mode::Replace),
            "REPLACE",
            ThemeKey::VimReplaceBackground,
            ThemeKey::VimReplaceForeground,
        ),
        (
            Some(Mode::Visual),
            "VISUAL",
            ThemeKey::VimVisualBackground,
            ThemeKey::VimVisualForeground,
        ),
        (
            Some(Mode::VisualLine),
            "V-LINE",
            ThemeKey::VimVisualLineBackground,
            ThemeKey::VimVisualLineForeground,
        ),
        (
            Some(Mode::VisualBlock),
            "V-BLOCK",
            ThemeKey::VimVisualBlockBackground,
            ThemeKey::VimVisualBlockForeground,
        ),
        (
            Some(Mode::HelixNormal),
            "HELIX",
            ThemeKey::VimHelixNormalBackground,
            ThemeKey::VimHelixNormalForeground,
        ),
        (
            Some(Mode::HelixSelect),
            "SELECT",
            ThemeKey::VimHelixSelectBackground,
            ThemeKey::VimHelixSelectForeground,
        ),
    ] {
        let terminal = Some(TerminalInfo { vi_mode: true, working_directory: None });
        let block = spaceline.block_state(&terminal, mode);
        assert_eq!(block.text, text);
        assert_eq!(block.background, BarColor::Theme(background));
        assert_eq!(block.foreground, BarColor::Theme(foreground));
    }
}

#[test]
fn editor_events_refresh_the_bar() {
    for (event, refreshes) in [
        (EditorEvent::SelectionsChanged, true),
        (EditorEvent::ScrollPositionChanged, true),
        (EditorEvent::BufferEdited, true),
        (EditorEvent::Saved, true),
        (EditorEvent::Other, false),
    ] {
        let mut spaceline = Spaceline::new();
        spaceline.set_active_pane_item(item(ItemKind::Editor(snapshot())));
        let moved = EditorSnapshot {
            row: 9,
            column: 9,
            scroll: None,
            language: None,
        };
        assert_eq!(spaceline.handle_editor_event(event, moved), refreshes);
        let expected = if refreshes { (10, 10) } else { (5, 1) };
        assert_eq!(spaceline.cursor_position, Some(expected));
        let expected = if refreshes { "All" } else { "37%" };
        assert_eq!(spaceline.scroll_percent.as_deref(), Some(expected));
        assert_eq!(spaceline.language_name.is_none(), refreshes);
        assert_eq!(spaceline.item_name.as_deref(), Some("file.rs"));
    }
}

#[test]
fn to_act_as_an_editor_goes_first() {
    for is_terminal in [false, true] {
        let kind = item_kind(Some(snapshot()), is_terminal);
        assert!(matches!(kind, ItemKind::Editor(shown) if shown.row == 4));
    }
    assert!(matches!(item_kind(None, true), ItemKind::Terminal));
    assert!(matches!(item_kind(None, false), ItemKind::Other));
}

#[test]
fn the_bar_follows_the_active_item() {
    let mut spaceline = Spaceline::new();
    assert_eq!(
        spaceline.set_active_pane_item(item(item_kind(Some(snapshot()), true))),
        vec![ItemSubscription::EditorEvents, ItemSubscription::EditorChanges]
    );
    assert_eq!(spaceline.active_item, ActiveItem::Editor);
    assert_eq!(
        spaceline.set_active_pane_item(item(item_kind(None, true))),
        vec![ItemSubscription::TerminalChanges]
    );
    assert!(spaceline.set_active_pane_item(item(item_kind(None, false))).is_empty());
    assert!(spaceline.set_active_pane_item(None).is_empty());
}

#[test]
fn nothing_of_the_item_before_is_kept() {
    let mut spaceline = Spaceline::new();
    spaceline.set_active_pane_item(item(ItemKind::Editor(snapshot())));
    assert_eq!(spaceline.active_item, ActiveItem::Editor);
    spaceline.observe_editor(true);
    spaceline.set_active_pane_item(item(ItemKind::Terminal));
    assert_eq!(spaceline.active_item, ActiveItem::Terminal);
    assert_eq!(spaceline.cursor_position, None);
    assert_eq!(spaceline.scroll_percent, None);
    assert_eq!(spaceline.language_name, None);
    assert!(!spaceline.item_dirty);
    spaceline.set_active_pane_item(item(ItemKind::Other));
    assert_eq!(spaceline.active_item, ActiveItem::Other);
    spaceline.set_active_pane_item(None);
    assert_eq!(spaceline.active_item, ActiveItem::Nothing);
    assert_eq!(spaceline.item_name, None);
}
