//! The spaceline: a powerline status bar with the window's number, the mode,
//! the active item and the branch on its left, and the agents, the language,
//! the cursor and the scroll position on its right.

use crate::agent_registry::{
    law_counts_add_up, terminals_with_status, AgentRegistry, AgentStatus, Agents,
};
use crate::outside::{lossy_utf8, read_lossily};
use crate::palette::{
    dim_text_color, on_state_color, seg2_background, seg3_background, segment_text_color,
    status_color, status_color_of, status_glyph, status_glyph_of, term_vi_background, BarColor,
    ThemeKey,
};
use crate::path::{path_file_name, ComponentView, DirPath};
use crate::powerline::{
    join_leftward, join_rightward, joined_leftward, joined_rightward, pieces_view, runs_view,
    segments_view, Badge, BadgeView, BarPiece, BarSegment, PieceView, RunView, SegmentKind,
    SegmentView, TextRun,
};
use crate::text::{
    decimal, decimal_text, digits_value, law_numerals_say_their_number, trailed_off,
    truncate_and_trailoff,
};
use vstd::prelude::*;
use vstd::utf8::{decode_utf8, valid_utf8};

verus! {

/// How many characters of a name or a branch the bar shows.
pub const MAX_SEGMENT_TEXT: usize = 40;

/// A mode of modal editing.
#[derive(Clone, Copy, Debug, PartialEq, Eq, Structural)]
pub enum Mode {
    Normal,
    Insert,
    Replace,
    Visual,
    VisualLine,
    VisualBlock,
    HelixNormal,
    HelixSelect,
}

/// What kind of item is active.
#[derive(Clone, Copy, Debug, PartialEq, Eq, Structural)]
pub enum ActiveItem {
    Editor,
    Terminal,
    Other,
    Nothing,
}

/// What the bar wants to know of a terminal.
#[derive(Debug)]
pub struct TerminalInfo {
    pub vi_mode: bool,
    pub working_directory: Option<DirPath>,
}

/// How the lines that an editor shows lie in its text.
#[derive(Clone, Copy, Debug, PartialEq, Eq, Structural)]
pub struct ScrollMeasure {
    /// All lines are shown.
    pub all_visible: bool,
    /// The first line is shown.
    pub at_top: bool,
    /// The last line is shown.
    pub at_bottom: bool,
    /// How far the text is scrolled, in percent of how far it can be.
    pub percent: u32,
}

/// What the bar wants to know of an editor.
#[derive(Debug)]
pub struct EditorSnapshot {
    /// The cursor's row, counted from zero.
    pub row: u32,
    /// The cursor's column, counted from zero.
    pub column: u32,
    /// The scroll position, once it is known how many lines can be shown.
    pub scroll: Option<ScrollMeasure>,
    pub language: Option<String>,
}

/// What kind of item an item is.
#[derive(Debug)]
pub enum ItemKind {
    Editor(EditorSnapshot),
    Terminal,
    Other,
}

/// An item that becomes active.
#[derive(Debug)]
pub struct ItemInfo {
    pub name: String,
    pub dirty: bool,
    pub kind: ItemKind,
}

/// Something of the active item that the bar follows.
#[derive(Clone, Copy, Debug, PartialEq, Eq, Structural)]
pub enum ItemSubscription {
    /// The events of the editor, for [`Spaceline::handle_editor_event`].
    EditorEvents,
    /// Any change of the editor, for [`Spaceline::observe_editor`].
    EditorChanges,
    /// Any change of the terminal, upon which the bar is drawn anew.
    TerminalChanges,
}

/// What an editor tells of.
#[derive(Clone, Copy, Debug, PartialEq, Eq, Structural)]
pub enum EditorEvent {
    SelectionsChanged,
    ScrollPositionChanged,
    BufferEdited,
    Saved,
    Other,
}

/// The status bar.
#[derive(Debug)]
pub struct Spaceline {
    pub active_item: ActiveItem,
    pub item_name: Option<String>,
    pub item_dirty: bool,
    /// The cursor's row and column, counted from one.
    pub cursor_position: Option<(u32, u32)>,
    pub scroll_percent: Option<String>,
    pub language_name: Option<String>,
}

/// The state block: the mode in words and its colours.
#[derive(Clone, Copy, Debug, PartialEq, Eq)]
pub struct BlockState {
    pub text: &'static str,
    pub background: BarColor,
    pub foreground: BarColor,
}

/// What a [`BlockState`] stands for.
pub struct BlockView {
    pub text: Seq<char>,
    pub background: BarColor,
    pub foreground: BarColor,
}

impl View for BlockState {
    type V = BlockView;

    open spec fn view(&self) -> BlockView {
        BlockView { text: self.text@, background: self.background, foreground: self.foreground }
    }
}

/// What is drawn around the bar's own state when it is rendered.
#[derive(Debug)]
pub struct RenderInputs {
    /// The mode, if modal editing is on.
    pub mode: Option<Mode>,
    /// The active terminal, if the active item is one and still there.
    pub terminal: Option<TerminalInfo>,
    /// All windows.
    pub windows: Vec<u64>,
    /// The window that the bar is in.
    pub window: u64,
    /// The branch of the active repository.
    pub branch: Option<String>,
}

/// The bar, from left to right on each side.
#[derive(Debug)]
pub struct Bar {
    pub background: BarColor,
    pub left: Vec<BarPiece>,
    pub right: Vec<BarPiece>,
}

/// The state block of a mode. There is one without a mode too, so that the bar
/// is never blank.
pub open spec fn mode_block(mode: Option<Mode>) -> BlockView {
    match mode {
        Some(Mode::Insert) => BlockView {
            text: "INSERT"@,
            background: BarColor::Theme(ThemeKey::VimInsertBackground),
            foreground: BarColor::Theme(ThemeKey::VimInsertForeground),
        },
        Some(Mode::Replace) => BlockView {
            text: "REPLACE"@,
            background: BarColor::Theme(ThemeKey::VimReplaceBackground),
            foreground: BarColor::Theme(ThemeKey::VimReplaceForeground),
        },
        Some(Mode::Visual) => BlockView {
            text: "VISUAL"@,
            background: BarColor::Theme(ThemeKey::VimVisualBackground),
            foreground: BarColor::Theme(ThemeKey::VimVisualForeground),
        },
        Some(Mode::VisualLine) => BlockView {
            text: "V-LINE"@,
            background: BarColor::Theme(ThemeKey::VimVisualLineBackground),
            foreground: BarColor::Theme(ThemeKey::VimVisualLineForeground),
        },
        Some(Mode::VisualBlock) => BlockView {
            text: "V-BLOCK"@,
            background: BarColor::Theme(ThemeKey::VimVisualBlockBackground),
            foreground: BarColor::Theme(ThemeKey::VimVisualBlockForeground),
        },
        Some(Mode::HelixNormal) => BlockView {
            text: "HELIX"@,
            background: BarColor::Theme(ThemeKey::VimHelixNormalBackground),
            foreground: BarColor::Theme(ThemeKey::VimHelixNormalForeground),
        },
        Some(Mode::HelixSelect) => BlockView {
            text: "SELECT"@,
            background: BarColor::Theme(ThemeKey::VimHelixSelectBackground),
            foreground: BarColor::Theme(ThemeKey::VimHelixSelectForeground),
        },
        Some(Mode::Normal) | None => BlockView {
            text: "NORMAL"@,
            background: BarColor::Theme(ThemeKey::VimNormalBackground),
            foreground: BarColor::Theme(ThemeKey::VimNormalForeground),
        },
    }
}

/// The state block: a terminal's own where one is active, else that of the mode.
pub open spec fn block_of(
    active_item: ActiveItem,
    terminal_vi_mode: Option<bool>,
    mode: Option<Mode>,
) -> BlockView {
    match (active_item, terminal_vi_mode) {
        (ActiveItem::Terminal, Some(true)) => BlockView {
            text: "TERM-VI"@,
            background: BarColor::Rgb(0x4f97d7),
            foreground: BarColor::Rgb(0x1a1a22),
        },
        (ActiveItem::Terminal, Some(false)) => BlockView {
            text: "TERM"@,
            background: BarColor::Theme(ThemeKey::VimInsertBackground),
            foreground: BarColor::Theme(ThemeKey::VimInsertForeground),
        },
        _ => mode_block(mode),
    }
}

/// Whether a terminal is in vi mode, where there is a terminal.
pub open spec fn terminal_vi_mode(terminal: Option<TerminalInfo>) -> Option<bool> {
    match terminal {
        Some(terminal) => Some(terminal.vi_mode),
        None => None,
    }
}

/// The words for a scroll position.
pub open spec fn scroll_text(scroll: Option<ScrollMeasure>) -> Seq<char> {
    match scroll {
        None => "All"@,
        Some(measure) => if measure.all_visible {
            "All"@
        } else if measure.at_top {
            "Top"@
        } else if measure.at_bottom {
            "Bot"@
        } else {
            decimal_text(measure.percent as nat) + "%"@
        },
    }
}

/// Writes the words for a scroll position.
pub fn scroll_percent_label(scroll: Option<ScrollMeasure>) -> (label: String)
    ensures
        label@ == scroll_text(scroll),
{
    match scroll {
        None => "All".to_owned(),
        Some(measure) => if measure.all_visible {
            "All".to_owned()
        } else if measure.at_top {
            "Top".to_owned()
        } else if measure.at_bottom {
            "Bot".to_owned()
        } else {
            decimal(measure.percent as u64).concat("%")
        },
    }
}

/// The run that counts the agents with a status, as long as there are any.
pub open spec fn count_run(agents: Agents, status: AgentStatus) -> Seq<RunView> {
    let count = terminals_with_status(agents, status).len();
    if count > 0 {
        seq![
            RunView {
                text: status_glyph_of(status) + " "@ + decimal_text(count),
                color: status_color_of(status),
                bold: status == AgentStatus::Blocked,
            },
        ]
    } else {
        Seq::empty()
    }
}

/// The runs that count the agents: the blocked, the working and the idle ones.
pub open spec fn count_runs(agents: Agents) -> Seq<RunView> {
    count_run(agents, AgentStatus::Blocked) + count_run(agents, AgentStatus::Working) + count_run(
        agents,
        AgentStatus::Idle,
    )
}

/// The segment of the agents; there is none where there are no agents.
pub open spec fn agent_segments(agents: Option<Agents>) -> Seq<SegmentView> {
    match agents {
        Some(agents) => if agents.len() == 0 {
            Seq::empty()
        } else {
            seq![
                SegmentView {
                    kind: SegmentKind::Agents,
                    background: BarColor::Rgb(0x2a2a32),
                    badge: None,
                    runs: count_runs(agents),
                },
            ]
        },
        None => Seq::empty(),
    }
}

/// The number of a window: its position among all, counted from one. A window
/// that is not among them is taken to be the first.
pub open spec fn number_of_window(windows: Seq<u64>, window: u64) -> nat {
    if windows.contains(window) {
        (first_position(windows, window) + 1) as nat
    } else {
        1
    }
}

/// The first position of a window among all.
pub open spec fn first_position(windows: Seq<u64>, window: u64) -> int
    decreases windows.len(),
{
    if windows.len() == 0 || windows[0] == window {
        0
    } else {
        1 + first_position(windows.drop_first(), window)
    }
}

/// A segment that shows one text.
pub open spec fn text_segment(
    background: BarColor,
    color: BarColor,
    text: Seq<char>,
    bold: bool,
) -> SegmentView {
    SegmentView {
        kind: SegmentKind::Plain,
        background,
        badge: None,
        runs: seq![RunView { text, color, bold }],
    }
}

/// The segment of the window and the mode.
pub open spec fn state_segment(block: BlockView, window_number: nat) -> SegmentView {
    SegmentView {
        kind: SegmentKind::State,
        background: block.background,
        badge: Some(
            BadgeView {
                text: decimal_text(window_number),
                background: BarColor::Rgb(0x1a1a22),
                color: block.background,
            },
        ),
        runs: seq![RunView { text: block.text, color: block.foreground, bold: true }],
    }
}

/// The segment of the active item; a mark follows the name of one with unsaved
/// changes.
pub open spec fn name_segment(name: Seq<char>, dirty: bool) -> SegmentView {
    let shown = RunView {
        text: trailed_off(name, MAX_SEGMENT_TEXT as nat),
        color: BarColor::Rgb(0xb2b2b2),
        bold: false,
    };
    SegmentView {
        kind: SegmentKind::Name,
        background: BarColor::Rgb(0x34323e),
        badge: None,
        runs: if dirty {
            seq![shown, RunView { text: "[+]"@, color: BarColor::Rgb(0x7d7a8a), bold: false }]
        } else {
            seq![shown]
        },
    }
}

/// The segment of the branch.
pub open spec fn branch_segment(branch: Seq<char>) -> SegmentView {
    SegmentView {
        kind: SegmentKind::Branch,
        background: BarColor::Rgb(0x2a2a32),
        badge: None,
        runs: seq![
            RunView {
                text: trailed_off(branch, MAX_SEGMENT_TEXT as nat),
                color: BarColor::Rgb(0xb2b2b2),
                bold: false,
            },
        ],
    }
}

/// The text of an optional string.
pub open spec fn text_of(string: Option<String>) -> Option<Seq<char>> {
    match string {
        Some(text) => Some(text@),
        None => None,
    }
}

/// The segments on the left: the state, the active item and its branch. Without
/// an active item there is no branch either.
pub open spec fn left_segments(
    block: BlockView,
    window_number: nat,
    name: Option<Seq<char>>,
    dirty: bool,
    branch: Option<Seq<char>>,
) -> Seq<SegmentView> {
    let state = state_segment(block, window_number);
    match (name, branch) {
        (Some(name), Some(branch)) => seq![
            state,
            name_segment(name, dirty),
            branch_segment(branch),
        ],
        (Some(name), None) => seq![state, name_segment(name, dirty)],
        (None, _) => seq![state],
    }
}

/// The segment of the language.
pub open spec fn language_segments(language: Option<String>) -> Seq<SegmentView> {
    match language {
        Some(name) => seq![
            text_segment(BarColor::Rgb(0x2a2a32), BarColor::Rgb(0xb2b2b2), name@, false),
        ],
        None => Seq::empty(),
    }
}

/// The segment of the cursor.
pub open spec fn cursor_segments(position: Option<(u32, u32)>) -> Seq<SegmentView> {
    match position {
        Some((line, column)) => seq![
            text_segment(
                BarColor::Rgb(0x34323e),
                BarColor::Rgb(0xb2b2b2),
                decimal_text(line as nat) + ":"@ + decimal_text(column as nat),
                false,
            ),
        ],
        None => Seq::empty(),
    }
}

/// The outermost segment, in the colour of the state.
pub open spec fn last_segments(block: BlockView, text: Option<Seq<char>>) -> Seq<SegmentView> {
    match text {
        Some(text) => seq![text_segment(block.background, block.foreground, text, true)],
        None => Seq::empty(),
    }
}

/// The name of the directory that a terminal is in.
pub open spec fn terminal_directory(terminal: Option<TerminalInfo>) -> Option<Seq<char>> {
    match terminal {
        Some(TerminalInfo { working_directory: Some(directory), .. }) => match path_file_name(
            directory@,
        ) {
            Some(name) => Some(lossy_utf8(name)),
            None => None,
        },
        _ => None,
    }
}

/// Whether the name of a terminal's directory is read as it is encoded, where
/// it is UTF-8.
pub open spec fn terminal_name_is_exact(terminal: Option<TerminalInfo>) -> bool {
    terminal matches Some(TerminalInfo { working_directory: Some(directory), .. }) ==> (
    path_file_name(directory@) matches Some(name) ==> (valid_utf8(name) ==> lossy_utf8(name)
        == decode_utf8(name)))
}

/// The segments on the right, from the middle of the bar to its end: the
/// agents, then those of the editor or the terminal that is active.
pub open spec fn right_segments(
    spaceline: Spaceline,
    block: BlockView,
    terminal: Option<TerminalInfo>,
    agents: Option<Agents>,
) -> Seq<SegmentView> {
    agent_segments(agents) + match spaceline.active_item {
        ActiveItem::Editor => language_segments(spaceline.language_name) + cursor_segments(
            spaceline.cursor_position,
        ) + last_segments(block, text_of(spaceline.scroll_percent)),
        ActiveItem::Terminal => last_segments(block, terminal_directory(terminal)),
        ActiveItem::Other | ActiveItem::Nothing => Seq::empty(),
    }
}

/// The agents of a registry, where there is one.
pub open spec fn agents_of(registry: Option<&AgentRegistry>) -> Option<Agents> {
    match registry {
        Some(registry) => Some(registry@),
        None => None,
    }
}

/// Whether an editor's cursor can be counted from one.
pub open spec fn is_countable(snapshot: EditorSnapshot) -> bool {
    snapshot.row < u32::MAX && snapshot.column < u32::MAX
}

/// Whether what the bar shows of an editor is what the editor tells.
pub open spec fn shows_editor(spaceline: Spaceline, snapshot: EditorSnapshot) -> bool {
    &&& spaceline.cursor_position matches Some((line, column))
    &&& line == snapshot.row + 1
    &&& column == snapshot.column + 1
    &&& text_of(spaceline.scroll_percent) == Some(scroll_text(snapshot.scroll))
    &&& spaceline.language_name == snapshot.language
}

/// Whether the bar shows nothing of an editor.
pub open spec fn shows_no_editor(spaceline: Spaceline) -> bool {
    &&& spaceline.cursor_position.is_none()
    &&& spaceline.scroll_percent.is_none()
    &&& spaceline.language_name.is_none()
}

/// What kind of item one is that acts as an editor, as a terminal, as both or
/// as neither: to act as an editor goes before to act as a terminal.
pub open spec fn kind_of_item(editor: Option<EditorSnapshot>, is_terminal: bool) -> ItemKind {
    match editor {
        Some(snapshot) => ItemKind::Editor(snapshot),
        None => if is_terminal {
            ItemKind::Terminal
        } else {
            ItemKind::Other
        },
    }
}

/// What the bar follows while an item, or none, is active.
pub open spec fn subscriptions_of(item: Option<ItemInfo>) -> Seq<ItemSubscription> {
    match item {
        Some(ItemInfo { kind: ItemKind::Editor(_), .. }) => seq![
            ItemSubscription::EditorEvents,
            ItemSubscription::EditorChanges,
        ],
        Some(ItemInfo { kind: ItemKind::Terminal, .. }) => seq![ItemSubscription::TerminalChanges],
        _ => Seq::empty(),
    }
}

/// Whether the bar shows an item, or none, and nothing besides.
pub open spec fn shows_item(spaceline: Spaceline, item: Option<ItemInfo>) -> bool {
    match item {
        None => spaceline == (Spaceline {
            active_item: ActiveItem::Nothing,
            item_name: None,
            item_dirty: false,
            cursor_position: None,
            scroll_percent: None,
            language_name: None,
        }),
        Some(item) => {
            &&& spaceline.item_name == Some(item.name)
            &&& spaceline.item_dirty == item.dirty
            &&& match item.kind {
                ItemKind::Editor(snapshot) => spaceline.active_item == ActiveItem::Editor
                    && shows_editor(spaceline, snapshot),
                ItemKind::Terminal => spaceline.active_item == ActiveItem::Terminal
                    && shows_no_editor(spaceline),
                ItemKind::Other => spaceline.active_item == ActiveItem::Other && shows_no_editor(
                    spaceline,
                ),
            }
        },
    }
}

/// Whether an event of an editor changes what the bar shows of it.
pub open spec fn is_shown_event(event: EditorEvent) -> bool {
    match event {
        EditorEvent::SelectionsChanged
        | EditorEvent::ScrollPositionChanged
        | EditorEvent::BufferEdited
        | EditorEvent::Saved => true,
        EditorEvent::Other => false,
    }
}

/// A segment that shows one text.
fn segment(background: BarColor, color: BarColor, text: String, bold: bool) -> (segment: BarSegment)
    ensures
        segment@ == text_segment(background, color, text@, bold),
{
    let ghost shown = text@;
    let mut runs: Vec<TextRun> = Vec::new();
    runs.push(TextRun { text, color, bold });
    assert(runs_view(runs@) =~= seq![RunView { text: shown, color, bold }]);
    BarSegment { kind: SegmentKind::Plain, background, badge: None, runs }
}

fn push_segment(segments: &mut Vec<BarSegment>, segment: BarSegment)
    ensures
        segments_view(final(segments)@) == segments_view(old(segments)@).push(segment@),
{
    let ghost before = segments_view(segments@);
    let ghost shown = segment@;
    segments.push(segment);
    assert(segments_view(segments@) =~= before.push(shown));
}

fn push_count(runs: &mut Vec<TextRun>, registry: &AgentRegistry, status: AgentStatus)
    requires
        registry.well_formed(),
    ensures
        runs_view(final(runs)@) == runs_view(old(runs)@) + count_run(registry@, status),
{
    let ghost before = runs_view(runs@);
    let count = registry.count_with_status(status);
    if count > 0 {
        let text = status_glyph(status).to_owned().concat(" ").concat(
            decimal(count as u64).as_str(),
        );
        let bold = status == AgentStatus::Blocked;
        runs.push(TextRun { text, color: status_color(status), bold });
    }
    assert(runs_view(runs@) =~= before + count_run(registry@, status));
}

/// The aggregate counts of agents across all windows: blocked in red, working
/// in green, idle dimmed. There is no segment where there are no agents.
pub fn agent_segment(registry: Option<&AgentRegistry>) -> (segment: Option<BarSegment>)
    requires
        registry matches Some(registry) ==> registry.well_formed(),
    ensures
        (match segment {
            Some(segment) => seq![segment@],
            None => Seq::empty(),
        }) == agent_segments(agents_of(registry)),
{
    match registry {
        Some(registry) => {
            let blocked = registry.count_with_status(AgentStatus::Blocked);
            let working = registry.count_with_status(AgentStatus::Working);
            let idle = registry.count_with_status(AgentStatus::Idle);
            proof {
                registry.lemma_finite();
                law_counts_add_up(registry@);
            }
            if blocked == 0 && working == 0 && idle == 0 {
                return None;
            }
            let mut runs: Vec<TextRun> = Vec::new();
            assert(runs_view(runs@) =~= Seq::empty());
            push_count(&mut runs, registry, AgentStatus::Blocked);
            push_count(&mut runs, registry, AgentStatus::Working);
            push_count(&mut runs, registry, AgentStatus::Idle);
            assert(runs_view(runs@) =~= count_runs(registry@));
            Some(
                BarSegment {
                    kind: SegmentKind::Agents,
                    background: seg3_background(),
                    badge: None,
                    runs,
                },
            )
        },
        None => None,
    }
}

/// The number of a window among all windows.
pub fn window_number(windows: &Vec<u64>, window: u64) -> (number: usize)
    ensures
        number == number_of_window(windows@, window),
{
    let mut index: usize = 0;
    assert(windows@.skip(0) =~= windows@);
    while index < windows.len()
        invariant
            index <= windows@.len(),
            forall|i: int| 0 <= i < index ==> windows@[i] != window,
            first_position(windows@, window) == index + first_position(
                windows@.skip(index as int),
                window,
            ),
        decreases windows.len() - index,
    {
        assert(windows@.skip(index as int)[0] == windows@[index as int]);
        if windows[index] == window {
            assert(windows@.contains(window));
            return index + 1;
        }
        assert(windows@.skip(index as int).drop_first() =~= windows@.skip(index + 1));
        index = index + 1;
    }
    1
}

/// The branch as the bar shows it.
pub fn branch_name(branch: &Option<String>) -> (shown: Option<String>)
    ensures
        text_of(shown) == (match *branch {
            Some(name) => Some(trailed_off(name@, MAX_SEGMENT_TEXT as nat)),
            None => None,
        }),
{
    match branch {
        Some(name) => Some(truncate_and_trailoff(name.as_str(), MAX_SEGMENT_TEXT)),
        None => None,
    }
}

fn directory_name(terminal: &Option<TerminalInfo>) -> (name: Option<String>)
    ensures
        text_of(name) == terminal_directory(*terminal),
        terminal_name_is_exact(*terminal),
{
    match terminal {
        Some(terminal) => match &terminal.working_directory {
            Some(directory) => match directory.file_name() {
                Some(name) => Some(read_lossily(&name)),
                None => None,
            },
            None => None,
        },
        None => None,
    }
}

/// What kind of item one is that acts as these: an item that acts as an editor
/// is one, even where it acts as a terminal too.
pub fn item_kind(editor: Option<EditorSnapshot>, is_terminal: bool) -> (kind: ItemKind)
    ensures
        editor matches Some(snapshot) ==> kind == ItemKind::Editor(snapshot),
        editor is None && is_terminal ==> kind is Terminal,
        editor is None && !is_terminal ==> kind is Other,
        kind == kind_of_item(editor, is_terminal),
{
    match editor {
        Some(snapshot) => ItemKind::Editor(snapshot),
        None => if is_terminal {
            ItemKind::Terminal
        } else {
            ItemKind::Other
        },
    }
}

impl Spaceline {
    /// A bar has a cursor and a scroll position when and only when it shows an
    /// editor, a language only then, and a name when and only when it shows an
    /// item; without an item nothing is unsaved.
    pub open spec fn well_formed(self) -> bool {
        &&& self.cursor_position.is_some() == (self.active_item == ActiveItem::Editor)
        &&& self.scroll_percent.is_some() == (self.active_item == ActiveItem::Editor)
        &&& self.language_name.is_some() ==> self.active_item == ActiveItem::Editor
        &&& self.item_name.is_some() == (self.active_item != ActiveItem::Nothing)
        &&& self.active_item == ActiveItem::Nothing ==> !self.item_dirty
    }

    /// A bar that shows no item yet.
    pub fn new() -> (spaceline: Self)
        ensures
            spaceline.well_formed(),
            spaceline == (Spaceline {
                active_item: ActiveItem::Nothing,
                item_name: None,
                item_dirty: false,
                cursor_position: None,
                scroll_percent: None,
                language_name: None,
            }),
    {
        Spaceline {
            active_item: ActiveItem::Nothing,
            item_name: None,
            item_dirty: false,
            cursor_position: None,
            scroll_percent: None,
            language_name: None,
        }
    }

    /// Takes in what the active editor tells.
    pub fn refresh_editor_state(&mut self, snapshot: EditorSnapshot)
        requires
            is_countable(snapshot),
        ensures
            shows_editor(*final(self), snapshot),
            final(self).active_item == old(self).active_item,
            final(self).item_name == old(self).item_name,
            final(self).item_dirty == old(self).item_dirty,
            old(self).well_formed() && old(self).active_item == ActiveItem::Editor
                ==> final(self).well_formed(),
    {
        self.cursor_position = Some((snapshot.row + 1, snapshot.column + 1));
        self.scroll_percent = Some(scroll_percent_label(snapshot.scroll));
        self.language_name = snapshot.language;
    }

    /// Takes in an event of the active editor: what the bar shows follows those
    /// that change it, and no others. Says whether it did.
    pub fn handle_editor_event(&mut self, event: EditorEvent, snapshot: EditorSnapshot) -> (shown:
        bool)
        requires
            is_shown_event(event) ==> is_countable(snapshot),
        ensures
            shown == is_shown_event(event),
            shown ==> {
                &&& shows_editor(*final(self), snapshot)
                &&& final(self).active_item == old(self).active_item
                &&& final(self).item_name == old(self).item_name
                &&& final(self).item_dirty == old(self).item_dirty
            },
            !shown ==> *final(self) == *old(self),
            old(self).well_formed() && old(self).active_item == ActiveItem::Editor
                ==> final(self).well_formed(),
    {
        match event {
            EditorEvent::SelectionsChanged
            | EditorEvent::ScrollPositionChanged
            | EditorEvent::BufferEdited
            | EditorEvent::Saved => {
                self.refresh_editor_state(snapshot);
                true
            },
            EditorEvent::Other => false,
        }
    }

    /// Takes in that the active editor may have got or lost unsaved changes.
    pub fn observe_editor(&mut self, dirty: bool)
        ensures
            *final(self) == (Spaceline { item_dirty: dirty, ..*old(self) }),
            old(self).well_formed() && old(self).active_item == ActiveItem::Editor
                ==> final(self).well_formed(),
    {
        self.item_dirty = dirty;
    }

    /// Takes in that another item, or none, is active. Nothing of the item
    /// before is kept. Says what the bar is to follow from now on, in place of
    /// all that it followed; it is to be drawn anew in any case.
    pub fn set_active_pane_item(&mut self, item: Option<ItemInfo>) -> (subscriptions: Vec<
        ItemSubscription,
    >)
        requires
            item matches Some(ItemInfo { kind: ItemKind::Editor(snapshot), .. }) ==> is_countable(
                snapshot,
            ),
        ensures
            final(self).well_formed(),
            shows_item(*final(self), item),
            subscriptions@ == subscriptions_of(item),
    {
        let ghost active = item;
        let mut subscriptions: Vec<ItemSubscription> = Vec::new();
        self.cursor_position = None;
        self.scroll_percent = None;
        self.language_name = None;
        match item {
            Some(item) => {
                self.item_name = Some(item.name);
                self.item_dirty = item.dirty;
                match item.kind {
                    ItemKind::Editor(snapshot) => {
                        self.active_item = ActiveItem::Editor;
                        subscriptions.push(ItemSubscription::EditorEvents);
                        subscriptions.push(ItemSubscription::EditorChanges);
                        self.refresh_editor_state(snapshot);
                    },
                    ItemKind::Terminal => {
                        self.active_item = ActiveItem::Terminal;
                        subscriptions.push(ItemSubscription::TerminalChanges);
                    },
                    ItemKind::Other => {
                        self.active_item = ActiveItem::Other;
                    },
                }
            },
            None => {
                self.item_name = None;
                self.item_dirty = false;
                self.active_item = ActiveItem::Nothing;
            },
        }
        assert(subscriptions@ =~= subscriptions_of(active));
        subscriptions
    }

    /// The state block: the mode in words and its colours.
    pub fn block_state(&self, terminal: &Option<TerminalInfo>, mode: Option<Mode>) -> (block:
        BlockState)
        ensures
            block@ == block_of(self.active_item, terminal_vi_mode(*terminal), mode),
    {
        if self.active_item == ActiveItem::Terminal {
            if let Some(terminal) = terminal {
                return if terminal.vi_mode {
                    BlockState {
                        text: "TERM-VI",
                        background: term_vi_background(),
                        foreground: on_state_color(),
                    }
                } else {
                    BlockState {
                        text: "TERM",
                        background: BarColor::Theme(ThemeKey::VimInsertBackground),
                        foreground: BarColor::Theme(ThemeKey::VimInsertForeground),
                    }
                };
            }
        }
        match mode {
            Some(Mode::Insert) => BlockState {
                text: "INSERT",
                background: BarColor::Theme(ThemeKey::VimInsertBackground),
                foreground: BarColor::Theme(ThemeKey::VimInsertForeground),
            },
            Some(Mode::Replace) => BlockState {
                text: "REPLACE",
                background: BarColor::Theme(ThemeKey::VimReplaceBackground),
                foreground: BarColor::Theme(ThemeKey::VimReplaceForeground),
            },
            Some(Mode::Visual) => BlockState {
                text: "VISUAL",
                background: BarColor::Theme(ThemeKey::VimVisualBackground),
                foreground: BarColor::Theme(ThemeKey::VimVisualForeground),
            },
            Some(Mode::VisualLine) => BlockState {
                text: "V-LINE",
                background: BarColor::Theme(ThemeKey::VimVisualLineBackground),
                foreground: BarColor::Theme(ThemeKey::VimVisualLineForeground),
            },
            Some(Mode::VisualBlock) => BlockState {
                text: "V-BLOCK",
                background: BarColor::Theme(ThemeKey::VimVisualBlockBackground),
                foreground: BarColor::Theme(ThemeKey::VimVisualBlockForeground),
            },
            Some(Mode::HelixNormal) => BlockState {
                text: "HELIX",
                background: BarColor::Theme(ThemeKey::VimHelixNormalBackground),
                foreground: BarColor::Theme(ThemeKey::VimHelixNormalForeground),
            },
            Some(Mode::HelixSelect) => BlockState {
                text: "SELECT",
                background: BarColor::Theme(ThemeKey::VimHelixSelectBackground),
                foreground: BarColor::Theme(ThemeKey::VimHelixSelectForeground),
            },
            Some(Mode::Normal) | None => BlockState {
                text: "NORMAL",
                background: BarColor::Theme(ThemeKey::VimNormalBackground),
                foreground: BarColor::Theme(ThemeKey::VimNormalForeground),
            },
        }
    }

    fn left_chain(&self, block: &BlockState, number: usize, branch: &Option<String>) -> (segments:
        Vec<BarSegment>)
        ensures
            segments_view(segments@) == left_segments(
                block@,
                number as nat,
                text_of(self.item_name),
                self.item_dirty,
                text_of(*branch),
            ),
    {
        let mut segments: Vec<BarSegment> = Vec::new();
        assert(segments_view(segments@) =~= Seq::empty());
        let mut state = segment(block.background, block.foreground, block.text.to_owned(), true);
        state.kind = SegmentKind::State;
        state.badge = Some(
            Badge {
                text: decimal(number as u64),
                background: on_state_color(),
                color: block.background,
            },
        );
        assert(state@ == state_segment(block@, number as nat));
        push_segment(&mut segments, state);
        if let Some(name) = &self.item_name {
            let shown = truncate_and_trailoff(name.as_str(), MAX_SEGMENT_TEXT);
            let mut named = segment(seg2_background(), segment_text_color(), shown, false);
            named.kind = SegmentKind::Name;
            if self.item_dirty {
                let ghost runs = named@.runs;
                let mark = TextRun {
                    text: "[+]".to_owned(),
                    color: dim_text_color(),
                    bold: false,
                };
                let ghost marked = mark@;
                named.runs.push(mark);
                assert(named@.runs =~= runs.push(marked));
            }
            assert(named@.runs =~= name_segment(name@, self.item_dirty).runs);
            assert(named@ == name_segment(name@, self.item_dirty));
            push_segment(&mut segments, named);
            if let Some(shown) = branch_name(branch) {
                let mut on_branch = segment(
                    seg3_background(),
                    segment_text_color(),
                    shown,
                    false,
                );
                on_branch.kind = SegmentKind::Branch;
                assert(on_branch@ == branch_segment(branch.unwrap()@));
                push_segment(&mut segments, on_branch);
            }
        }
        assert(segments_view(segments@) =~= left_segments(
            block@,
            number as nat,
            text_of(self.item_name),
            self.item_dirty,
            text_of(*branch),
        ));
        segments
    }

    fn right_chain(
        &self,
        block: &BlockState,
        terminal: &Option<TerminalInfo>,
        registry: Option<&AgentRegistry>,
    ) -> (segments: Vec<BarSegment>)
        requires
            registry matches Some(registry) ==> registry.well_formed(),
        ensures
            segments_view(segments@) == right_segments(
                *self,
                block@,
                *terminal,
                agents_of(registry),
            ),
            self.active_item == ActiveItem::Terminal ==> terminal_name_is_exact(*terminal),
    {
        let mut segments: Vec<BarSegment> = Vec::new();
        assert(segments_view(segments@) =~= Seq::empty());
        if let Some(agents) = agent_segment(registry) {
            push_segment(&mut segments, agents);
        }
        assert(segments_view(segments@) =~= agent_segments(agents_of(registry)));
        match self.active_item {
            ActiveItem::Editor => {
                if let Some(language) = &self.language_name {
                    push_segment(
                        &mut segments,
                        segment(
                            seg3_background(),
                            segment_text_color(),
                            language.clone(),
                            false,
                        ),
                    );
                }
                if let Some((line, column)) = self.cursor_position {
                    let text = decimal(line as u64).concat(":").concat(
                        decimal(column as u64).as_str(),
                    );
                    push_segment(
                        &mut segments,
                        segment(seg2_background(), segment_text_color(), text, false),
                    );
                }
                if let Some(scroll) = &self.scroll_percent {
                    push_segment(
                        &mut segments,
                        segment(block.background, block.foreground, scroll.clone(), true),
                    );
                }
            },
            ActiveItem::Terminal => {
                if let Some(directory) = directory_name(terminal) {
                    push_segment(
                        &mut segments,
                        segment(block.background, block.foreground, directory, true),
                    );
                }
            },
            ActiveItem::Other | ActiveItem::Nothing => {},
        }
        assert(segments_view(segments@) =~= right_segments(
            *self,
            block@,
            *terminal,
            agents_of(registry),
        ));
        segments
    }

    /// Lays the bar out.
    pub fn render(&self, inputs: &RenderInputs, registry: Option<&AgentRegistry>) -> (bar: Bar)
        requires
            registry matches Some(registry) ==> registry.well_formed(),
        ensures
            bar.background == BarColor::Theme(ThemeKey::StatusBarBackground),
            ({
                let block = block_of(
                    self.active_item,
                    terminal_vi_mode(inputs.terminal),
                    inputs.mode,
                );
                &&& pieces_view(bar.left@) == joined_rightward(
                    left_segments(
                        block,
                        number_of_window(inputs.windows@, inputs.window),
                        text_of(self.item_name),
                        self.item_dirty,
                        text_of(inputs.branch),
                    ),
                    bar.background,
                )
                &&& pieces_view(bar.right@) == joined_leftward(
                    bar.background,
                    right_segments(*self, block, inputs.terminal, agents_of(registry)),
                )
            }),
            self.active_item == ActiveItem::Terminal ==> terminal_name_is_exact(inputs.terminal),
    {
        let block = self.block_state(&inputs.terminal, inputs.mode);
        let number = window_number(&inputs.windows, inputs.window);
        let background = BarColor::Theme(ThemeKey::StatusBarBackground);
        let left = join_rightward(self.left_chain(&block, number, &inputs.branch), background);
        let right = join_leftward(
            background,
            self.right_chain(&block, &inputs.terminal, registry),
        );
        Bar { background, left, right }
    }
}

/// Whatever the bar showed before, the item that becomes active decides what it
/// shows and follows. It shows an editor when and only when the item acts as
/// one, a terminal when and only when the item acts as one and not as an editor,
/// another item for any other, and nothing without an item. It has a cursor and
/// a scroll position for an editor alone, and follows two things of an editor,
/// one of a terminal and none of anything else.
pub proof fn law_the_item_decides_what_the_bar_shows(
    spaceline: Spaceline,
    item: Option<ItemInfo>,
    editor: Option<EditorSnapshot>,
    is_terminal: bool,
)
    requires
        item matches Some(item) ==> item.kind == kind_of_item(editor, is_terminal),
        shows_item(spaceline, item),
    ensures
        spaceline.active_item == ActiveItem::Editor <==> item.is_some() && editor.is_some(),
        spaceline.active_item == ActiveItem::Terminal <==> item.is_some() && editor.is_none()
            && is_terminal,
        spaceline.active_item == ActiveItem::Other <==> item.is_some() && editor.is_none()
            && !is_terminal,
        spaceline.active_item == ActiveItem::Nothing <==> item.is_none(),
        spaceline.cursor_position.is_some() <==> item.is_some() && editor.is_some(),
        spaceline.scroll_percent.is_some() <==> item.is_some() && editor.is_some(),
        spaceline.language_name.is_some() ==> item.is_some() && editor.is_some(),
        spaceline.item_name.is_some() <==> item.is_some(),
        item.is_none() ==> !spaceline.item_dirty,
        subscriptions_of(item).len() == (if item.is_none() {
            0
        } else if editor.is_some() {
            2
        } else if is_terminal {
            1
        } else {
            0nat
        }),
{
}

/// The state block always says something: the bar is never blank.
pub proof fn law_the_bar_is_never_blank(
    active_item: ActiveItem,
    terminal: Option<bool>,
    mode: Option<Mode>,
    window_number: nat,
    name: Option<Seq<char>>,
    dirty: bool,
    branch: Option<Seq<char>>,
)
    ensures
        block_of(active_item, terminal, mode).text.len() > 0,
        left_segments(
            block_of(active_item, terminal, mode),
            window_number,
            name,
            dirty,
            branch,
        ).len() > 0,
        left_segments(
            block_of(active_item, terminal, mode),
            window_number,
            name,
            dirty,
            branch,
        )[0] == state_segment(block_of(active_item, terminal, mode), window_number),
{
    reveal_strlit("NORMAL");
    reveal_strlit("INSERT");
    reveal_strlit("REPLACE");
    reveal_strlit("VISUAL");
    reveal_strlit("V-LINE");
    reveal_strlit("V-BLOCK");
    reveal_strlit("HELIX");
    reveal_strlit("SELECT");
    reveal_strlit("TERM");
    reveal_strlit("TERM-VI");
}

proof fn lemma_first_position(windows: Seq<u64>, window: u64)
    requires
        windows.contains(window),
    ensures
        0 <= first_position(windows, window) < windows.len(),
        windows[first_position(windows, window)] == window,
    decreases windows.len(),
{
    if windows[0] != window {
        let at = windows.index_of(window);
        assert(windows.drop_first()[at - 1] == window);
        lemma_first_position(windows.drop_first(), window);
    }
}

/// Different windows have different numbers, from one to the number of windows.
pub proof fn law_windows_are_told_apart(windows: Seq<u64>, first: u64, second: u64)
    requires
        windows.contains(first),
        windows.contains(second),
    ensures
        1 <= number_of_window(windows, first) <= windows.len(),
        number_of_window(windows, first) == number_of_window(windows, second) ==> first == second,
{
    lemma_first_position(windows, first);
    lemma_first_position(windows, second);
}

/// The agents' segment is there when and only when there are agents, and then
/// counts at least one status.
pub proof fn law_agents_are_shown_when_there_are_any(agents: Agents)
    requires
        agents.dom().finite(),
    ensures
        agents.len() == 0 ==> agent_segments(Some(agents)).len() == 0,
        agents.len() > 0 ==> agent_segments(Some(agents)).len() == 1 && agent_segments(
            Some(agents),
        )[0].runs.len() > 0,
        agent_segments(None).len() == 0,
{
    law_counts_add_up(agents);
}

/// Unless a terminal that is still there is active, the state block depends on
/// the mode alone, whatever is active: different modes differ in their words, in
/// their backgrounds and in their foregrounds, and to have no mode is to be in
/// normal mode.
pub proof fn law_the_mode_is_shown_whatever_is_active(
    active_item: ActiveItem,
    terminal: Option<bool>,
    other_item: ActiveItem,
    other_terminal: Option<bool>,
    mode: Mode,
    other_mode: Mode,
)
    requires
        !(active_item == ActiveItem::Terminal && terminal.is_some()),
        !(other_item == ActiveItem::Terminal && other_terminal.is_some()),
    ensures
        block_of(active_item, terminal, Some(mode)) == block_of(
            other_item,
            other_terminal,
            Some(mode),
        ),
        block_of(active_item, terminal, None) == block_of(
            other_item,
            other_terminal,
            Some(Mode::Normal),
        ),
        mode != other_mode ==> {
            let one = block_of(active_item, terminal, Some(mode));
            let other = block_of(other_item, other_terminal, Some(other_mode));
            &&& one.text != other.text
            &&& one.background != other.background
            &&& one.foreground != other.foreground
        },
{
    reveal_strlit("NORMAL");
    reveal_strlit("INSERT");
    reveal_strlit("REPLACE");
    reveal_strlit("VISUAL");
    reveal_strlit("V-LINE");
    reveal_strlit("V-BLOCK");
    reveal_strlit("HELIX");
    reveal_strlit("SELECT");
    let one = mode_block(Some(mode)).text;
    let other = mode_block(Some(other_mode)).text;
    assert(mode != other_mode ==> one.len() != other.len() || one[0] != other[0] || one[1]
        != other[1]);
}

/// Each mode is told in its own word and in its own colours of the theme.
pub proof fn law_each_mode_has_its_word_and_colors(active_item: ActiveItem, terminal: Option<bool>)
    requires
        !(active_item == ActiveItem::Terminal && terminal.is_some()),
    ensures
        block_of(active_item, terminal, Some(Mode::Normal)) == (BlockView {
            text: "NORMAL"@,
            background: BarColor::Theme(ThemeKey::VimNormalBackground),
            foreground: BarColor::Theme(ThemeKey::VimNormalForeground),
        }),
        block_of(active_item, terminal, Some(Mode::Insert)) == (BlockView {
            text: "INSERT"@,
            background: BarColor::Theme(ThemeKey::VimInsertBackground),
            foreground: BarColor::Theme(ThemeKey::VimInsertForeground),
        }),
        block_of(active_item, terminal, Some(Mode::Replace)) == (BlockView {
            text: "REPLACE"@,
            background: BarColor::Theme(ThemeKey::VimReplaceBackground),
            foreground: BarColor::Theme(ThemeKey::VimReplaceForeground),
        }),
        block_of(active_item, terminal, Some(Mode::Visual)) == (BlockView {
            text: "VISUAL"@,
            background: BarColor::Theme(ThemeKey::VimVisualBackground),
            foreground: BarColor::Theme(ThemeKey::VimVisualForeground),
        }),
        block_of(active_item, terminal, Some(Mode::VisualLine)) == (BlockView {
            text: "V-LINE"@,
            background: BarColor::Theme(ThemeKey::VimVisualLineBackground),
            foreground: BarColor::Theme(ThemeKey::VimVisualLineForeground),
        }),
        block_of(active_item, terminal, Some(Mode::VisualBlock)) == (BlockView {
            text: "V-BLOCK"@,
            background: BarColor::Theme(ThemeKey::VimVisualBlockBackground),
            foreground: BarColor::Theme(ThemeKey::VimVisualBlockForeground),
        }),
        block_of(active_item, terminal, Some(Mode::HelixNormal)) == (BlockView {
            text: "HELIX"@,
            background: BarColor::Theme(ThemeKey::VimHelixNormalBackground),
            foreground: BarColor::Theme(ThemeKey::VimHelixNormalForeground),
        }),
        block_of(active_item, terminal, Some(Mode::HelixSelect)) == (BlockView {
            text: "SELECT"@,
            background: BarColor::Theme(ThemeKey::VimHelixSelectBackground),
            foreground: BarColor::Theme(ThemeKey::VimHelixSelectForeground),
        }),
{
}

/// A terminal that is still there is told as one whatever the mode is, and in vi
/// mode in another way than out of it.
pub proof fn law_a_terminal_is_told_as_one(
    mode: Option<Mode>,
    terminal: Option<TerminalInfo>,
    block: BlockState,
)
    ensures
        block_of(ActiveItem::Terminal, Some(true), mode) == (BlockView {
            text: "TERM-VI"@,
            background: BarColor::Rgb(0x4f97d7),
            foreground: BarColor::Rgb(0x1a1a22),
        }),
        block_of(ActiveItem::Terminal, Some(false), mode) == (BlockView {
            text: "TERM"@,
            background: BarColor::Theme(ThemeKey::VimInsertBackground),
            foreground: BarColor::Theme(ThemeKey::VimInsertForeground),
        }),
        terminal.is_none() ==> terminal_vi_mode(terminal).is_none() && terminal_directory(
            terminal,
        ).is_none(),
        terminal matches Some(info) ==> terminal_vi_mode(terminal) == Some(info.vi_mode),
        terminal matches Some(info) ==> (info.working_directory.is_none() ==> terminal_directory(
            terminal,
        ).is_none()),
        terminal matches Some(info) ==> (info.working_directory matches Some(directory)
            ==> match path_file_name(directory@) {
            Some(name) => terminal_directory(terminal) == Some(lossy_utf8(name)),
            None => terminal_directory(terminal).is_none(),
        }),
        block@.text == block.text@,
        block@.background == block.background,
        block@.foreground == block.foreground,
{
}

/// A scroll position is told in one of four ways: all lines are shown, or it is
/// not known how many can be; else the first one is; else the last one is; else
/// the percentage, with its sign.
pub proof fn law_scroll_positions_are_told_in_four_ways(measure: ScrollMeasure)
    ensures
        scroll_text(None) == "All"@,
        measure.all_visible ==> scroll_text(Some(measure)) == "All"@,
        !measure.all_visible && measure.at_top ==> scroll_text(Some(measure)) == "Top"@,
        !measure.all_visible && !measure.at_top && measure.at_bottom ==> scroll_text(Some(measure))
            == "Bot"@,
        !measure.all_visible && !measure.at_top && !measure.at_bottom ==> {
            let text = scroll_text(Some(measure));
            &&& text.len() > 1
            &&& text.last() == '%'
            &&& digits_value(text.drop_last()) == measure.percent
            &&& text.drop_last() == decimal_text(measure.percent as nat)
        },
{
    reveal_strlit("%");
    let digits = decimal_text(measure.percent as nat);
    law_numerals_say_their_number(measure.percent as nat);
    assert((digits + "%"@).drop_last() =~= digits);
}

/// The agents' segment tells how many agents there are of each status that any
/// has, the blocked ones first and in bold, then the working and then the idle
/// ones, each count with the sign and in the colour of its status.
pub proof fn law_counts_are_told_by_status(agents: Agents)
    ensures
        ({
            let blocked = terminals_with_status(agents, AgentStatus::Blocked).len();
            let working = terminals_with_status(agents, AgentStatus::Working).len();
            let idle = terminals_with_status(agents, AgentStatus::Idle).len();
            let runs = count_runs(agents);
            let before_working: int = if blocked > 0 {
                1
            } else {
                0
            };
            let before_idle: int = before_working + if working > 0 {
                1int
            } else {
                0
            };
            &&& runs.len() == before_idle + if idle > 0 {
                1int
            } else {
                0
            }
            &&& blocked > 0 ==> runs[0] == (RunView {
                text: "◉"@ + " "@ + decimal_text(blocked),
                color: BarColor::Rgb(0xf2241f),
                bold: true,
            })
            &&& working > 0 ==> runs[before_working] == (RunView {
                text: "●"@ + " "@ + decimal_text(working),
                color: BarColor::Rgb(0x67b11d),
                bold: false,
            })
            &&& idle > 0 ==> runs[before_idle] == (RunView {
                text: "○"@ + " "@ + decimal_text(idle),
                color: BarColor::Rgb(0x7d7a8a),
                bold: false,
            })
        }),
        agents.len() > 0 ==> agent_segments(Some(agents)) == seq![
            SegmentView {
                kind: SegmentKind::Agents,
                background: BarColor::Rgb(0x2a2a32),
                badge: None,
                runs: count_runs(agents),
            },
        ],
        agents.len() == 0 ==> agent_segments(Some(agents)).len() == 0,
        agent_segments(None).len() == 0,
{
}

/// The number of a window is that of its first place among all, counted from
/// one; a window that is not among them is the first.
pub proof fn law_a_window_has_the_number_of_its_place(windows: Seq<u64>, window: u64, index: int)
    ensures
        0 <= index < windows.len() && windows[index] == window && (forall|i: int|
            0 <= i < index ==> windows[i] != window) ==> number_of_window(windows, window) == index
            + 1,
        !windows.contains(window) ==> number_of_window(windows, window) == 1,
    decreases windows.len(),
{
    if 0 <= index < windows.len() && windows[index] == window && (forall|i: int|
        0 <= i < index ==> windows[i] != window) {
        assert(windows.contains(window));
        lemma_first_position(windows, window);
        lemma_first_position_is_first(windows, window, index);
    }
}

proof fn lemma_first_position_is_first(windows: Seq<u64>, window: u64, index: int)
    requires
        0 <= index < windows.len(),
        windows[index] == window,
    ensures
        first_position(windows, window) <= index,
    decreases windows.len(),
{
    if windows[0] != window {
        assert(windows.drop_first()[index - 1] == window);
        lemma_first_position_is_first(windows.drop_first(), window, index - 1);
    }
}

/// The left side begins with the state: the window's number in a badge, and the
/// mode in bold. The name of the active item follows where there is one, cut to
/// fit and with a mark where there is something unsaved, and behind the name the
/// branch where there is one, cut to fit. Nothing else stands there.
pub proof fn law_the_left_side_tells_window_mode_name_and_branch(
    block: BlockView,
    window_number: nat,
    name: Option<Seq<char>>,
    dirty: bool,
    branch: Option<Seq<char>>,
)
    ensures
        ({
            let segments = left_segments(block, window_number, name, dirty, branch);
            let state = segments[0];
            &&& segments.len() == (if name.is_none() {
                1
            } else if branch.is_none() {
                2
            } else {
                3nat
            })
            &&& state.kind == SegmentKind::State && state.background == block.background
            &&& state.badge == Some(
                BadgeView {
                    text: decimal_text(window_number),
                    background: BarColor::Rgb(0x1a1a22),
                    color: block.background,
                },
            )
            &&& state.runs == seq![
                RunView { text: block.text, color: block.foreground, bold: true },
            ]
            &&& name matches Some(name) ==> {
                let named = segments[1];
                &&& named.kind == SegmentKind::Name && named.badge.is_none()
                &&& named.background == BarColor::Rgb(0x34323e)
                &&& named.runs.len() == (if dirty {
                    2
                } else {
                    1nat
                })
                &&& named.runs[0] == (RunView {
                    text: trailed_off(name, 40),
                    color: BarColor::Rgb(0xb2b2b2),
                    bold: false,
                })
                &&& dirty ==> named.runs[1] == (RunView {
                    text: "[+]"@,
                    color: BarColor::Rgb(0x7d7a8a),
                    bold: false,
                })
            }
            &&& name.is_some() ==> (branch matches Some(branch) ==> {
                let on_branch = segments[2];
                &&& on_branch.kind == SegmentKind::Branch && on_branch.badge.is_none()
                &&& on_branch.background == BarColor::Rgb(0x2a2a32)
                &&& on_branch.runs == seq![
                    RunView {
                        text: trailed_off(branch, 40),
                        color: BarColor::Rgb(0xb2b2b2),
                        bold: false,
                    },
                ]
            })
        }),
{
}

/// The right side begins with the agents, where there are any. For an editor the
/// language follows, then the cursor, as line and column with a colon between
/// them, then the scroll position in the colours of the state, each where it is
/// known; for a terminal the name of its directory does, in those colours. For
/// anything else nothing does.
pub proof fn law_the_right_side_tells_agents_and_the_active_item(
    spaceline: Spaceline,
    block: BlockView,
    terminal: Option<TerminalInfo>,
    agents: Option<Agents>,
)
    ensures
        ({
            let segments = right_segments(spaceline, block, terminal, agents);
            let shown = agent_segments(agents);
            let first = shown.len() as int;
            let after_language: int = first + if spaceline.language_name.is_some() {
                1int
            } else {
                0
            };
            let after_cursor: int = after_language + if spaceline.cursor_position.is_some() {
                1int
            } else {
                0
            };
            &&& segments.len() >= first && segments.take(first) == shown
            &&& spaceline.active_item == ActiveItem::Other || spaceline.active_item
                == ActiveItem::Nothing ==> segments.len() == first
            &&& spaceline.active_item == ActiveItem::Editor ==> {
                &&& segments.len() == after_cursor + if spaceline.scroll_percent.is_some() {
                    1int
                } else {
                    0
                }
                &&& spaceline.language_name matches Some(language) ==> segments[first] == (
                SegmentView {
                    kind: SegmentKind::Plain,
                    background: BarColor::Rgb(0x2a2a32),
                    badge: None,
                    runs: seq![
                        RunView { text: language@, color: BarColor::Rgb(0xb2b2b2), bold: false },
                    ],
                })
                &&& spaceline.cursor_position matches Some((line, column))
                    ==> segments[after_language] == (SegmentView {
                    kind: SegmentKind::Plain,
                    background: BarColor::Rgb(0x34323e),
                    badge: None,
                    runs: seq![
                        RunView {
                            text: decimal_text(line as nat) + ":"@ + decimal_text(column as nat),
                            color: BarColor::Rgb(0xb2b2b2),
                            bold: false,
                        },
                    ],
                })
                &&& spaceline.scroll_percent matches Some(scroll) ==> segments[after_cursor] == (
                SegmentView {
                    kind: SegmentKind::Plain,
                    background: block.background,
                    badge: None,
                    runs: seq![RunView { text: scroll@, color: block.foreground, bold: true }],
                })
            }
            &&& spaceline.active_item == ActiveItem::Terminal ==> match terminal_directory(
                terminal,
            ) {
                Some(directory) => segments == shown.push(
                    SegmentView {
                        kind: SegmentKind::Plain,
                        background: block.background,
                        badge: None,
                        runs: seq![
                            RunView { text: directory, color: block.foreground, bold: true },
                        ],
                    },
                ),
                None => segments == shown,
            }
        }),
{
    let segments = right_segments(spaceline, block, terminal, agents);
    let shown = agent_segments(agents);
    assert(segments.take(shown.len() as int) =~= shown);
    if spaceline.active_item == ActiveItem::Terminal {
        match terminal_directory(terminal) {
            Some(directory) => {
                assert(segments =~= shown.push(
                    text_segment(block.background, block.foreground, directory, true),
                ));
            },
            None => {
                assert(segments =~= shown);
            },
        }
    }
}

/// What the bar shows of an editor is what the editor tells: the cursor, counted
/// from one, the scroll position in words, and the language. Every event of an
/// editor that has to do with these is followed, and no other.
pub proof fn law_the_bar_shows_what_the_editor_tells(
    spaceline: Spaceline,
    snapshot: EditorSnapshot,
    event: EditorEvent,
)
    ensures
        shows_editor(spaceline, snapshot) ==> {
            &&& spaceline.cursor_position matches Some((line, column))
            &&& line - 1 == snapshot.row && column - 1 == snapshot.column
            &&& spaceline.scroll_percent matches Some(scroll)
            &&& scroll@ == scroll_text(snapshot.scroll)
            &&& spaceline.language_name == snapshot.language
        },
        is_shown_event(event) <==> event != EditorEvent::Other,
{
}

/// The bar shows the item that is active by its name, with whether something of
/// it is unsaved, and follows it: the events and the changes of an editor, and
/// the changes of a terminal. Of an editor it shows what the editor tells.
pub proof fn law_the_bar_shows_the_item_that_is_active(
    spaceline: Spaceline,
    item: ItemInfo,
    text: Option<String>,
)
    requires
        shows_item(spaceline, Some(item)),
    ensures
        spaceline.item_name == Some(item.name),
        spaceline.item_dirty == item.dirty,
        item.kind matches ItemKind::Editor(snapshot) ==> {
            &&& spaceline.active_item == ActiveItem::Editor
            &&& spaceline.cursor_position matches Some((line, column))
            &&& line - 1 == snapshot.row && column - 1 == snapshot.column
            &&& spaceline.scroll_percent matches Some(scroll)
            &&& scroll@ == scroll_text(snapshot.scroll)
            &&& spaceline.language_name == snapshot.language
            &&& subscriptions_of(Some(item)) == seq![
                ItemSubscription::EditorEvents,
                ItemSubscription::EditorChanges,
            ]
        },
        item.kind is Terminal ==> spaceline.active_item == ActiveItem::Terminal
            && subscriptions_of(Some(item)) == seq![ItemSubscription::TerminalChanges],
        item.kind is Other ==> spaceline.active_item == ActiveItem::Other && subscriptions_of(
            Some(item),
        ).len() == 0,
        text.is_none() ==> text_of(text).is_none(),
        text matches Some(string) ==> text_of(text) == Some(string@),
{
}

/// The bar tells of the agents of the registry, where there is one, and can tell
/// the cursor wherever it is, as long as its row and column can be counted from
/// one.
pub proof fn law_the_bar_takes_what_there_is(
    registry: Option<&AgentRegistry>,
    snapshot: EditorSnapshot,
)
    ensures
        registry.is_none() ==> agents_of(registry).is_none(),
        registry matches Some(known) ==> agents_of(registry) == Some(known@),
        is_countable(snapshot) <==> snapshot.row + 1 <= u32::MAX && snapshot.column + 1 <= u32::MAX,
{
}

} // verus!
