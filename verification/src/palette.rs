//! The colours of the status bar and the picker.

use crate::agent_registry::AgentStatus;
use vstd::prelude::*;

verus! {

/// A colour that the user's theme gives.
#[derive(Clone, Copy, Debug, PartialEq, Eq, Structural)]
pub enum ThemeKey {
    VimNormalBackground,
    VimNormalForeground,
    VimInsertBackground,
    VimInsertForeground,
    VimReplaceBackground,
    VimReplaceForeground,
    VimVisualBackground,
    VimVisualForeground,
    VimVisualLineBackground,
    VimVisualLineForeground,
    VimVisualBlockBackground,
    VimVisualBlockForeground,
    VimHelixNormalBackground,
    VimHelixNormalForeground,
    VimHelixSelectBackground,
    VimHelixSelectForeground,
    StatusBarBackground,
}

/// A colour.
#[derive(Clone, Copy, Debug, PartialEq, Eq, Structural)]
pub enum BarColor {
    /// Red, green and blue, eight bits each.
    Rgb(u32),
    /// What the theme has under a key.
    Theme(ThemeKey),
}

/// The background of the segments beside the state colour.
pub fn seg2_background() -> (color: BarColor)
    ensures
        color == BarColor::Rgb(0x34323e),
{
    BarColor::Rgb(0x34323e)
}

/// The background of the segments beyond those.
pub fn seg3_background() -> (color: BarColor)
    ensures
        color == BarColor::Rgb(0x2a2a32),
{
    BarColor::Rgb(0x2a2a32)
}

/// The text of a segment.
pub fn segment_text_color() -> (color: BarColor)
    ensures
        color == BarColor::Rgb(0xb2b2b2),
{
    BarColor::Rgb(0xb2b2b2)
}

/// Text that steps back.
pub fn dim_text_color() -> (color: BarColor)
    ensures
        color == BarColor::Rgb(0x7d7a8a),
{
    BarColor::Rgb(0x7d7a8a)
}

/// The state block of a terminal in vi mode.
pub fn term_vi_background() -> (color: BarColor)
    ensures
        color == BarColor::Rgb(0x4f97d7),
{
    BarColor::Rgb(0x4f97d7)
}

/// What stands on the colour of a state.
pub fn on_state_color() -> (color: BarColor)
    ensures
        color == BarColor::Rgb(0x1a1a22),
{
    BarColor::Rgb(0x1a1a22)
}

/// Agents that work.
pub fn agent_working_color() -> (color: BarColor)
    ensures
        color == BarColor::Rgb(0x67b11d),
{
    BarColor::Rgb(0x67b11d)
}

/// Agents that are blocked.
pub fn agent_blocked_color() -> (color: BarColor)
    ensures
        color == BarColor::Rgb(0xf2241f),
{
    BarColor::Rgb(0xf2241f)
}

/// Agents that are idle: dimmed.
pub fn agent_idle_color() -> (color: BarColor)
    ensures
        color == BarColor::Rgb(0x7d7a8a),
{
    dim_text_color()
}

/// The colour of agents with a status: blocked in red, working in green, idle
/// dimmed.
pub open spec fn status_color_of(status: AgentStatus) -> BarColor {
    match status {
        AgentStatus::Blocked => BarColor::Rgb(0xf2241f),
        AgentStatus::Working => BarColor::Rgb(0x67b11d),
        AgentStatus::Idle => BarColor::Rgb(0x7d7a8a),
    }
}

/// The sign of agents with a status.
pub open spec fn status_glyph_of(status: AgentStatus) -> Seq<char> {
    match status {
        AgentStatus::Blocked => "◉"@,
        AgentStatus::Working => "●"@,
        AgentStatus::Idle => "○"@,
    }
}

/// The colour of agents with a status.
pub fn status_color(status: AgentStatus) -> (color: BarColor)
    ensures
        color == status_color_of(status),
{
    match status {
        AgentStatus::Blocked => agent_blocked_color(),
        AgentStatus::Working => agent_working_color(),
        AgentStatus::Idle => agent_idle_color(),
    }
}

/// The sign of agents with a status.
pub fn status_glyph(status: AgentStatus) -> (glyph: &'static str)
    ensures
        glyph@ == status_glyph_of(status),
{
    match status {
        AgentStatus::Blocked => "◉",
        AgentStatus::Working => "●",
        AgentStatus::Idle => "○",
    }
}

/// Agents of different status differ in sign and in colour.
pub proof fn law_status_is_told_by_sign_and_color(first: AgentStatus, second: AgentStatus)
    requires
        first != second,
    ensures
        status_glyph_of(first) != status_glyph_of(second),
        status_color_of(first) != status_color_of(second),
{
    reveal_strlit("◉");
    reveal_strlit("●");
    reveal_strlit("○");
    assert("◉"@[0] != "●"@[0] && "◉"@[0] != "○"@[0] && "●"@[0] != "○"@[0]);
}

} // verus!
