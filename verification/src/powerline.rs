//! Segments of a status bar, and the arrows that join them.

use crate::palette::BarColor;
use vstd::prelude::*;

verus! {

/// A piece of text in one colour.
#[derive(Debug, PartialEq, Eq)]
pub struct TextRun {
    pub text: String,
    pub color: BarColor,
    pub bold: bool,
}

/// A round badge with a short text.
#[derive(Debug, PartialEq, Eq)]
pub struct Badge {
    pub text: String,
    pub background: BarColor,
    pub color: BarColor,
}

/// What a segment is for, which decides the room between its parts.
#[derive(Clone, Copy, Debug, PartialEq, Eq, Structural)]
pub enum SegmentKind {
    /// The window and the mode.
    State,
    /// The active item.
    Name,
    /// The branch, with an icon before it.
    Branch,
    /// The agents.
    Agents,
    /// A text.
    Plain,
}

/// A segment of the bar.
#[derive(Debug, PartialEq, Eq)]
pub struct BarSegment {
    pub kind: SegmentKind,
    pub background: BarColor,
    pub badge: Option<Badge>,
    pub runs: Vec<TextRun>,
}

/// A segment of the bar, or an arrow between two.
#[derive(Debug, PartialEq, Eq)]
pub enum BarPiece {
    Segment(BarSegment),
    /// An arrow that points right: a triangle of the colour of what is before it
    /// over the colour of what is after it.
    ArrowRight { previous: BarColor, next: BarColor },
    /// An arrow that points left: a triangle of the colour of what is after it
    /// over the colour of what is before it.
    ArrowLeft { previous: BarColor, next: BarColor },
}

/// What a [`TextRun`] stands for.
pub struct RunView {
    pub text: Seq<char>,
    pub color: BarColor,
    pub bold: bool,
}

/// What a [`Badge`] stands for.
pub struct BadgeView {
    pub text: Seq<char>,
    pub background: BarColor,
    pub color: BarColor,
}

/// What a [`BarSegment`] stands for.
pub struct SegmentView {
    pub kind: SegmentKind,
    pub background: BarColor,
    pub badge: Option<BadgeView>,
    pub runs: Seq<RunView>,
}

/// What a [`BarPiece`] stands for.
pub enum PieceView {
    Segment(SegmentView),
    ArrowRight { previous: BarColor, next: BarColor },
    ArrowLeft { previous: BarColor, next: BarColor },
}

impl View for TextRun {
    type V = RunView;

    open spec fn view(&self) -> RunView {
        RunView { text: self.text@, color: self.color, bold: self.bold }
    }
}

impl View for Badge {
    type V = BadgeView;

    open spec fn view(&self) -> BadgeView {
        BadgeView { text: self.text@, background: self.background, color: self.color }
    }
}

/// What a list of runs stands for.
pub open spec fn runs_view(runs: Seq<TextRun>) -> Seq<RunView> {
    runs.map_values(|run: TextRun| run@)
}

impl View for BarSegment {
    type V = SegmentView;

    open spec fn view(&self) -> SegmentView {
        SegmentView {
            kind: self.kind,
            background: self.background,
            badge: match self.badge {
                Some(badge) => Some(badge@),
                None => None,
            },
            runs: runs_view(self.runs@),
        }
    }
}

impl View for BarPiece {
    type V = PieceView;

    open spec fn view(&self) -> PieceView {
        match *self {
            BarPiece::Segment(segment) => PieceView::Segment(segment@),
            BarPiece::ArrowRight { previous, next } => PieceView::ArrowRight { previous, next },
            BarPiece::ArrowLeft { previous, next } => PieceView::ArrowLeft { previous, next },
        }
    }
}

/// What a list of segments stands for.
pub open spec fn segments_view(segments: Seq<BarSegment>) -> Seq<SegmentView> {
    segments.map_values(|segment: BarSegment| segment@)
}

/// What a list of pieces stands for.
pub open spec fn pieces_view(pieces: Seq<BarPiece>) -> Seq<PieceView> {
    pieces.map_values(|piece: BarPiece| piece@)
}

/// Segments from left to right, each followed by an arrow into the next; the
/// last arrow goes into the colour `end`.
pub open spec fn joined_rightward(segments: Seq<SegmentView>, end: BarColor) -> Seq<PieceView>
    decreases segments.len(),
{
    if segments.len() == 0 {
        Seq::empty()
    } else {
        let next = if segments.len() > 1 {
            segments[1].background
        } else {
            end
        };
        seq![
            PieceView::Segment(segments[0]),
            PieceView::ArrowRight { previous: segments[0].background, next },
        ] + joined_rightward(segments.drop_first(), end)
    }
}

/// Segments from left to right, each after an arrow out of the one before; the
/// first arrow comes out of the colour `start`.
pub open spec fn joined_leftward(start: BarColor, segments: Seq<SegmentView>) -> Seq<PieceView>
    decreases segments.len(),
{
    if segments.len() == 0 {
        Seq::empty()
    } else {
        seq![
            PieceView::ArrowLeft { previous: start, next: segments[0].background },
            PieceView::Segment(segments[0]),
        ] + joined_leftward(segments[0].background, segments.drop_first())
    }
}

/// Joins segments by arrows that point right.
pub fn join_rightward(segments: Vec<BarSegment>, end: BarColor) -> (pieces: Vec<BarPiece>)
    ensures
        pieces_view(pieces@) == joined_rightward(segments_view(segments@), end),
{
    let ghost all = segments_view(segments@);
    let mut segments = segments;
    let mut pieces: Vec<BarPiece> = Vec::new();
    assert(pieces_view(pieces@) =~= Seq::empty());
    assert(pieces_view(pieces@) + joined_rightward(all, end) =~= joined_rightward(all, end));
    while segments.len() > 0
        invariant
            joined_rightward(all, end) == pieces_view(pieces@) + joined_rightward(
                segments_view(segments@),
                end,
            ),
        decreases segments.len(),
    {
        let ghost left = segments_view(segments@);
        let ghost before = pieces_view(pieces@);
        let segment = segments.remove(0);
        assert(segments_view(segments@) =~= left.drop_first());
        let previous = segment.background;
        let next = if segments.len() > 0 {
            segments[0].background
        } else {
            end
        };
        let ghost shown = segment@;
        pieces.push(BarPiece::Segment(segment));
        pieces.push(BarPiece::ArrowRight { previous, next });
        assert(pieces_view(pieces@) =~= before + seq![
            PieceView::Segment(shown),
            PieceView::ArrowRight { previous, next },
        ]);
        assert(joined_rightward(all, end) =~= pieces_view(pieces@) + joined_rightward(
            segments_view(segments@),
            end,
        ));
    }
    assert(segments_view(segments@) =~= Seq::empty());
    assert(pieces_view(pieces@) + Seq::<PieceView>::empty() =~= pieces_view(pieces@));
    pieces
}

/// Joins segments by arrows that point left.
pub fn join_leftward(start: BarColor, segments: Vec<BarSegment>) -> (pieces: Vec<BarPiece>)
    ensures
        pieces_view(pieces@) == joined_leftward(start, segments_view(segments@)),
{
    let ghost all = segments_view(segments@);
    let mut segments = segments;
    let mut previous = start;
    let mut pieces: Vec<BarPiece> = Vec::new();
    assert(pieces_view(pieces@) =~= Seq::empty());
    assert(pieces_view(pieces@) + joined_leftward(start, all) =~= joined_leftward(start, all));
    while segments.len() > 0
        invariant
            joined_leftward(start, all) == pieces_view(pieces@) + joined_leftward(
                previous,
                segments_view(segments@),
            ),
        decreases segments.len(),
    {
        let ghost left = segments_view(segments@);
        let ghost before = pieces_view(pieces@);
        let ghost out_of = previous;
        let segment = segments.remove(0);
        assert(segments_view(segments@) =~= left.drop_first());
        let next = segment.background;
        let ghost shown = segment@;
        pieces.push(BarPiece::ArrowLeft { previous, next });
        pieces.push(BarPiece::Segment(segment));
        previous = next;
        assert(pieces_view(pieces@) =~= before + seq![
            PieceView::ArrowLeft { previous: out_of, next },
            PieceView::Segment(shown),
        ]);
        assert(joined_leftward(start, all) =~= pieces_view(pieces@) + joined_leftward(
            previous,
            segments_view(segments@),
        ));
    }
    assert(segments_view(segments@) =~= Seq::empty());
    assert(pieces_view(pieces@) + Seq::<PieceView>::empty() =~= pieces_view(pieces@));
    pieces
}

/// The bar shows every segment in order, and each arrow that points right joins
/// the colours of its neighbours: it has the colour of the segment before it,
/// and lies on that of the segment after it, or of the bar behind the last.
pub proof fn law_right_arrows_join_their_neighbours(
    segments: Seq<SegmentView>,
    end: BarColor,
    index: int,
)
    requires
        0 <= index < segments.len(),
    ensures
        joined_rightward(segments, end).len() == 2 * segments.len(),
        joined_rightward(segments, end)[2 * index] == PieceView::Segment(segments[index]),
        joined_rightward(segments, end)[2 * index + 1] == (PieceView::ArrowRight {
            previous: segments[index].background,
            next: if index + 1 < segments.len() {
                segments[index + 1].background
            } else {
                end
            },
        }),
    decreases segments.len(),
{
    let rest = segments.drop_first();
    lemma_joined_rightward_len(rest, end);
    if index > 0 {
        law_right_arrows_join_their_neighbours(rest, end, index - 1);
        assert(joined_rightward(segments, end)[2 * index] == joined_rightward(rest, end)[2 * index
            - 2]);
        assert(joined_rightward(segments, end)[2 * index + 1] == joined_rightward(
            rest,
            end,
        )[2 * index - 1]);
    }
}

proof fn lemma_joined_rightward_len(segments: Seq<SegmentView>, end: BarColor)
    ensures
        joined_rightward(segments, end).len() == 2 * segments.len(),
    decreases segments.len(),
{
    if segments.len() > 0 {
        lemma_joined_rightward_len(segments.drop_first(), end);
    }
}

/// Each arrow that points left joins the colours of its neighbours: it has the
/// colour of the segment after it, and lies on that of the segment before it,
/// or of the bar before the first.
pub proof fn law_left_arrows_join_their_neighbours(
    start: BarColor,
    segments: Seq<SegmentView>,
    index: int,
)
    requires
        0 <= index < segments.len(),
    ensures
        joined_leftward(start, segments).len() == 2 * segments.len(),
        joined_leftward(start, segments)[2 * index] == (PieceView::ArrowLeft {
            previous: if index > 0 {
                segments[index - 1].background
            } else {
                start
            },
            next: segments[index].background,
        }),
        joined_leftward(start, segments)[2 * index + 1] == PieceView::Segment(segments[index]),
    decreases segments.len(),
{
    let rest = segments.drop_first();
    let from = segments[0].background;
    lemma_joined_leftward_len(from, rest);
    if index > 0 {
        law_left_arrows_join_their_neighbours(from, rest, index - 1);
        assert(joined_leftward(start, segments)[2 * index] == joined_leftward(
            from,
            rest,
        )[2 * index - 2]);
        assert(joined_leftward(start, segments)[2 * index + 1] == joined_leftward(
            from,
            rest,
        )[2 * index - 1]);
    }
}

proof fn lemma_joined_leftward_len(start: BarColor, segments: Seq<SegmentView>)
    ensures
        joined_leftward(start, segments).len() == 2 * segments.len(),
    decreases segments.len(),
{
    if segments.len() > 0 {
        lemma_joined_leftward_len(segments[0].background, segments.drop_first());
    }
}

/// Runs, badges, segments and pieces are told in full, each list in order.
pub proof fn law_the_bar_is_told_in_full(
    segment: BarSegment,
    segments: Seq<BarSegment>,
    pieces: Seq<BarPiece>,
    index: int,
)
    ensures
        segment@.kind == segment.kind,
        segment@.background == segment.background,
        segment.badge.is_none() ==> segment@.badge.is_none(),
        segment.badge matches Some(badge) ==> (segment@.badge matches Some(shown) && shown.text
            == badge.text@ && shown.background == badge.background && shown.color == badge.color),
        segment@.runs.len() == segment.runs@.len(),
        0 <= index < segment.runs@.len() ==> segment@.runs[index].text
            == segment.runs@[index].text@ && segment@.runs[index].color
            == segment.runs@[index].color && segment@.runs[index].bold
            == segment.runs@[index].bold,
        segments_view(segments).len() == segments.len(),
        0 <= index < segments.len() ==> segments_view(segments)[index] == segments[index]@,
        pieces_view(pieces).len() == pieces.len(),
        0 <= index < pieces.len() ==> match pieces[index] {
            BarPiece::Segment(shown) => pieces_view(pieces)[index] == PieceView::Segment(shown@),
            BarPiece::ArrowRight { previous, next } => {
                &&& pieces_view(pieces)[index] matches PieceView::ArrowRight {
                    previous: from,
                    next: into,
                }
                &&& from == previous && into == next
            },
            BarPiece::ArrowLeft { previous, next } => {
                &&& pieces_view(pieces)[index] matches PieceView::ArrowLeft {
                    previous: from,
                    next: into,
                }
                &&& from == previous && into == next
            },
        },
{
}

} // verus!
