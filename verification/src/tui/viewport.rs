//! What of the transcript is on screen: scrolling and selection.

use vstd::prelude::*;

verus! {

/// A rectangle on the screen.
#[derive(Debug, Clone, Copy, PartialEq, Eq, Structural)]
pub struct Rect {
    pub x: u16,
    pub y: u16,
    pub width: u16,
    pub height: u16,
}

/// What one line of the transcript shows.
#[derive(Debug, Clone, Copy, PartialEq, Eq, Structural)]
pub enum TranscriptLineMeta {
    /// A line of a cell.
    CellLine { cell_index: usize, line_in_cell: usize },
    /// An empty line between cells.
    Spacer,
}

impl TranscriptLineMeta {
    /// The cell of a line and the line within the cell.
    pub open spec fn cell(self) -> Option<(usize, usize)> {
        match self {
            TranscriptLineMeta::CellLine { cell_index, line_in_cell } => Some(
                (cell_index, line_in_cell),
            ),
            TranscriptLineMeta::Spacer => None,
        }
    }

    /// The cell of a line and the line within the cell.
    pub fn cell_line(&self) -> (res: Option<(usize, usize)>)
        ensures
            res == self.cell(),
    {
        match *self {
            TranscriptLineMeta::CellLine { cell_index, line_in_cell } => Some(
                (cell_index, line_in_cell),
            ),
            TranscriptLineMeta::Spacer => None,
        }
    }
}

/// Where the transcript is scrolled to.
#[derive(Debug, Clone, Copy, PartialEq, Eq, Structural)]
pub enum TranscriptScroll {
    /// The latest lines are shown.
    Tail,
    /// The lines from this one are shown.
    From { line: usize },
}

impl TranscriptScroll {
    /// The latest lines are shown.
    pub fn to_bottom() -> (res: Self)
        ensures
            res == TranscriptScroll::Tail,
    {
        TranscriptScroll::Tail
    }

    /// Whether the latest lines are shown.
    pub fn is_at_tail(&self) -> (res: bool)
        ensures
            res == (*self == TranscriptScroll::Tail),
    {
        match *self {
            TranscriptScroll::Tail => true,
            TranscriptScroll::From { .. } => false,
        }
    }
}

/// A place in the transcript.
#[derive(Debug, Clone, Copy, PartialEq, Eq, Structural)]
pub struct SelectionPoint {
    pub line_index: usize,
    pub column: usize,
}

/// What of the transcript is selected.
#[derive(Debug, Clone, Copy, PartialEq, Eq, Structural)]
pub struct TranscriptSelection {
    pub anchor: Option<SelectionPoint>,
    pub head: Option<SelectionPoint>,
    pub dragging: bool,
}

/// One place stands before or at another.
pub open spec fn stands_before(a: SelectionPoint, b: SelectionPoint) -> bool {
    a.line_index < b.line_index || (a.line_index == b.line_index && a.column <= b.column)
}

impl TranscriptSelection {
    /// The two ends of the selection, the earlier one first.
    pub open spec fn ends(self) -> Option<(SelectionPoint, SelectionPoint)> {
        match (self.anchor, self.head) {
            (Some(a), Some(b)) => if stands_before(a, b) {
                Some((a, b))
            } else {
                Some((b, a))
            },
            _ => None,
        }
    }

    /// More than a single place is selected.
    pub open spec fn has_range(self) -> bool {
        self.ends() matches Some((start, end)) && start != end
    }

    /// The two ends of the selection, the earlier one first.
    pub fn ordered_endpoints(&self) -> (res: Option<(SelectionPoint, SelectionPoint)>)
        ensures
            res == self.ends(),
    {
        match (self.anchor, self.head) {
            (Some(a), Some(b)) => {
                if a.line_index < b.line_index || (a.line_index == b.line_index && a.column
                    <= b.column) {
                    Some((a, b))
                } else {
                    Some((b, a))
                }
            },
            _ => None,
        }
    }

    /// Nothing is selected.
    pub open spec fn nothing() -> TranscriptSelection {
        TranscriptSelection { anchor: None, head: None, dragging: false }
    }

    /// Ends the selection.
    pub fn clear(&mut self)
        ensures
            *final(self) == TranscriptSelection::nothing(),
    {
        self.anchor = None;
        self.head = None;
        self.dragging = false;
    }
}

/// The transcript as it was last laid out.
#[derive(Debug)]
pub struct TranscriptViewCache {
    pub line_meta: Vec<TranscriptLineMeta>,
}

impl TranscriptViewCache {
    /// Nothing is laid out.
    pub fn new() -> (res: Self)
        ensures
            res.line_meta@.len() == 0,
    {
        TranscriptViewCache { line_meta: Vec::new() }
    }
}

/// What of the transcript is on screen.
#[derive(Debug)]
pub struct ViewportState {
    pub transcript_cache: TranscriptViewCache,
    pub transcript_scroll: TranscriptScroll,
    pub pending_scroll_delta: i32,
    pub transcript_selection: TranscriptSelection,
    pub last_transcript_area: Option<Rect>,
    pub last_transcript_top: usize,
    pub last_transcript_visible: usize,
    pub last_transcript_total: usize,
    pub last_transcript_padding_top: usize,
    pub jump_to_latest_button_area: Option<Rect>,
}

impl ViewportState {
    /// The transcript follows its end: it is not scrolled away, and nothing is
    /// selected or being selected.
    pub open spec fn follows_tail(self) -> bool {
        &&& self.transcript_scroll == TranscriptScroll::Tail
        &&& !self.transcript_selection.dragging
        &&& !self.transcript_selection.has_range()
    }

    /// Whether the transcript follows its end.
    pub fn is_following_tail(&self) -> (res: bool)
        ensures
            res == self.follows_tail(),
    {
        let has_range = match self.transcript_selection.ordered_endpoints() {
            Some((start, end)) => start != end,
            None => false,
        };
        self.transcript_scroll.is_at_tail() && !self.transcript_selection.dragging && !has_range
    }

    /// The viewport once it is scrolled to the end.
    pub open spec fn at_bottom(self) -> ViewportState {
        ViewportState {
            transcript_scroll: TranscriptScroll::Tail,
            pending_scroll_delta: 0,
            jump_to_latest_button_area: None,
            ..self
        }
    }

    /// Nothing is laid out or selected, and the latest lines are shown.
    pub open spec fn is_fresh(self) -> bool {
        &&& self.transcript_cache.line_meta@.len() == 0
        &&& self == (ViewportState {
            transcript_cache: self.transcript_cache,
            transcript_scroll: TranscriptScroll::Tail,
            pending_scroll_delta: 0,
            transcript_selection: TranscriptSelection::nothing(),
            last_transcript_area: None,
            last_transcript_top: 0,
            last_transcript_visible: 0,
            last_transcript_total: 0,
            last_transcript_padding_top: 0,
            jump_to_latest_button_area: None,
        })
    }
}

impl Default for ViewportState {
    fn default() -> (res: Self)
        ensures
            res.is_fresh(),
    {
        ViewportState {
            transcript_cache: TranscriptViewCache::new(),
            transcript_scroll: TranscriptScroll::to_bottom(),
            pending_scroll_delta: 0,
            transcript_selection: TranscriptSelection { anchor: None, head: None, dragging: false },
            last_transcript_area: None,
            last_transcript_top: 0,
            last_transcript_visible: 0,
            last_transcript_total: 0,
            last_transcript_padding_top: 0,
            jump_to_latest_button_area: None,
        }
    }
}

} // verus!
