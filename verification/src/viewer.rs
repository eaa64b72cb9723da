//! State of the frame viewer: the selected row, the mode, and what the
//! keys do to them.

use vstd::prelude::*;

verus! {

/// What the viewer shows.
#[derive(Debug, Clone, Copy, PartialEq, Eq, Structural)]
pub enum AppMode {
    /// The list of frames.
    Normal,
    /// The details of the selected frame, over the list.
    Detail,
}

/// A key, as far as the viewer tells keys apart.
#[derive(Debug, Clone, Copy, PartialEq, Eq, Structural)]
pub enum ViewerKey {
    /// `q` or Escape.
    Quit,
    Enter,
    /// Arrow down or `j`.
    Down,
    /// Arrow up or `k`.
    Up,
    PageDown,
    PageUp,
    Home,
    End,
    /// Any other key.
    Other,
}

/// State of the viewer: the number of rows, the selected row and the mode.
#[derive(Debug, Clone, Copy, PartialEq, Eq, Structural)]
pub struct ViewerState {
    pub total: usize,
    pub selected: usize,
    pub mode: AppMode,
}

/// The rows that are drawn: the first, and how many.
#[derive(Debug, Clone, Copy, PartialEq, Eq, Structural)]
pub struct Window {
    pub start: usize,
    pub count: usize,
}

impl ViewerState {
    /// The selected row is a row; with no rows, it is 0.
    pub open spec fn well_formed(self) -> bool {
        self.selected < self.total || (self.total == 0 && self.selected == 0)
    }

    /// The last row; 0 with no rows.
    pub open spec fn last_row(self) -> usize {
        if self.total == 0 {
            0
        } else {
            (self.total - 1) as usize
        }
    }

    /// The row that a key selects. Down and up wrap around; page down and
    /// page up stop at the last and the first row.
    pub open spec fn row_after(self, key: ViewerKey, page_size: usize) -> usize {
        match key {
            ViewerKey::Down => if self.selected >= self.last_row() {
                0
            } else {
                (self.selected + 1) as usize
            },
            ViewerKey::Up => if self.selected == 0 {
                self.last_row()
            } else {
                (self.selected - 1) as usize
            },
            ViewerKey::PageDown => if self.selected + page_size >= self.last_row() {
                self.last_row()
            } else {
                (self.selected + page_size) as usize
            },
            ViewerKey::PageUp => if self.selected <= page_size {
                0
            } else {
                (self.selected - page_size) as usize
            },
            ViewerKey::Home => 0,
            ViewerKey::End => self.last_row(),
            _ => self.selected,
        }
    }

    /// The other mode.
    pub open spec fn toggled(mode: AppMode) -> AppMode {
        match mode {
            AppMode::Normal => AppMode::Detail,
            AppMode::Detail => AppMode::Normal,
        }
    }

    /// The state after a key, and whether the viewer is left. In the list,
    /// `q` and Escape leave, Enter opens the details and the other keys
    /// select a row. In the details, `q`, Escape and Enter close them, and
    /// only down and up select a row.
    pub open spec fn after_key(self, key: ViewerKey, page_size: usize) -> (ViewerState, bool) {
        match self.mode {
            AppMode::Normal => match key {
                ViewerKey::Quit => (self, true),
                ViewerKey::Enter => (ViewerState { mode: AppMode::Detail, ..self }, false),
                _ => (ViewerState { selected: self.row_after(key, page_size), ..self }, false),
            },
            AppMode::Detail => match key {
                ViewerKey::Quit | ViewerKey::Enter => (
                    ViewerState { mode: AppMode::Normal, ..self },
                    false,
                ),
                ViewerKey::Down | ViewerKey::Up => (
                    ViewerState { selected: self.row_after(key, page_size), ..self },
                    false,
                ),
                _ => (self, false),
            },
        }
    }

    /// The rows that are drawn on `height` lines: the selected row stands
    /// in the middle where rows are left on both sides, and the window
    /// never reaches beyond the last row.
    pub open spec fn window_of(self, height: usize) -> Window {
        let centered: int = if self.selected <= height / 2 {
            0
        } else {
            self.selected - height / 2
        };
        let end: int = if centered + height >= self.total {
            self.total as int
        } else {
            centered + height
        };
        let latest: int = if self.total <= height {
            0
        } else {
            self.total - height
        };
        let start: int = if centered <= latest {
            centered
        } else {
            latest
        };
        Window { start: start as usize, count: (end - start) as usize }
    }

    /// Whether the selected row is a row: what `handle_key_event` and
    /// `window` ask of a state.
    pub fn is_well_formed(&self) -> (ok: bool)
        ensures
            ok == self.well_formed(),
    {
        self.selected < self.total || (self.total == 0 && self.selected == 0)
    }

    /// The viewer of `total` rows, with the first row selected, in the list.
    pub fn new(total: usize) -> (state: ViewerState)
        ensures
            state == (ViewerState { total: total, selected: 0, mode: AppMode::Normal }),
            state.well_formed(),
    {
        ViewerState { total, selected: 0, mode: AppMode::Normal }
    }

    fn select(&self, key: ViewerKey, page_size: usize) -> (row: usize)
        requires
            self.well_formed(),
        ensures
            row == self.row_after(key, page_size),
            row < self.total || (self.total == 0 && row == 0),
    {
        let last = if self.total == 0 {
            0
        } else {
            self.total - 1
        };
        match key {
            ViewerKey::Down => {
                if self.selected >= last {
                    0
                } else {
                    self.selected + 1
                }
            },
            ViewerKey::Up => {
                if self.selected == 0 {
                    last
                } else {
                    self.selected - 1
                }
            },
            ViewerKey::PageDown => {
                if page_size >= last - self.selected {
                    last
                } else {
                    self.selected + page_size
                }
            },
            ViewerKey::PageUp => {
                if self.selected <= page_size {
                    0
                } else {
                    self.selected - page_size
                }
            },
            ViewerKey::Home => 0,
            ViewerKey::End => last,
            _ => self.selected,
        }
    }

    /// Takes a key: the state after it, and whether the viewer is left.
    pub fn handle_key_event(&mut self, key: ViewerKey, page_size: usize) -> (exit: bool)
        requires
            old(self).well_formed(),
        ensures
            (*final(self), exit) == old(self).after_key(key, page_size),
            final(self).well_formed(),
            final(self).total == old(self).total,
    {
        match self.mode {
            AppMode::Normal => match key {
                ViewerKey::Quit => true,
                ViewerKey::Enter => {
                    self.mode = AppMode::Detail;
                    false
                },
                _ => {
                    self.selected = self.select(key, page_size);
                    false
                },
            },
            AppMode::Detail => match key {
                ViewerKey::Quit | ViewerKey::Enter => {
                    self.mode = AppMode::Normal;
                    false
                },
                ViewerKey::Down | ViewerKey::Up => {
                    self.selected = self.select(key, page_size);
                    false
                },
                _ => false,
            },
        }
    }

    /// The rows that are drawn on `height` lines. The selected row is
    /// among them where a line is drawn at all.
    pub fn window(&self, height: usize) -> (window: Window)
        requires
            self.well_formed(),
        ensures
            window == self.window_of(height),
            window.start + window.count <= self.total,
            window.count <= height,
            height > 0 && self.total > 0 ==> window.start <= self.selected < window.start
                + window.count,
    {
        let centered = if self.selected <= height / 2 {
            0
        } else {
            self.selected - height / 2
        };
        let end = if height >= self.total - centered {
            self.total
        } else {
            centered + height
        };
        let latest = if self.total <= height {
            0
        } else {
            self.total - height
        };
        let start = if centered <= latest {
            centered
        } else {
            latest
        };
        Window { start, count: end - start }
    }
}

} // verus!
