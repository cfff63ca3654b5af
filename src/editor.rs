use crate::commands::{
    has_force_marker_spec, joined, last_true, matched_by, without_marker, CommandAction, Commands,
    Invocation,
};
use crate::document::{doc_deleted, doc_inserted, finds, Document, Position};
use crate::highlighting::Type;
use crate::row::Row;
use crate::search::{Direction, SearchState};
use crate::highlighting::{error_color, error_color_spec, Rgb};
use crate::text::{contains, decimal, decimal_string, graphemes, graphemes_of};
use vstd::prelude::*;
use vstd::string::*;

verus! {

/// A key as the editor sees it.
#[derive(PartialEq, Eq, Structural, Clone, Copy, Debug)]
pub enum Key {
    Char(char),
    Esc,
    Backspace,
    Delete,
    Up,
    Down,
    Left,
    Right,
    PageUp,
    PageDown,
    Home,
    End,
    Other,
}

#[derive(PartialEq, Eq, Structural, Clone, Copy, Debug)]
pub enum InteractionMode {
    Command,
    Search,
    Insert,
}

/// The part of the screen that shows the document, in character cells.
#[derive(PartialEq, Eq, Structural, Clone, Copy, Debug)]
pub struct Size {
    pub width: u16,
    pub height: u16,
}

/// The message shown below the status bar, with the color of its background.
pub struct StatusMessage {
    pub text: String,
    pub color: Option<Rgb>,
}

impl StatusMessage {
    pub fn from(message: String, color: Option<Rgb>) -> (r: StatusMessage)
        ensures
            r.text == message,
            r.color == color,
    {
        StatusMessage { text: message, color }
    }
}

/// The number of clusters in row `y`, or 0 past the last row.
pub open spec fn row_width(lines: Seq<Seq<char>>, y: int) -> int {
    if 0 <= y < lines.len() {
        graphemes_of(lines[y]).len() as int
    } else {
        0
    }
}

/// Where a movement key takes the cursor: up and down stay within
/// `0..=lines.len()`, left and right wrap at row ends, page keys move by
/// `page` rows, and the column is then pulled back to the end of the row.
pub open spec fn moved(lines: Seq<Seq<char>>, p: Position, key: Key, page: int) -> Position {
    let h = lines.len() as int;
    let x = p.x as int;
    let y = p.y as int;
    let w = row_width(lines, y);
    let (nx, ny) = match key {
        Key::Up => (x, if y > 0 { y - 1 } else { 0 }),
        Key::Down => (x, if y < h { y + 1 } else { y }),
        Key::Left => if x > 0 {
            (x - 1, y)
        } else if y > 0 {
            (row_width(lines, y - 1), y - 1)
        } else {
            (x, y)
        },
        Key::Right => if x < w {
            (x + 1, y)
        } else if y < h - 1 {
            (0, y + 1)
        } else {
            (x, y)
        },
        Key::PageUp => (x, if y > page { y - page } else { 0 }),
        Key::PageDown => (x, if y + page < h { y + page } else { h }),
        Key::Home => (0, y),
        Key::End => (w, y),
        _ => (x, y),
    };
    let nw = row_width(lines, ny);
    Position { x: (if nx > nw { nw } else { nx }) as usize, y: ny as usize }
}

/// The offset along one axis that keeps `c` within `span` cells of it,
/// moved no further than needed.
pub open spec fn scrolled_axis(c: int, off: int, span: int) -> int {
    if c < off {
        c
    } else if c >= off + span {
        if c - span + 1 > usize::MAX {
            usize::MAX as int
        } else {
            c - span + 1
        }
    } else {
        off
    }
}

/// The message shown while moving between matches.
pub open spec fn search_status(index: int, count: int) -> Seq<char> {
    "Search Mode - "@ + decimal((index + 1) as nat) + "/"@ + decimal(count as nat)
        + " (navigate = n / N)"@
}

/// The message for a search without matches: while typing it shows the query.
pub open spec fn no_results_status(query: Seq<char>, live: bool) -> Seq<char> {
    if live {
        "/"@ + query + " - No results found"@
    } else {
        "No results found"@
    }
}

/// The row the viewport is aimed at when jumping to a match in row `y`:
/// half a screen past it after a forward jump, before it after a backward
/// one, kept within `0..=len`.
pub open spec fn jump_row(y: int, half: int, direction: Direction, len: int) -> int {
    let t = if direction == Direction::Forward {
        if y + half > usize::MAX {
            usize::MAX as int
        } else {
            y + half
        }
    } else if y > half {
        y - half
    } else {
        0
    };
    if t > len {
        len
    } else {
        t
    }
}

/// What the caller is to do after a command has run.
pub enum Effect {
    Done,
    /// Write the document out, then report through `Editor::save`.
    Save { then_quit: bool },
    /// Run a search for `query`, from the bottom when `reverse`.
    Search { query: String, reverse: bool },
}

/// How an attempt to write the document out ended.
#[derive(PartialEq, Eq, Structural, Clone, Copy, Debug)]
pub enum SaveOutcome {
    /// No file name was given.
    Aborted,
    Written,
    Failed,
}

/// What the caller is to do after a key in the main loop.
#[derive(PartialEq, Eq, Structural, Clone, Copy, Debug)]
pub enum KeyAction {
    Nothing,
    CursorBar,
    CursorBlock,
    /// Read a command line, then resolve and run it.
    CommandPrompt,
    /// Read a query, searching live while it is typed, then search.
    SearchPrompt,
}

/// Where a prompt stands after a key.
#[derive(PartialEq, Eq, Structural, Clone, Copy, Debug)]
pub enum PromptState {
    Editing,
    Entered,
    Cancelled,
}

/// A control character (general category Cc).
pub open spec fn is_control(c: char) -> bool {
    (c as u32) < 0x20 || (0x7f <= (c as u32) && (c as u32) < 0xa0)
}

/// The message shown while typing in insert mode.
pub open spec fn insert_banner() -> Seq<char> {
    "-- INSERT --"@
}

/// The action of the command that a prompt's line names, if any.
pub open spec fn line_action(commands: &Commands, line: Option<String>) -> Option<CommandAction> {
    match line {
        Some(l) => match last_true(matched_by(commands.commands@, without_marker(l@))) {
            Some(k) => Some(commands.commands@[k].action_spec()),
            None => None,
        },
        None => None,
    }
}

/// `a + b`, stopping at the largest `usize`.
pub open spec fn sat_add(a: int, b: int) -> int {
    if a + b > usize::MAX {
        usize::MAX as int
    } else {
        a + b
    }
}

/// `a - b`, stopping at zero.
pub open spec fn sat_sub(a: int, b: int) -> int {
    if a > b {
        a - b
    } else {
        0
    }
}

/// The movement that a command-mode letter stands for.
pub open spec fn letter_move(c: char) -> Option<Key> {
    if c == 'k' {
        Some(Key::Up)
    } else if c == 'j' {
        Some(Key::Down)
    } else if c == 'l' {
        Some(Key::Right)
    } else if c == 'h' {
        Some(Key::Left)
    } else {
        None
    }
}

/// The cursor after a command-mode letter that is not a movement: `H`, `M`
/// and `L` go to the top, middle and bottom row of the window (keeping the
/// column); other letters leave it.
pub open spec fn letter_cursor(c: char, cursor: Position, offset: Position, height: int) -> Position {
    if c == 'H' {
        Position { x: cursor.x, y: offset.y }
    } else if c == 'M' {
        Position { x: cursor.x, y: sat_sub(sat_add(offset.y as int, height / 2), 1) as usize }
    } else if c == 'L' {
        Position { x: cursor.x, y: sat_add(offset.y as int, sat_sub(height, 1)) as usize }
    } else {
        cursor
    }
}

/// A key that moves the cursor wherever it is pressed.
pub open spec fn is_movement(key: Key) -> bool {
    key == Key::Up || key == Key::Down || key == Key::Left || key == Key::Right || key
        == Key::PageUp || key == Key::PageDown || key == Key::Home || key == Key::End
}

/// What the caller is to do after `key` in `mode`.
pub open spec fn key_action(mode: InteractionMode, key: Key) -> KeyAction {
    if key == Key::Esc {
        KeyAction::CursorBlock
    } else if mode == InteractionMode::Command && key == Key::Char('i') {
        KeyAction::CursorBar
    } else if mode == InteractionMode::Command && key == Key::Char(':') {
        KeyAction::CommandPrompt
    } else if mode == InteractionMode::Command && key == Key::Char('/') {
        KeyAction::SearchPrompt
    } else {
        KeyAction::Nothing
    }
}

/// The mode after `key` in `mode`.
pub open spec fn mode_after(mode: InteractionMode, key: Key) -> InteractionMode {
    if key == Key::Esc {
        InteractionMode::Command
    } else if mode == InteractionMode::Command && key == Key::Char('i') {
        InteractionMode::Insert
    } else if mode == InteractionMode::Command && key == Key::Char('/') {
        InteractionMode::Search
    } else {
        mode
    }
}

/// At most the first `n` characters of `s`.
pub open spec fn take_at_most(s: Seq<char>, n: int) -> Seq<char> {
    if s.len() <= n {
        s
    } else {
        s.take(n)
    }
}

/// `n` spaces.
pub open spec fn spaces(n: int) -> Seq<char> {
    Seq::new(n as nat, |i: int| ' ')
}

/// The status bar: the file name (at most 20 characters, or `[No Name]`)
/// with ` [+]` when there are unsaved changes on the left, the 1-based
/// `row,column` of the cursor on the right, spaces between, cut to `width`.
pub open spec fn status_line(name: Option<Seq<char>>, dirty: bool, cursor: Position, width: int) -> Seq<char> {
    let left = match name {
        Some(n) => take_at_most(n, 20),
        None => "[No Name]"@,
    } + if dirty {
        " [+]"@
    } else {
        Seq::<char>::empty()
    };
    let right = decimal(sat_add(cursor.y as int, 1) as nat) + ","@ + decimal(
        sat_add(cursor.x as int, 1) as nat,
    );
    let pad = if left.len() + right.len() < width {
        width - left.len() - right.len()
    } else {
        0
    };
    take_at_most(left + spaces(pad) + right, width)
}

/// At most the first `n` characters of `s`.
fn truncated(s: &str, n: usize) -> (r: String)
    ensures
        r@ == take_at_most(s@, n as int),
{
    let len = s.unicode_len();
    if len <= n {
        s.to_owned()
    } else {
        s.substring_char(0, n).to_owned()
    }
}

/// The editing session: document, cursor, viewport and message.
pub struct Editor {
    pub should_quit: bool,
    pub size: Size,
    pub cursor_position: Position,
    pub offset: Position,
    pub document: Document,
    pub status_message: StatusMessage,
    pub interaction_mode: InteractionMode,
    pub just_entered: bool,
}

/// Match `p`, `width` clusters wide, covers cluster `c` of row `y`.
pub open spec fn covers(p: Position, width: int, y: int, c: int) -> bool {
    p.y == y && p.x <= c < sat_add(p.x as int, width)
}

/// Every cluster that a match covers holds `SearchSelected` when the current
/// match (at index `current`) covers it, and `Search` otherwise: where
/// matches overlap, the current one wins.
pub open spec fn matches_marked(
    rows: Seq<Row>,
    positions: Seq<Position>,
    width: int,
    current: int,
) -> bool {
    forall|k: int, c: int|
        0 <= k < positions.len() && positions[k].y < rows.len() && covers(
            positions[k],
            width,
            positions[k].y as int,
            c,
        ) && c < rows[positions[k].y as int].tags().len() ==> #[trigger] rows[positions[k].y as int].tags()[c]
            == if covers(positions[current], width, positions[k].y as int, c) {
            Type::SearchSelected
        } else {
            Type::Search
        }
}

/// The clusters covered by the matches before index `upto`, other than the
/// current one and outside `skip` (a part of row `skip_y`), hold `Search`.
pub open spec fn others_marked(
    rows: Seq<Row>,
    positions: Seq<Position>,
    width: int,
    current: int,
    upto: int,
    skip_y: int,
    skip_from: int,
    skip_to: int,
) -> bool {
    forall|k: int, c: int|
        0 <= k < upto && k != current && positions[k].y < rows.len() && covers(
            positions[k],
            width,
            positions[k].y as int,
            c,
        ) && c < rows[positions[k].y as int].tags().len() && !(positions[k].y == skip_y
            && skip_from <= c < skip_to) ==> #[trigger] rows[positions[k].y as int].tags()[c]
            == Type::Search
}

/// Marks `state.query_width` clusters at each match: first every match but
/// the current one as `Search`, then the current one as `SearchSelected`.
fn mark_matches(document: &mut Document, state: &SearchState)
    requires
        old(document).wf(),
        state.wf(),
    ensures
        final(document).wf(),
        final(document).lines() == old(document).lines(),
        final(document).dirty_spec() == old(document).dirty_spec(),
        final(document).file_name_spec() == old(document).file_name_spec(),
        matches_marked(
            final(document).rows_seq(),
            state.positions@,
            state.query_width as int,
            state.index as int,
        ),
{
    let ghost ps = state.positions@;
    let ghost w = state.query_width as int;
    let ghost cur = state.index as int;
    let mut k: usize = 0;
    while k < state.positions.len()
        invariant
            ps == state.positions@,
            w == state.query_width as int,
            cur == state.index as int,
            0 <= cur < ps.len(),
            k <= ps.len(),
            document.wf(),
            document.lines() == old(document).lines(),
            document.dirty_spec() == old(document).dirty_spec(),
            document.file_name_spec() == old(document).file_name_spec(),
            others_marked(document.rows_seq(), ps, w, cur, k as int, -1, 0, 0),
        decreases ps.len() - k,
    {
        if k != state.index {
            let p = state.positions[k];
            let end = p.x.saturating_add(state.query_width);
            let mut c: usize = p.x;
            while c < end
                invariant
                    ps == state.positions@,
                    w == state.query_width as int,
                    cur == state.index as int,
                    k < ps.len(),
                    k != cur,
                    p == ps[k as int],
                    end == sat_add(p.x as int, w),
                    p.x <= c <= end,
                    document.wf(),
                    document.lines() == old(document).lines(),
                    document.dirty_spec() == old(document).dirty_spec(),
                    document.file_name_spec() == old(document).file_name_spec(),
                    others_marked(document.rows_seq(), ps, w, cur, k as int, -1, 0, 0),
                    p.y < document.rows_seq().len() ==> forall|j: int|
                        p.x <= j < c && j < document.rows_seq()[p.y as int].tags().len()
                            ==> #[trigger] document.rows_seq()[p.y as int].tags()[j]
                            == Type::Search,
                decreases end - c,
            {
                let ghost before = document.rows_seq();
                document.add_highlighting(&Position { x: c, y: p.y }, Type::Search);
                proof {
                    let after = document.rows_seq();
                    assert forall|k2: int, c2: int|
                        0 <= k2 < k && k2 != cur && ps[k2].y < after.len() && covers(
                            ps[k2],
                            w,
                            ps[k2].y as int,
                            c2,
                        ) && c2 < after[ps[k2].y as int].tags().len() && !(ps[k2].y == -1 && 0
                            <= c2 < 0) implies #[trigger] after[ps[k2].y as int].tags()[c2]
                        == Type::Search by {
                        let y2 = ps[k2].y as int;
                        if y2 != p.y {
                            assert(after[y2] == before[y2]);
                        } else {
                            assert(before[y2].tags()[c2] == Type::Search);
                        }
                    }
                }
                c += 1;
            }
            proof {
                let rows = document.rows_seq();
                assert forall|k2: int, c2: int|
                    0 <= k2 < k + 1 && k2 != cur && ps[k2].y < rows.len() && covers(
                        ps[k2],
                        w,
                        ps[k2].y as int,
                        c2,
                    ) && c2 < rows[ps[k2].y as int].tags().len() && !(ps[k2].y == -1 && 0 <= c2
                        < 0) implies #[trigger] rows[ps[k2].y as int].tags()[c2]
                    == Type::Search by {
                    if k2 == k {
                        assert(ps[k2] == p);
                    }
                }
            }
        }
        k += 1;
    }
    let p = state.positions[state.index];
    let end = p.x.saturating_add(state.query_width);
    let mut c: usize = p.x;
    while c < end
        invariant
            ps == state.positions@,
            w == state.query_width as int,
            cur == state.index as int,
            0 <= cur < ps.len(),
            p == ps[cur],
            end == sat_add(p.x as int, w),
            p.x <= c <= end,
            document.wf(),
            document.lines() == old(document).lines(),
            document.dirty_spec() == old(document).dirty_spec(),
            document.file_name_spec() == old(document).file_name_spec(),
            others_marked(document.rows_seq(), ps, w, cur, ps.len() as int, p.y as int, p.x as int, c as int),
            p.y < document.rows_seq().len() ==> forall|j: int|
                p.x <= j < c && j < document.rows_seq()[p.y as int].tags().len()
                    ==> #[trigger] document.rows_seq()[p.y as int].tags()[j]
                    == Type::SearchSelected,
        decreases end - c,
    {
        let ghost before = document.rows_seq();
        document.add_highlighting(&Position { x: c, y: p.y }, Type::SearchSelected);
        proof {
            let after = document.rows_seq();
            assert forall|k2: int, c2: int|
                0 <= k2 < ps.len() && k2 != cur && ps[k2].y < after.len() && covers(
                    ps[k2],
                    w,
                    ps[k2].y as int,
                    c2,
                ) && c2 < after[ps[k2].y as int].tags().len() && !(ps[k2].y == p.y && p.x <= c2
                    < c + 1) implies #[trigger] after[ps[k2].y as int].tags()[c2]
                == Type::Search by {
                let y2 = ps[k2].y as int;
                if y2 != p.y {
                    assert(after[y2] == before[y2]);
                } else {
                    assert(before[y2].tags()[c2] == Type::Search);
                }
            }
        }
        c += 1;
    }
    proof {
        let rows = document.rows_seq();
        assert forall|k2: int, c2: int|
            0 <= k2 < ps.len() && ps[k2].y < rows.len() && covers(
                ps[k2],
                w,
                ps[k2].y as int,
                c2,
            ) && c2 < rows[ps[k2].y as int].tags().len() implies #[trigger] rows[ps[k2].y as int].tags()[c2]
            == if covers(ps[cur], w, ps[k2].y as int, c2) {
            Type::SearchSelected
        } else {
            Type::Search
        } by {
            if covers(ps[cur], w, ps[k2].y as int, c2) {
                assert(rows[p.y as int].tags()[c2] == Type::SearchSelected);
            } else {
                assert(k2 != cur);
            }
        }
    }
}

impl Editor {
    pub open spec fn wf(&self) -> bool {
        self.document.wf()
    }

    /// Keeps the cursor inside the visible window, moving the offset as
    /// little as needed along each axis.
    pub fn scroll(&mut self)
        ensures
            final(self).offset.y == scrolled_axis(
                old(self).cursor_position.y as int,
                old(self).offset.y as int,
                old(self).size.height as int,
            ),
            final(self).offset.x == scrolled_axis(
                old(self).cursor_position.x as int,
                old(self).offset.x as int,
                old(self).size.width as int,
            ),
            old(self).size.height > 0 ==> final(self).offset.y <= old(self).cursor_position.y
                < final(self).offset.y + old(self).size.height,
            old(self).size.width > 0 ==> final(self).offset.x <= old(self).cursor_position.x
                < final(self).offset.x + old(self).size.width,
            final(self).cursor_position == old(self).cursor_position,
            final(self).document == old(self).document,
            final(self).size == old(self).size,
            final(self).should_quit == old(self).should_quit,
            final(self).status_message == old(self).status_message,
            final(self).interaction_mode == old(self).interaction_mode,
            final(self).just_entered == old(self).just_entered,
    {
        let x = self.cursor_position.x;
        let y = self.cursor_position.y;
        let width = self.size.width as usize;
        let height = self.size.height as usize;
        if y < self.offset.y {
            self.offset.y = y;
        } else if y - self.offset.y >= height {
            self.offset.y = y.saturating_sub(height).saturating_add(1);
        }
        if x < self.offset.x {
            self.offset.x = x;
        } else if x - self.offset.x >= width {
            self.offset.x = x.saturating_sub(width).saturating_add(1);
        }
    }

    fn row_len(&self, y: usize) -> (r: usize)
        requires
            self.wf(),
        ensures
            r == row_width(self.document.lines(), y as int),
    {
        match self.document.row(y) {
            Some(row) => {
                assert(self.document.rows_seq()[y as int].wf());
                row.len()
            },
            None => 0,
        }
    }

    /// Moves the cursor for a movement key.
    pub fn move_cursor(&mut self, key: Key)
        requires
            old(self).wf(),
        ensures
            final(self).wf(),
            final(self).cursor_position == moved(
                old(self).document.lines(),
                old(self).cursor_position,
                key,
                old(self).size.height as int,
            ),
            old(self).cursor_position.y <= old(self).document.lines().len()
                ==> final(self).cursor_position.y <= old(self).document.lines().len(),
            final(self).cursor_position.x <= row_width(
                old(self).document.lines(),
                final(self).cursor_position.y as int,
            ),
            final(self).offset == old(self).offset,
            final(self).document == old(self).document,
            final(self).size == old(self).size,
            final(self).should_quit == old(self).should_quit,
            final(self).status_message == old(self).status_message,
            final(self).interaction_mode == old(self).interaction_mode,
            final(self).just_entered == old(self).just_entered,
    {
        let terminal_height = self.size.height as usize;
        let mut y = self.cursor_position.y;
        let mut x = self.cursor_position.x;
        let height = self.document.len();
        let width = self.row_len(y);
        match key {
            Key::Up => y = y.saturating_sub(1),
            Key::Down => {
                if y < height {
                    y = y + 1;
                }
            },
            Key::Left => {
                if x > 0 {
                    x = x - 1;
                } else if y > 0 {
                    y = y - 1;
                    x = self.row_len(y);
                }
            },
            Key::Right => {
                if x < width {
                    x = x + 1;
                } else if y < height - 1 {
                    y = y + 1;
                    x = 0;
                }
            },
            Key::PageUp => {
                y = if y > terminal_height {
                    y - terminal_height
                } else {
                    0
                };
            },
            Key::PageDown => {
                y = if y.saturating_add(terminal_height) < height {
                    y + terminal_height
                } else {
                    height
                };
            },
            Key::Home => x = 0,
            Key::End => x = width,
            _ => {},
        }
        let new_width = self.row_len(y);
        if x > new_width {
            x = new_width;
        }
        self.cursor_position = Position { x, y };
    }

    /// Shows the current match of `state`: aims the viewport at it, puts the
    /// cursor on it and marks every match, the current one as selected.
    /// Outside live mode the message tells which match is current.
    pub fn show_match(&mut self, state: &SearchState, live: bool)
        requires
            old(self).wf(),
            state.wf(),
        ensures
            final(self).wf(),
            final(self).document.lines() == old(self).document.lines(),
            final(self).document.dirty_spec() == old(self).document.dirty_spec(),
            final(self).document.file_name_spec() == old(self).document.file_name_spec(),
            final(self).cursor_position == state.positions@[state.index as int],
            matches_marked(
                final(self).document.rows_seq(),
                state.positions@,
                state.query_width as int,
                state.index as int,
            ),
            final(self).offset.y == scrolled_axis(
                jump_row(
                    state.positions@[state.index as int].y as int,
                    old(self).size.height as int / 2,
                    state.direction,
                    old(self).document.lines().len() as int,
                ),
                old(self).offset.y as int,
                old(self).size.height as int,
            ),
            final(self).offset.x == scrolled_axis(
                state.positions@[state.index as int].x as int,
                old(self).offset.x as int,
                old(self).size.width as int,
            ),
            !live ==> final(self).status_message.text@ == search_status(
                state.index as int,
                state.positions@.len() as int,
            ),
            !live ==> final(self).status_message.color is None,
            live ==> final(self).status_message == old(self).status_message,
            final(self).size == old(self).size,
            final(self).should_quit == old(self).should_quit,
            final(self).interaction_mode == old(self).interaction_mode,
            final(self).just_entered == old(self).just_entered,
    {
        if !live {
            let mut text = "Search Mode - ".to_owned();
            let count = state.positions.len();
            text.append(decimal_string(state.index + 1).as_str());
            text.append("/");
            text.append(decimal_string(state.positions.len()).as_str());
            text.append(" (navigate = n / N)");
            self.status_message = StatusMessage::from(text, None);
        }
        let position = state.positions[state.index];
        let half = (self.size.height / 2) as usize;
        let mut y = if state.direction == Direction::Forward {
            position.y.saturating_add(half)
        } else {
            position.y.saturating_sub(half)
        };
        if y > self.document.len() {
            y = self.document.len();
        }
        self.cursor_position = Position { x: position.x, y };
        self.scroll();
        self.cursor_position = position;
        mark_matches(&mut self.document, state);
    }

    /// Looks for `query` and shows the first match (the last when
    /// `reverse`); with no match, says so in the message and returns `None`.
    pub fn start_search(&mut self, query: &str, reverse: bool, live: bool) -> (r: Option<
        SearchState,
    >)
        requires
            old(self).wf(),
        ensures
            final(self).wf(),
            final(self).document.lines() == old(self).document.lines(),
            final(self).document.dirty_spec() == old(self).document.dirty_spec(),
            r is None <==> forall|y: int|
                0 <= y < old(self).document.lines().len() ==> !contains(
                    #[trigger] old(self).document.lines()[y],
                    query@,
                ),
            r is None ==> final(self).status_message.text@ == no_results_status(query@, live)
                && final(self).status_message.color == Some(error_color_spec()),
            r is None ==> final(self).cursor_position == old(self).cursor_position
                && final(self).offset == old(self).offset && final(self).document == old(
                self).document,
            final(self).document.file_name_spec() == old(self).document.file_name_spec(),
            final(self).should_quit == old(self).should_quit,
            final(self).interaction_mode == old(self).interaction_mode,
            r matches Some(st) ==> st.wf() && finds(old(self).document.lines(), query@, st.positions@)
                && st.index == (if reverse { st.positions@.len() - 1 } else { 0 })
                && st.direction == Direction::Forward
                && st.query_width == graphemes_of(query@).len()
                && final(self).cursor_position == st.positions@[st.index as int]
                && matches_marked(
                final(self).document.rows_seq(),
                st.positions@,
                st.query_width as int,
                st.index as int,
            ),
    {
        let positions = self.document.find(query);
        if positions.len() == 0 {
            let text = if live {
                let mut t = "/".to_owned();
                t.append(query);
                t.append(" - No results found");
                t
            } else {
                "No results found".to_owned()
            };
            self.status_message = StatusMessage::from(text, Some(error_color()));
            return None;
        }
        let query_width = graphemes(query).len();
        let index = if reverse {
            positions.len() - 1
        } else {
            0
        };
        let state = SearchState { positions, index, direction: Direction::Forward, query_width };
        self.show_match(&state, live);
        Some(state)
    }

    /// A fresh session over `size`. With a `path`, `contents` is what was
    /// read from it, or `None` when reading failed: then the document is
    /// empty and the message names the path.
    pub fn default(size: Size, path: Option<String>, contents: Option<String>) -> (r: Editor)
        ensures
            r.wf(),
            !r.should_quit,
            r.size == size,
            r.cursor_position == (Position { x: 0, y: 0 }),
            r.offset == (Position { x: 0, y: 0 }),
            r.interaction_mode == InteractionMode::Command,
            r.just_entered,
            !r.document.dirty_spec(),
            path is None ==> r.document.lines() == seq![Seq::<char>::empty()]
                && r.document.file_name_spec() is None && r.status_message.text@.len() == 0,
            path matches Some(p) ==> match contents {
                Some(c) => r.document.lines() == crate::document::rows_of(c@)
                    && r.document.file_name_spec() == Some(p) && r.status_message.text@.len()
                    == 0,
                None => r.document.lines() == seq![Seq::<char>::empty()]
                    && r.document.file_name_spec() is None && r.status_message.text@
                    == "ERR: Could not open file: "@ + p@ && r.status_message.color == Some(
                    error_color_spec(),
                ),
            },
    {
        let mut status = StatusMessage::from(String::new(), None);
        let document = match path {
            None => Document::default(),
            Some(p) => match contents {
                Some(c) => Document::from_text(p, c.as_str()),
                None => {
                    let mut text = "ERR: Could not open file: ".to_owned();
                    text.append(p.as_str());
                    status = StatusMessage::from(text, Some(error_color()));
                    Document::default()
                },
            },
        };
        Editor {
            should_quit: false,
            size,
            cursor_position: Position { x: 0, y: 0 },
            offset: Position { x: 0, y: 0 },
            document,
            status_message: status,
            interaction_mode: InteractionMode::Command,
            just_entered: true,
        }
    }

    /// Runs a resolved command. Quitting a document with unsaved changes
    /// needs the force marker; saving and searching are left to the caller.
    pub fn execute(&mut self, invocation: &Invocation) -> (r: Effect)
        requires
            old(self).wf(),
        ensures
            final(self).wf(),
            final(self).document == old(self).document,
            final(self).cursor_position == old(self).cursor_position,
            final(self).offset == old(self).offset,
            invocation.action == CommandAction::Quit ==> r is Done,
            invocation.action == CommandAction::Quit && old(self).document.dirty_spec()
                && !invocation.forced ==> final(self).should_quit == old(self).should_quit
                && final(self).status_message.text@
                == "There are unsaved changes. Run :q! to force quit"@
                && final(self).status_message.color == Some(error_color_spec()),
            invocation.action == CommandAction::Quit && !(old(self).document.dirty_spec()
                && !invocation.forced) ==> final(self).should_quit,
            invocation.action == CommandAction::Write ==> r == (Effect::Save { then_quit: false }),
            invocation.action == CommandAction::WriteQuit ==> r == (Effect::Save { then_quit: true }),
            invocation.action == CommandAction::SearchForward ==> (r matches Effect::Search {
                query,
                reverse,
            } && !reverse && query@ == joined(invocation.params@.map_values(|w: String| w@))),
            invocation.action == CommandAction::SearchBackward ==> (r matches Effect::Search {
                query,
                reverse,
            } && reverse && query@ == joined(invocation.params@.map_values(|w: String| w@))),
            invocation.action != CommandAction::Quit ==> final(self).should_quit == old(self).should_quit,
    {
        match invocation.action {
            CommandAction::Quit => {
                if self.document.is_dirty() && !invocation.forced {
                    self.status_message = StatusMessage::from(
                        "There are unsaved changes. Run :q! to force quit".to_owned(),
                        Some(error_color()),
                    );
                } else {
                    self.should_quit = true;
                }
                Effect::Done
            },
            CommandAction::Write => Effect::Save { then_quit: false },
            CommandAction::WriteQuit => Effect::Save { then_quit: true },
            CommandAction::SearchForward => Effect::Search {
                query: crate::commands::join_words(&invocation.params),
                reverse: false,
            },
            CommandAction::SearchBackward => Effect::Search {
                query: crate::commands::join_words(&invocation.params),
                reverse: true,
            },
        }
    }

    /// Reports how saving went and returns whether the document was
    /// written; after a written save it is clean. For a save-and-quit the
    /// session quits only when the document was written.
    pub fn save(&mut self, outcome: SaveOutcome, then_quit: bool) -> (r: bool)
        requires
            old(self).wf(),
        ensures
            final(self).wf(),
            r == (outcome == SaveOutcome::Written),
            final(self).document.lines() == old(self).document.lines(),
            final(self).document.file_name_spec() == old(self).document.file_name_spec(),
            final(self).document.dirty_spec() == (old(self).document.dirty_spec() && !r),
            final(self).should_quit == (if then_quit { r } else { old(self).should_quit }),
            final(self).status_message.text@ == (match outcome {
                SaveOutcome::Aborted => "Save aborted."@,
                SaveOutcome::Written => "File saved successfully"@,
                SaveOutcome::Failed => "ERR: could not write to file"@,
            }),
            final(self).status_message.color == (if r {
                None
            } else {
                Some(error_color_spec())
            }),
            final(self).cursor_position == old(self).cursor_position,
    {
        let written = match outcome {
            SaveOutcome::Aborted => {
                self.status_message = StatusMessage::from(
                    "Save aborted.".to_owned(),
                    Some(error_color()),
                );
                false
            },
            SaveOutcome::Written => {
                self.document.mark_saved();
                self.status_message = StatusMessage::from(
                    "File saved successfully".to_owned(),
                    None,
                );
                true
            },
            SaveOutcome::Failed => {
                self.status_message = StatusMessage::from(
                    "ERR: could not write to file".to_owned(),
                    Some(error_color()),
                );
                false
            },
        };
        if then_quit {
            self.should_quit = written;
        }
        written
    }

    /// Reports a command line that was cancelled or named no command.
    pub fn command_failed(&mut self, aborted: bool)
        ensures
            final(self).status_message.text@ == (if aborted {
                "ERR: Command aborted"@
            } else {
                "ERR: Invalid command"@
            }),
            final(self).status_message.color == Some(error_color_spec()),
            final(self).document == old(self).document,
            final(self).should_quit == old(self).should_quit,
            final(self).cursor_position == old(self).cursor_position,
    {
        let text = if aborted {
            "ERR: Command aborted".to_owned()
        } else {
            "ERR: Invalid command".to_owned()
        };
        self.status_message = StatusMessage::from(text, Some(error_color()));
    }

    /// Reports a search prompt that was cancelled.
    pub fn search_aborted(&mut self)
        ensures
            final(self).status_message.text@ == "ERR: Search Aborted"@,
            final(self).status_message.color == Some(error_color_spec()),
            final(self).document == old(self).document,
            final(self).should_quit == old(self).should_quit,
            final(self).cursor_position == old(self).cursor_position,
    {
        self.status_message = StatusMessage::from(
            "ERR: Search Aborted".to_owned(),
            Some(error_color()),
        );
    }

    /// Handles one key of a prompt's input: Enter ends it, Esc cancels it
    /// (clearing the input and going back to command mode), Backspace drops
    /// the last character, and a printable character is added.
    pub fn prompt_key(&mut self, input: &mut String, key: Key) -> (r: PromptState)
        ensures
            r == (if key == Key::Char('\n') {
                PromptState::Entered
            } else if key == Key::Esc {
                PromptState::Cancelled
            } else {
                PromptState::Editing
            }),
            final(input)@ == (match key {
                Key::Backspace => if old(input)@.len() > 0 {
                    old(input)@.drop_last()
                } else {
                    old(input)@
                },
                Key::Char(c) => if c != '\n' && !is_control(c) {
                    old(input)@.push(c)
                } else {
                    old(input)@
                },
                Key::Esc => Seq::<char>::empty(),
                _ => old(input)@,
            }),
            final(self).interaction_mode == (if key == Key::Esc {
                InteractionMode::Command
            } else {
                old(self).interaction_mode
            }),
            final(self).document == old(self).document,
            final(self).cursor_position == old(self).cursor_position,
            final(self).offset == old(self).offset,
            final(self).should_quit == old(self).should_quit,
    {
        match key {
            Key::Backspace => {
                let n = input.as_str().unicode_len();
                if n > 0 {
                    let kept = input.as_str().substring_char(0, n - 1).to_owned();
                    *input = kept;
                }
                PromptState::Editing
            },
            Key::Char('\n') => PromptState::Entered,
            Key::Char(c) => {
                if !((c as u32) < 0x20 || (0x7f <= (c as u32) && (c as u32) < 0xa0)) {
                    crate::text::push_char(input, c);
                }
                PromptState::Editing
            },
            Key::Esc => {
                *input = String::new();
                self.interaction_mode = InteractionMode::Command;
                PromptState::Cancelled
            },
            _ => PromptState::Editing,
        }
    }

    /// Shows the insert-mode banner while in insert mode, and clears it
    /// once the mode is left.
    pub fn update_mode_message(&mut self)
        ensures
            old(self).interaction_mode == InteractionMode::Insert ==> final(self).status_message.text@ == insert_banner() && final(self).status_message.color is None,
            old(self).interaction_mode != InteractionMode::Insert
                && old(self).status_message.text@ == insert_banner() ==> final(self).status_message.text@.len() == 0 && final(self).status_message.color is None,
            old(self).interaction_mode != InteractionMode::Insert
                && old(self).status_message.text@ != insert_banner() ==> final(self).status_message
                == old(self).status_message,
            final(self).document == old(self).document,
            final(self).interaction_mode == old(self).interaction_mode,
            final(self).cursor_position == old(self).cursor_position,
    {
        let banner = "-- INSERT --".to_owned();
        if self.interaction_mode == InteractionMode::Insert {
            self.status_message = StatusMessage::from(banner, None);
        } else if self.status_message.text == banner {
            self.status_message = StatusMessage::from(String::new(), None);
        }
    }

    /// Where the terminal cursor goes: the cursor's place in the window,
    /// right of the line-number gutter, on a row that shows text.
    pub fn screen_cursor(&self) -> (r: Position)
        requires
            self.wf(),
        ensures
            r.x == sat_add(
                sat_add(
                    sat_sub(self.cursor_position.x as int, self.offset.x as int),
                    decimal(self.document.lines().len() as nat).len() as int,
                ),
                1,
            ),
            r.y == (if sat_sub(self.cursor_position.y as int, self.offset.y as int)
                > self.document.lines().len() - 1 {
                self.document.lines().len() - 1
            } else {
                sat_sub(self.cursor_position.y as int, self.offset.y as int)
            }),
    {
        let digits = decimal_string(self.document.len()).as_str().unicode_len();
        let x = self.cursor_position.x.saturating_sub(self.offset.x).saturating_add(
            digits,
        ).saturating_add(1);
        let mut y = self.cursor_position.y.saturating_sub(self.offset.y);
        if y > self.document.len() - 1 {
            y = self.document.len() - 1;
        }
        Position { x, y }
    }

    /// Handles a key of the main loop. In command mode letters move the
    /// cursor or switch mode; in the other modes a character is typed into
    /// the document. Delete and Backspace delete, movement keys move, and the
    /// viewport then follows the cursor.
    pub fn process_key(&mut self, key: Key) -> (r: KeyAction)
        requires
            old(self).wf(),
        ensures
            final(self).wf(),
            r == key_action(old(self).interaction_mode, key),
            final(self).interaction_mode == mode_after(old(self).interaction_mode, key),
            final(self).size == old(self).size,
            final(self).should_quit == old(self).should_quit,
            final(self).status_message == old(self).status_message,
            final(self).offset.y == scrolled_axis(
                final(self).cursor_position.y as int,
                old(self).offset.y as int,
                old(self).size.height as int,
            ),
            final(self).offset.x == scrolled_axis(
                final(self).cursor_position.x as int,
                old(self).offset.x as int,
                old(self).size.width as int,
            ),
            is_movement(key) ==> final(self).cursor_position == moved(
                old(self).document.lines(),
                old(self).cursor_position,
                key,
                old(self).size.height as int,
            ),
            key is Char && old(self).interaction_mode == InteractionMode::Command
                ==> final(self).document == old(self).document,
            key is Char && old(self).interaction_mode == InteractionMode::Command
                && letter_move(key->Char_0) is Some ==> final(self).cursor_position == moved(
                old(self).document.lines(),
                old(self).cursor_position,
                letter_move(key->Char_0)->0,
                old(self).size.height as int,
            ),
            key is Char && old(self).interaction_mode == InteractionMode::Command
                && letter_move(key->Char_0) is None ==> final(self).cursor_position
                == letter_cursor(
                key->Char_0,
                old(self).cursor_position,
                old(self).offset,
                old(self).size.height as int,
            ),
            key is Char && old(self).interaction_mode != InteractionMode::Command
                ==> final(self).document.lines() == doc_inserted(
                old(self).document.lines(),
                old(self).cursor_position,
                key->Char_0,
            ) && final(self).document.dirty_spec() == (old(self).document.dirty_spec()
                || old(self).cursor_position.y <= old(self).document.lines().len())
                && final(self).cursor_position == moved(
                final(self).document.lines(),
                old(self).cursor_position,
                Key::Right,
                old(self).size.height as int,
            ),
            key == Key::Delete ==> final(self).document.lines() == doc_deleted(
                old(self).document.lines(),
                old(self).cursor_position,
            ) && final(self).cursor_position == old(self).cursor_position,
            key == Key::Backspace && (old(self).cursor_position.x > 0
                || old(self).cursor_position.y > 0) ==> final(self).cursor_position == moved(
                old(self).document.lines(),
                old(self).cursor_position,
                Key::Left,
                old(self).size.height as int,
            ) && final(self).document.lines() == doc_deleted(
                old(self).document.lines(),
                final(self).cursor_position,
            ),
            key == Key::Backspace && old(self).cursor_position.x == 0
                && old(self).cursor_position.y == 0 ==> final(self).document == old(self).document
                && final(self).cursor_position == old(self).cursor_position,
            (is_movement(key) || key == Key::Esc || key == Key::Other) ==> final(self).document
                == old(self).document,
    {
        let mut action = KeyAction::Nothing;
        match key {
            Key::Esc => {
                self.interaction_mode = InteractionMode::Command;
                action = KeyAction::CursorBlock;
            },
            Key::Char(c) => {
                if self.interaction_mode == InteractionMode::Command {
                    match c {
                        'i' => {
                            self.just_entered = false;
                            self.interaction_mode = InteractionMode::Insert;
                            action = KeyAction::CursorBar;
                        },
                        ':' => {
                            action = KeyAction::CommandPrompt;
                        },
                        '/' => {
                            self.just_entered = false;
                            self.interaction_mode = InteractionMode::Search;
                            action = KeyAction::SearchPrompt;
                        },
                        'k' => self.move_cursor(Key::Up),
                        'j' => self.move_cursor(Key::Down),
                        'l' => self.move_cursor(Key::Right),
                        'h' => self.move_cursor(Key::Left),
                        'H' => {
                            self.cursor_position.y = self.offset.y;
                        },
                        'M' => {
                            self.cursor_position.y = self.offset.y.saturating_add(
                                (self.size.height / 2) as usize,
                            ).saturating_sub(1);
                        },
                        'L' => {
                            self.cursor_position.y = self.offset.y.saturating_add(
                                (self.size.height as usize).saturating_sub(1),
                            );
                        },
                        _ => {},
                    }
                } else {
                    self.document.insert(&self.cursor_position, c);
                    self.move_cursor(Key::Right);
                }
            },
            Key::Delete => self.document.delete(&self.cursor_position),
            Key::Backspace => {
                if self.cursor_position.x > 0 || self.cursor_position.y > 0 {
                    self.move_cursor(Key::Left);
                    self.document.delete(&self.cursor_position);
                }
            },
            Key::Up | Key::Down | Key::Left | Key::Right | Key::PageUp | Key::PageDown
            | Key::Home | Key::End => self.move_cursor(key),
            Key::Other => {},
        }
        self.scroll();
        action
    }

    /// The status bar text for a screen `width` cells wide.
    pub fn status_bar(&self, width: usize) -> (r: String)
        ensures
            r@ == status_line(
                match self.document.file_name_spec() {
                    Some(n) => Some(n@),
                    None => None,
                },
                self.document.dirty_spec(),
                self.cursor_position,
                width as int,
            ),
    {
        let mut left = match self.document.name() {
            Some(name) => truncated(name.as_str(), 20),
            None => "[No Name]".to_owned(),
        };
        if self.document.is_dirty() {
            left.append(" [+]");
        }
        let mut right = decimal_string(self.cursor_position.y.saturating_add(1));
        right.append(",");
        right.append(decimal_string(self.cursor_position.x.saturating_add(1)).as_str());
        let left_len = left.as_str().unicode_len();
        let right_len = right.as_str().unicode_len();
        let pad = if left_len < width && right_len < width - left_len {
            width - left_len - right_len
        } else {
            0
        };
        let mut line = left;
        let mut i: usize = 0;
        while i < pad
            invariant
                i <= pad,
                line@ == left@ + spaces(i as int),
            decreases pad - i,
        {
            crate::text::push_char(&mut line, ' ');
            assert(spaces(i + 1) == spaces(i as int).push(' '));
            assert(line@ == left@ + spaces(i + 1));
            i += 1;
        }
        line.append(right.as_str());
        truncated(line.as_str(), width)
    }

    /// Ends a prompt: clears the message and returns the input, or `None`
    /// when it is empty (as after Esc, which clears it).
    pub fn finish_prompt(&mut self, input: String) -> (r: Option<String>)
        ensures
            final(self).status_message.text@.len() == 0,
            final(self).status_message.color is None,
            input@.len() == 0 ==> r is None,
            input@.len() > 0 ==> r == Some(input),
            final(self).document == old(self).document,
            final(self).cursor_position == old(self).cursor_position,
            final(self).offset == old(self).offset,
            final(self).interaction_mode == old(self).interaction_mode,
            final(self).should_quit == old(self).should_quit,
    {
        self.status_message = StatusMessage::from(String::new(), None);
        if input.as_str().unicode_len() == 0 {
            None
        } else {
            Some(input)
        }
    }

    /// Handles what a command prompt returned: no line reports an aborted
    /// command, a line that names no command reports an invalid one, and a
    /// line that does is run.
    pub fn run_command_line(&mut self, commands: &Commands, line: Option<String>) -> (r: Effect)
        requires
            old(self).wf(),
        ensures
            final(self).wf(),
            final(self).document == old(self).document,
            final(self).cursor_position == old(self).cursor_position,
            line is None ==> r is Done && final(self).should_quit == old(self).should_quit
                && final(self).status_message.text@ == "ERR: Command aborted"@
                && final(self).status_message.color == Some(error_color_spec()),
            line is Some && line_action(commands, line) is None ==> r is Done
                && final(self).should_quit == old(self).should_quit
                && final(self).status_message.text@ == "ERR: Invalid command"@
                && final(self).status_message.color == Some(error_color_spec()),
            line_action(commands, line) == Some(CommandAction::Quit) ==> r is Done,
            line_action(commands, line) == Some(CommandAction::Quit) && old(self).document.dirty_spec()
                && !has_force_marker_spec(line->Some_0@) ==> final(self).should_quit == old(
                self).should_quit && final(self).status_message.text@
                == "There are unsaved changes. Run :q! to force quit"@
                && final(self).status_message.color == Some(error_color_spec()),
            line_action(commands, line) == Some(CommandAction::Quit) && !(old(self).document.dirty_spec()
                && !has_force_marker_spec(line->Some_0@)) ==> final(self).should_quit,
            line_action(commands, line) == Some(CommandAction::Write) ==> r == (Effect::Save {
                then_quit: false,
            }),
            line_action(commands, line) == Some(CommandAction::WriteQuit) ==> r == (Effect::Save {
                then_quit: true,
            }),
            line_action(commands, line) == Some(CommandAction::SearchForward) ==> (r matches Effect::Search {
                reverse,
                ..
            } && !reverse),
            line_action(commands, line) == Some(CommandAction::SearchBackward) ==> (r matches Effect::Search {
                reverse,
                ..
            } && reverse),
            line_action(commands, line) != Some(CommandAction::Quit) ==> final(self).should_quit
                == old(self).should_quit,
    {
        match line {
            None => {
                self.command_failed(true);
                Effect::Done
            },
            Some(l) => match commands.resolve(l.as_str()) {
                None => {
                    self.command_failed(false);
                    Effect::Done
                },
                Some(invocation) => self.execute(&invocation),
            },
        }
    }
}

} // verus!
