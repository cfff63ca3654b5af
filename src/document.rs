use crate::highlighting::{all_plain, Type};
use crate::row::{deleted, inserted, split_head, split_tail, starts_in, Row};
use crate::text::{contains, graphemes_of, push_char};
use vstd::prelude::*;
use vstd::string::*;

verus! {

/// A place in a document: `x` counts grapheme clusters within row `y`.
#[derive(PartialEq, Eq, Structural, Clone, Copy, Debug, Default)]
pub struct Position {
    pub x: usize,
    pub y: usize,
}

/// The rows of a document, its file name, and whether it has unsaved changes.
pub struct Document {
    rows: Vec<Row>,
    pub file_name: Option<String>,
    dirty: bool,
}

/// The texts of a list of rows.
pub open spec fn row_texts(rows: Seq<Row>) -> Seq<Seq<char>> {
    rows.map_values(|r: Row| r@)
}

/// The pieces of `s` between line feeds (one more than there are line feeds).
pub open spec fn pieces(s: Seq<char>) -> Seq<Seq<char>>
    decreases s.len(),
{
    if s.len() == 0 {
        seq![Seq::empty()]
    } else {
        let p = pieces(s.drop_last());
        if s.last() == '\n' {
            p.push(Seq::empty())
        } else {
            p.update(p.len() - 1, p.last().push(s.last()))
        }
    }
}

/// A line without the carriage return that may end it.
pub open spec fn strip_cr(l: Seq<char>) -> Seq<char> {
    if l.len() > 0 && l.last() == '\r' {
        l.drop_last()
    } else {
        l
    }
}

/// The lines of a text: a final line feed ends the last line rather than
/// starting an empty one, and a line that a line feed ends loses a carriage
/// return before it; an unended last line is kept as it is.
pub open spec fn lines_of(s: Seq<char>) -> Seq<Seq<char>> {
    let p = pieces(s);
    let ended = p.drop_last().map_values(|l: Seq<char>| strip_cr(l));
    if s.len() == 0 || s.last() == '\n' {
        ended
    } else {
        ended.push(p.last())
    }
}

/// The rows a text is read into: its lines, or one empty row when it has none.
pub open spec fn rows_of(s: Seq<char>) -> Seq<Seq<char>> {
    if lines_of(s).len() == 0 {
        seq![Seq::empty()]
    } else {
        lines_of(s)
    }
}

/// A text as it is written to a file: each line followed by a line feed.
pub open spec fn serialized(lines: Seq<Seq<char>>) -> Seq<char>
    decreases lines.len(),
{
    if lines.len() == 0 {
        Seq::empty()
    } else {
        serialized(lines.drop_last()) + lines.last().push('\n')
    }
}

/// Position `p` comes before position `o`: by row, then by column.
pub open spec fn before(p: Position, o: Position) -> bool {
    p.y < o.y || (p.y == o.y && p.x < o.x)
}

/// The positions at which `q` is found in `lines`: one for each cluster in
/// which an occurrence starts, by row and then by column.
pub open spec fn finds(lines: Seq<Seq<char>>, q: Seq<char>, r: Seq<Position>) -> bool {
    &&& forall|i: int|
        0 <= i < r.len() ==> r[i].y < lines.len() && #[trigger] starts_in(
            lines[r[i].y as int],
            q,
            r[i].x as int,
        )
    &&& forall|i: int, j: int| 0 <= i < j < r.len() ==> before(r[i], r[j])
    &&& forall|y: int, x: int|
        0 <= y < lines.len() && #[trigger] starts_in(lines[y], q, x) ==> exists|i: int|
            0 <= i < r.len() && r[i] == (Position { x: x as usize, y: y as usize })
}

/// The rows after `c` is typed at `at`: a line feed splits the row (or adds
/// one below the last), another character goes into the row (or starts a
/// new one below the last); a row index past that changes nothing.
pub open spec fn doc_inserted(lines: Seq<Seq<char>>, at: Position, c: char) -> Seq<Seq<char>> {
    let y = at.y as int;
    if y > lines.len() {
        lines
    } else if c == '\n' {
        if y == lines.len() {
            lines.push(Seq::empty())
        } else {
            lines.update(y, split_head(lines[y], at.x as int)).insert(
                y + 1,
                split_tail(lines[y], at.x as int),
            )
        }
    } else if y == lines.len() {
        lines.push(inserted(Seq::empty(), 0, c))
    } else {
        lines.update(y, inserted(lines[y], at.x as int, c))
    }
}

/// The rows after a delete at `at`: at the end of a row that has one below,
/// the two rows are joined; otherwise the cluster at `at` goes.
pub open spec fn doc_deleted(lines: Seq<Seq<char>>, at: Position) -> Seq<Seq<char>> {
    let y = at.y as int;
    if y >= lines.len() {
        lines
    } else if at.x == graphemes_of(lines[y]).len() && y + 1 < lines.len() {
        lines.update(y, lines[y] + lines[y + 1]).remove(y + 1)
    } else {
        lines.update(y, deleted(lines[y], at.x as int))
    }
}

impl Document {
    pub closed spec fn rows_seq(&self) -> Seq<Row> {
        self.rows@
    }

    /// The text of each row, top to bottom.
    pub open spec fn lines(&self) -> Seq<Seq<char>> {
        row_texts(self.rows_seq())
    }

    pub closed spec fn file_name_spec(&self) -> Option<String> {
        self.file_name
    }

    pub closed spec fn dirty_spec(&self) -> bool {
        self.dirty
    }

    pub open spec fn wf(&self) -> bool {
        &&& self.rows_seq().len() >= 1
        &&& forall|i: int| 0 <= i < self.rows_seq().len() ==> (#[trigger] self.rows_seq()[i]).wf()
    }

    /// Every tag of every row is plain.
    pub open spec fn all_plain(&self) -> bool {
        forall|i: int|
            0 <= i < self.rows_seq().len() ==> all_plain((#[trigger] self.rows_seq()[i]).tags())
    }

    pub fn default() -> (r: Document)
        ensures
            r.wf(),
            r.lines() == seq![Seq::<char>::empty()],
            r.file_name_spec() is None,
            !r.dirty_spec(),
    {
        let rows = vec![Row::default()];
        let r = Document { rows, file_name: None, dirty: false };
        assert(r.lines() =~= seq![Seq::<char>::empty()]);
        r
    }

    /// A clean document named `file_name` holding the lines of `contents`.
    pub fn from_text(file_name: String, contents: &str) -> (r: Document)
        ensures
            r.wf(),
            r.lines() == rows_of(contents@),
            r.file_name_spec() == Some(file_name),
            !r.dirty_spec(),
    {
        let ghost s = contents@;
        let n = contents.unicode_len();
        let mut done: Vec<String> = Vec::new();
        let mut current = String::new();
        let mut i: usize = 0;
        while i < n
            invariant
                n == s.len(),
                i <= n,
                s == contents@,
                done@.map_values(|l: String| l@).push(current@) == pieces(s.take(i as int)),
            decreases n - i,
        {
            let c = contents.get_char(i);
            let ghost t = s.take(i + 1);
            assert(t.drop_last() == s.take(i as int));
            assert(t.last() == c);
            if c == '\n' {
                let line = current;
                done.push(line);
                current = String::new();
                assert(done@.map_values(|l: String| l@).push(current@) =~= pieces(t));
            } else {
                push_char(&mut current, c);
                assert(done@.map_values(|l: String| l@).push(current@) =~= pieces(t));
            }
            i += 1;
        }
        assert(s.take(n as int) == s);
        let ghost p = pieces(s);
        let ends_open = n > 0 && contents.get_char(n - 1) != '\n';
        let ghost kept: Seq<Seq<char>> = p.drop_last();
        assert(done@.map_values(|l: String| l@) =~= kept);
        let mut rows: Vec<Row> = Vec::new();
        let mut j: usize = 0;
        while j < done.len()
            invariant
                j <= done@.len(),
                done@.map_values(|l: String| l@) == kept,
                rows@.len() == j,
                forall|k: int| 0 <= k < j ==> (#[trigger] rows@[k]).wf(),
                forall|k: int| 0 <= k < j ==> (#[trigger] rows@[k])@ == strip_cr(kept[k]),
            decreases done@.len() - j,
        {
            let line = done[j].as_str();
            let m = line.unicode_len();
            let row = if m > 0 && line.get_char(m - 1) == '\r' {
                Row::from(line.substring_char(0, m - 1))
            } else {
                Row::from(line)
            };
            assert(kept[j as int] == done@[j as int]@);
            rows.push(row);
            j += 1;
        }
        if ends_open {
            rows.push(Row::from(current.as_str()));
        }
        assert(row_texts(rows@) =~= lines_of(s));
        if rows.len() == 0 {
            rows.push(Row::default());
            assert(row_texts(rows@) =~= seq![Seq::<char>::empty()]);
        }
        Document { rows, file_name: Some(file_name), dirty: false }
    }

    pub fn row(&self, index: usize) -> (r: Option<&Row>)
        ensures
            index < self.rows_seq().len() ==> r == Some(&self.rows_seq()[index as int]),
            index >= self.rows_seq().len() ==> r is None,
    {
        if index < self.rows.len() {
            Some(&self.rows[index])
        } else {
            None
        }
    }

    /// The row at `index`, to change in place. The caller keeps it well formed.
    pub fn row_mut(&mut self, index: usize) -> (r: Option<&mut Row>)
        ensures
            index < old(self).rows_seq().len() ==> r is Some && *r->0 == old(self).rows_seq()[index as int],
            r matches Some(x) ==> final(self).rows_seq() == old(self).rows_seq().update(index as int, *final(x)),
            final(self).dirty_spec() == old(self).dirty_spec(),
            final(self).file_name_spec() == old(self).file_name_spec(),
            index >= old(self).rows_seq().len() ==> r is None && final(self).rows_seq() == old(self).rows_seq(),
    {
        if index < self.rows.len() {
            Some(&mut self.rows[index])
        } else {
            None
        }
    }

    /// True only for a document of one empty row.
    pub fn is_empty(&self) -> (r: bool)
        requires
            self.wf(),
        ensures
            r == (self.lines().len() == 1 && self.lines()[0].len() == 0),
    {
        self.rows.len() == 1 && self.rows[0].is_empty()
    }

    pub fn len(&self) -> (r: usize)
        ensures
            r == self.lines().len(),
    {
        self.rows.len()
    }

    /// The file the document is read from and written to.
    pub fn name(&self) -> (r: &Option<String>)
        ensures
            *r == self.file_name_spec(),
    {
        &self.file_name
    }

    pub fn is_dirty(&self) -> (r: bool)
        ensures
            r == self.dirty_spec(),
    {
        self.dirty
    }

    pub fn set_file_name(&mut self, file_name: String)
        ensures
            final(self).file_name_spec() == Some(file_name),
            final(self).rows_seq() == old(self).rows_seq(),
            final(self).dirty_spec() == old(self).dirty_spec(),
    {
        self.file_name = Some(file_name);
    }

    /// Records that the text was written out.
    pub fn mark_saved(&mut self)
        ensures
            !final(self).dirty_spec(),
            final(self).rows_seq() == old(self).rows_seq(),
            final(self).file_name_spec() == old(self).file_name_spec(),
    {
        self.dirty = false;
    }

    /// The text as it is written to a file: each row followed by a line feed.
    pub fn contents(&self) -> (r: String)
        ensures
            r@ == serialized(self.lines()),
    {
        let mut r = String::new();
        let mut i: usize = 0;
        while i < self.rows.len()
            invariant
                i <= self.lines().len(),
                r@ == serialized(self.lines().take(i as int)),
            decreases self.lines().len() - i,
        {
            r.append(self.rows[i].as_str());
            push_char(&mut r, '\n');
            assert(self.lines().take(i + 1).drop_last() == self.lines().take(i as int));
            i += 1;
        }
        assert(self.lines().take(i as int) == self.lines());
        r
    }

    fn insert_newline(&mut self, at: &Position)
        requires
            old(self).wf(),
            at.y <= old(self).lines().len(),
        ensures
            final(self).wf(),
            final(self).lines() == doc_inserted(old(self).lines(), *at, '\n'),
            final(self).dirty_spec() == old(self).dirty_spec(),
            final(self).file_name_spec() == old(self).file_name_spec(),
    {
        if at.y == self.rows.len() {
            self.rows.push(Row::default());
            assert(self.lines() =~= doc_inserted(old(self).lines(), *at, '\n'));
            return;
        }
        let new_row = self.rows[at.y].split(at.x);
        self.rows.insert(at.y + 1, new_row);
        assert(self.lines() =~= doc_inserted(old(self).lines(), *at, '\n'));
    }

    pub fn insert(&mut self, at: &Position, c: char)
        requires
            old(self).wf(),
        ensures
            final(self).wf(),
            final(self).lines() == doc_inserted(old(self).lines(), *at, c),
            final(self).dirty_spec() == (old(self).dirty_spec() || at.y <= old(self).lines().len()),
            final(self).file_name_spec() == old(self).file_name_spec(),
    {
        if at.y > self.rows.len() {
            return;
        }
        self.dirty = true;
        if c == '\n' {
            self.insert_newline(at);
            return;
        }
        if at.y == self.rows.len() {
            let mut row = Row::default();
            row.insert(0, c);
            self.rows.push(row);
        } else {
            self.rows[at.y].insert(at.x, c);
        }
        assert(self.lines() =~= doc_inserted(old(self).lines(), *at, c));
    }

    pub fn delete(&mut self, at: &Position)
        requires
            old(self).wf(),
        ensures
            final(self).wf(),
            final(self).lines() == doc_deleted(old(self).lines(), *at),
            final(self).dirty_spec() == (old(self).dirty_spec() || at.y < old(self).lines().len()),
            final(self).file_name_spec() == old(self).file_name_spec(),
    {
        let len = self.rows.len();
        if at.y >= len {
            return;
        }
        self.dirty = true;
        if at.x == self.rows[at.y].len() && at.y + 1 < len {
            let next_row = self.rows.remove(at.y + 1);
            self.rows[at.y].append(&next_row);
        } else {
            self.rows[at.y].delete(at.x);
        }
        assert(self.lines() =~= doc_deleted(old(self).lines(), *at));
    }

    /// Where `query` is found: a position for each cluster in which an
    /// occurrence starts, top to bottom and left to right; empty for an
    /// empty query.
    pub fn find(&self, query: &str) -> (r: Vec<Position>)
        requires
            self.wf(),
        ensures
            finds(self.lines(), query@, r@),
            query@.len() == 0 ==> r@.len() == 0,
            r@.len() == 0 <==> forall|y: int|
                0 <= y < self.lines().len() ==> !contains(#[trigger] self.lines()[y], query@),
    {
        let mut positions: Vec<Position> = Vec::new();
        let mut y: usize = 0;
        while y < self.rows.len()
            invariant
                self.wf(),
                y <= self.lines().len(),
                query@.len() == 0 ==> positions@.len() == 0,
                forall|k: int| 0 <= k < positions@.len() ==> #[trigger] positions@[k].y < y,
                forall|k: int|
                    0 <= k < positions@.len() ==> #[trigger] starts_in(
                        self.lines()[positions@[k].y as int],
                        query@,
                        positions@[k].x as int,
                    ),
                forall|k: int, j: int|
                    0 <= k < j < positions@.len() ==> before(positions@[k], positions@[j]),
                forall|y2: int, x: int|
                    0 <= y2 < y && #[trigger] starts_in(self.lines()[y2], query@, x) ==> exists|
                        k: int,
                    | 0 <= k < positions@.len() && positions@[k] == (Position {
                        x: x as usize,
                        y: y2 as usize,
                    }),
                positions@.len() == 0 ==> forall|y2: int|
                    0 <= y2 < y ==> !contains(#[trigger] self.lines()[y2], query@),
            decreases self.lines().len() - y,
        {
            assert(self.rows_seq()[y as int].wf());
            let occ = self.rows[y].occurrences(query);
            let ghost base = positions@;
            let mut j: usize = 0;
            while j < occ.len()
                invariant
                    self.wf(),
                    y < self.lines().len(),
                    self.lines()[y as int] == self.rows_seq()[y as int]@,
                    j <= occ@.len(),
                    query@.len() == 0 ==> occ@.len() == 0,
                    forall|m: int| 0 <= m < occ@.len() ==> starts_in(self.lines()[y as int], query@, #[trigger] occ@[m] as int),
                    forall|m1: int, m2: int| 0 <= m1 < m2 < occ@.len() ==> occ@[m1] < occ@[m2],
                    positions@.len() == base.len() + j,
                    forall|k: int| 0 <= k < base.len() ==> positions@[k] == base[k],
                    forall|m: int| 0 <= m < j ==> positions@[base.len() + m] == (Position { x: occ@[m], y }),
                    forall|k: int| 0 <= k < base.len() ==> #[trigger] base[k].y < y,
                    forall|k: int, l: int| 0 <= k < l < base.len() ==> before(base[k], base[l]),
                    forall|k: int|
                        0 <= k < base.len() ==> #[trigger] starts_in(
                            self.lines()[base[k].y as int],
                            query@,
                            base[k].x as int,
                        ),
                decreases occ@.len() - j,
            {
                positions.push(Position { x: occ[j], y });
                j += 1;
            }
            proof {
                let p = positions@;
                assert forall|k: int| 0 <= k < p.len() implies #[trigger] p[k].y < y + 1 by {
                    if k >= base.len() {
                        assert(p[k] == (Position { x: occ@[k - base.len()], y }));
                    } else {
                        assert(p[k] == base[k]);
                    }
                }
                assert forall|k: int|
                    0 <= k < p.len() implies #[trigger] starts_in(
                        self.lines()[p[k].y as int],
                        query@,
                        p[k].x as int,
                    ) by {
                    if k >= base.len() {
                        assert(p[k] == (Position { x: occ@[k - base.len()], y }));
                    } else {
                        assert(p[k] == base[k]);
                    }
                }
                assert forall|k: int, l: int| 0 <= k < l < p.len() implies before(p[k], p[l]) by {
                    if l >= base.len() {
                        assert(p[l] == (Position { x: occ@[l - base.len()], y }));
                        if k >= base.len() {
                            assert(p[k] == (Position { x: occ@[k - base.len()], y }));
                        } else {
                            assert(p[k] == base[k]);
                            assert(base[k].y < y);
                        }
                    } else {
                        assert(p[k] == base[k]);
                        assert(p[l] == base[l]);
                    }
                }
                assert forall|y2: int, x: int|
                    0 <= y2 < y + 1 && #[trigger] starts_in(self.lines()[y2], query@, x) implies exists|
                    k: int,
                | 0 <= k < p.len() && p[k] == (Position { x: x as usize, y: y2 as usize }) by {
                    if y2 < y {
                        let k = choose|k: int|
                            0 <= k < base.len() && base[k] == (Position { x: x as usize, y: y2 as usize });
                        assert(p[k] == base[k]);
                    } else {
                        let m = choose|m: int| 0 <= m < occ@.len() && occ@[m] == x;
                        assert(p[base.len() + m] == (Position { x: x as usize, y: y2 as usize }));
                    }
                }
            }
            y += 1;
        }
        proof {
            if positions@.len() > 0 {
                let p0 = positions@[0];
                assert(starts_in(self.lines()[p0.y as int], query@, p0.x as int));
                assert(contains(self.lines()[p0.y as int], query@));
            }
        }
        positions
    }

    pub fn reset_highlighting(&mut self)
        requires
            old(self).wf(),
        ensures
            final(self).wf(),
            final(self).lines() == old(self).lines(),
            final(self).all_plain(),
            final(self).dirty_spec() == old(self).dirty_spec(),
            final(self).file_name_spec() == old(self).file_name_spec(),
    {
        let mut i: usize = 0;
        while i < self.rows.len()
            invariant
                self.wf(),
                i <= self.lines().len(),
                self.lines() == old(self).lines(),
                self.dirty_spec() == old(self).dirty_spec(),
                self.file_name_spec() == old(self).file_name_spec(),
                forall|k: int| 0 <= k < i ==> all_plain((#[trigger] self.rows_seq()[k]).tags()),
            decreases self.lines().len() - i,
        {
            self.rows[i].reset_highlighting();
            assert(self.lines() =~= old(self).lines());
            i += 1;
        }
    }

    /// Sets the tag of the cluster at `at`; a place outside the text is ignored.
    pub fn add_highlighting(&mut self, at: &Position, highlight_type: Type)
        requires
            old(self).wf(),
        ensures
            final(self).wf(),
            final(self).lines() == old(self).lines(),
            final(self).rows_seq().len() == old(self).rows_seq().len(),
            forall|i: int|
                0 <= i < old(self).rows_seq().len() && i != at.y ==> #[trigger] final(self).rows_seq()[i] == old(self).rows_seq()[i],
            at.y < old(self).rows_seq().len() ==> final(self).rows_seq()[at.y as int].tags() == (
            if at.x < old(self).rows_seq()[at.y as int].tags().len() {
                old(self).rows_seq()[at.y as int].tags().update(at.x as int, highlight_type)
            } else {
                old(self).rows_seq()[at.y as int].tags()
            }),
            final(self).dirty_spec() == old(self).dirty_spec(),
            final(self).file_name_spec() == old(self).file_name_spec(),
    {
        if at.y < self.rows.len() {
            self.rows[at.y].add_highlighting(highlight_type, at.x);
            assert(self.lines() =~= old(self).lines());
        }
    }
}

} // verus!
