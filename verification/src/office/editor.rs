//! Text editor state: a list of lines with a character-addressed cursor.
use vstd::prelude::*;

use crate::bytes::push_char;
use vstd::pervasive::VecAdditionalExecFns;
use vstd::string::{StrSliceExecFns, StringExecFns};

verus! {

/// The lines joined with a newline between consecutive lines.
pub open spec fn spec_joined(lines: Seq<Seq<char>>) -> Seq<char>
    decreases lines.len(),
{
    if lines.len() == 0 {
        Seq::empty()
    } else if lines.len() == 1 {
        lines[0]
    } else {
        lines[0] + seq!['\n'] + spec_joined(lines.drop_first())
    }
}

proof fn lemma_joined_push(lines: Seq<Seq<char>>, l: Seq<char>)
    ensures
        spec_joined(lines.push(l)) == (if lines.len() == 0 {
            l
        } else {
            spec_joined(lines) + seq!['\n'] + l
        }),
    decreases lines.len(),
{
    if lines.len() == 0 {
        assert(lines.push(l)[0] =~= l);
    } else {
        assert(lines.push(l)[0] == lines[0]);
        assert(lines.push(l).drop_first() =~= lines.drop_first().push(l));
        lemma_joined_push(lines.drop_first(), l);
        if lines.len() == 1 {
            assert(spec_joined(lines.push(l)) =~= spec_joined(lines) + seq!['\n'] + l);
        } else {
            assert(spec_joined(lines.push(l)) =~= spec_joined(lines) + seq!['\n'] + l);
        }
    }
}

/// Text editor state. The cursor addresses characters, not bytes.
pub struct EditorState {
    /// Lines of text.
    pub lines: Vec<String>,
    /// Cursor column, in characters.
    pub cursor_x: usize,
    /// Cursor row.
    pub cursor_y: usize,
    /// First visible line.
    pub scroll_offset: usize,
    /// Whether the editor is in insert mode.
    pub insert_mode: bool,
    /// Whether the content has been modified.
    pub modified: bool,
}

impl EditorState {
    /// The views of the lines.
    pub open spec fn lines_view(&self) -> Seq<Seq<char>> {
        self.lines@.map_values(|s: String| s@)
    }

    /// The view of the line under the cursor, empty when the cursor is past
    /// the last line.
    pub open spec fn spec_current_line(&self) -> Seq<char> {
        if self.cursor_y < self.lines@.len() {
            self.lines_view()[self.cursor_y as int]
        } else {
            Seq::empty()
        }
    }
}

impl Default for EditorState {
    /// One empty line, cursor at the origin, nothing modified.
    fn default() -> (r: EditorState)
        ensures
            r.lines_view() == seq![Seq::<char>::empty()],
            r.cursor_x == 0 && r.cursor_y == 0 && r.scroll_offset == 0,
            !r.insert_mode && !r.modified,
    {
        let mut lines: Vec<String> = Vec::new();
        lines.push(String::new());
        let r = EditorState {
            lines,
            cursor_x: 0,
            cursor_y: 0,
            scroll_offset: 0,
            insert_mode: false,
            modified: false,
        };
        proof {
            assert(r.lines_view() =~= seq![Seq::<char>::empty()]);
        }
        r
    }
}

impl EditorState {
    /// Load content into a fresh editor: the lines joined with newlines give
    /// back exactly the content, no line contains a newline, and there is
    /// always at least one line.
    #[verifier::loop_isolation(false)]
    pub fn with_content(content: &str) -> (r: EditorState)
        ensures
            spec_joined(r.lines_view()) == content@,
            r.lines_view().len() >= 1,
            forall|i: int|
                0 <= i < r.lines_view().len() ==> !(#[trigger] r.lines_view()[i]).contains('\n'),
            r.cursor_x == 0 && r.cursor_y == 0 && r.scroll_offset == 0,
            !r.insert_mode && !r.modified,
    {
        let n = content.unicode_len();
        let mut lines: Vec<String> = Vec::new();
        let mut cur = String::new();
        let mut i: usize = 0;
        while i < n
            invariant
                i <= n,
                n == content@.len(),
                spec_joined(lines@.map_values(|s: String| s@).push(cur@)) == content@.take(
                    i as int,
                ),
                forall|j: int| 0 <= j < lines@.len() ==> !(#[trigger] lines@[j]@).contains('\n'),
                !cur@.contains('\n'),
            decreases n - i,
        {
            let c = content.get_char(i);
            let ghost prev_lines = lines@.map_values(|s: String| s@);
            let ghost prev_cur = cur@;
            if c == '\n' {
                lines.push(cur);
                cur = String::new();
                proof {
                    assert(lines@.map_values(|s: String| s@) =~= prev_lines.push(prev_cur));
                    lemma_joined_push(prev_lines.push(prev_cur), cur@);
                    lemma_joined_push(prev_lines, prev_cur);
                    assert(spec_joined(lines@.map_values(|s: String| s@).push(cur@))
                        =~= content@.take(i + 1 as int));
                }
            } else {
                push_char(&mut cur, c);
                proof {
                    lemma_joined_push(prev_lines, prev_cur);
                    lemma_joined_push(prev_lines, cur@);
                    assert(spec_joined(lines@.map_values(|s: String| s@).push(cur@))
                        =~= content@.take(i + 1 as int));
                    assert forall|k: int| 0 <= k < cur@.len() implies cur@[k] != '\n' by {
                        if k < prev_cur.len() {
                            assert(!prev_cur.contains('\n'));
                            assert(prev_cur[k] != '\n');
                        }
                    }
                    assert(!cur@.contains('\n'));
                }
            }
            i += 1;
        }
        let ghost done_lines = lines@.map_values(|s: String| s@);
        lines.push(cur);
        proof {
            assert(content@.take(n as int) =~= content@);
            assert(lines@.map_values(|s: String| s@) =~= done_lines.push(cur@));
        }
        let r = EditorState {
            lines,
            cursor_x: 0,
            cursor_y: 0,
            scroll_offset: 0,
            insert_mode: false,
            modified: false,
        };
        r
    }

    /// The line under the cursor, empty when the cursor is past the end.
    pub fn current_line(&self) -> (r: &str)
        ensures
            r@ == self.spec_current_line(),
    {
        if self.cursor_y < self.lines.len() {
            self.lines[self.cursor_y].as_str()
        } else {
            proof {
                reveal_strlit("");
            }
            ""
        }
    }

    /// The character length of the line under the cursor.
    fn current_line_len(&self) -> (r: usize)
        ensures
            r == self.spec_current_line().len(),
    {
        if self.cursor_y < self.lines.len() {
            self.lines[self.cursor_y].as_str().unicode_len()
        } else {
            proof {
                reveal_strlit("");
            }
            let empty: &str = "";
            empty.unicode_len()
        }
    }

    /// A mutable borrow of the line under the cursor; a line is appended
    /// first when the cursor is past the end.
    pub fn current_line_mut(&mut self) -> (r: &mut String)
        ensures
            old(self).cursor_y < old(self).lines@.len() ==> *r == old(self).lines@[old(
                self,
            ).cursor_y as int],
            old(self).cursor_y >= old(self).lines@.len() ==> r@ == Seq::<char>::empty(),
            old(self).cursor_y < old(self).lines@.len() ==> final(self).lines@ == old(
                self,
            ).lines@.update(old(self).cursor_y as int, *final(r)),
            old(self).cursor_y >= old(self).lines@.len() ==> final(self).lines@ == old(
                self,
            ).lines@.push(*final(r)),
            final(self).cursor_x == old(self).cursor_x,
            final(self).cursor_y == old(self).cursor_y,
            final(self).scroll_offset == old(self).scroll_offset,
            final(self).insert_mode == old(self).insert_mode,
            final(self).modified == old(self).modified,
    {
        if self.cursor_y >= self.lines.len() {
            self.lines.push(String::new());
            let idx = self.lines.len() - 1;
            return vstd::std_specs::vec::vec_index_mut(&mut self.lines, idx);
        }
        let cy = self.cursor_y;
        vstd::std_specs::vec::vec_index_mut(&mut self.lines, cy)
    }

    /// Move the cursor up one line, clamping the column to the new line.
    pub fn move_up(&mut self)
        ensures
            final(self).cursor_y == (if old(self).cursor_y > 0 {
                (old(self).cursor_y - 1) as usize
            } else {
                0
            }),
            old(self).cursor_y > 0 ==> final(self).cursor_x == (
            if old(self).cursor_x <= final(self).spec_current_line().len() {
                old(self).cursor_x as int
            } else {
                final(self).spec_current_line().len() as int
            }),
            old(self).cursor_y == 0 ==> final(self).cursor_x == old(self).cursor_x,
            final(self).lines == old(self).lines,
            final(self).scroll_offset == old(self).scroll_offset,
            final(self).insert_mode == old(self).insert_mode,
            final(self).modified == old(self).modified,
    {
        if self.cursor_y > 0 {
            self.cursor_y = self.cursor_y - 1;
            self.clamp_cursor_x();
        }
    }

    /// Move the cursor down one line, clamping the column to the new line.
    pub fn move_down(&mut self)
        ensures
            final(self).cursor_y == (if old(self).lines@.len() > 0 && old(self).cursor_y < old(
                self,
            ).lines@.len() - 1 {
                old(self).cursor_y + 1
            } else {
                old(self).cursor_y as int
            }),
            old(self).lines@.len() > 0 && old(self).cursor_y < old(self).lines@.len() - 1
                ==> final(self).cursor_x == (
            if old(self).cursor_x <= final(self).spec_current_line().len() {
                old(self).cursor_x as int
            } else {
                final(self).spec_current_line().len() as int
            }),
            !(old(self).lines@.len() > 0 && old(self).cursor_y < old(self).lines@.len() - 1)
                ==> final(self).cursor_x == old(self).cursor_x,
            final(self).lines == old(self).lines,
            final(self).scroll_offset == old(self).scroll_offset,
            final(self).insert_mode == old(self).insert_mode,
            final(self).modified == old(self).modified,
    {
        if self.lines.len() > 0 && self.cursor_y < self.lines.len() - 1 {
            self.cursor_y = self.cursor_y + 1;
            self.clamp_cursor_x();
        }
    }

    /// Move the cursor one character left, wrapping to the end of the
    /// previous line at column zero.
    pub fn move_left(&mut self)
        ensures
            old(self).cursor_x > 0 ==> *final(self) == (EditorState {
                cursor_x: (old(self).cursor_x - 1) as usize,
                ..*old(self)
            }),
            old(self).cursor_x == 0 && old(self).cursor_y > 0 ==> final(self).cursor_y == old(
                self,
            ).cursor_y - 1 && final(self).cursor_x == final(self).spec_current_line().len()
                && final(self).lines == old(self).lines,
            old(self).cursor_x == 0 && old(self).cursor_y == 0 ==> *final(self) == *old(self),
    {
        if self.cursor_x > 0 {
            self.cursor_x = self.cursor_x - 1;
        } else if self.cursor_y > 0 {
            self.cursor_y = self.cursor_y - 1;
            self.cursor_x = self.current_line_len();
        }
    }

    /// Move the cursor one character right, wrapping to the start of the
    /// next line at the end of a line.
    pub fn move_right(&mut self)
        ensures
            final(self).lines == old(self).lines,
            final(self).insert_mode == old(self).insert_mode,
            final(self).modified == old(self).modified,
            final(self).scroll_offset == old(self).scroll_offset,
            old(self).cursor_x < old(self).spec_current_line().len() ==> final(self).cursor_x
                == old(self).cursor_x + 1 && final(self).cursor_y == old(self).cursor_y,
            old(self).cursor_x >= old(self).spec_current_line().len() && old(self).lines@.len() > 0
                && old(self).cursor_y < old(self).lines@.len() - 1 ==> final(self).cursor_x == 0
                && final(self).cursor_y == old(self).cursor_y + 1,
            old(self).cursor_x >= old(self).spec_current_line().len() && !(old(self).lines@.len()
                > 0 && old(self).cursor_y < old(self).lines@.len() - 1) ==> *final(self) == *old(
                self,
            ),
    {
        let line_len = self.current_line_len();
        if self.cursor_x < line_len {
            self.cursor_x = self.cursor_x + 1;
        } else if self.lines.len() > 0 && self.cursor_y < self.lines.len() - 1 {
            self.cursor_y = self.cursor_y + 1;
            self.cursor_x = 0;
        }
    }

    /// Move the cursor to the start of the line.
    pub fn move_to_line_start(&mut self)
        ensures
            *final(self) == (EditorState { cursor_x: 0usize, ..*old(self) }),
    {
        self.cursor_x = 0;
    }

    /// Move the cursor past the last character of the line.
    pub fn move_to_line_end(&mut self)
        ensures
            *final(self) == (EditorState {
                cursor_x: old(self).spec_current_line().len() as usize,
                ..*old(self)
            }),
    {
        let len = self.current_line_len();
        self.cursor_x = len;
    }

    /// Insert a character at the cursor; the insertion position is clamped
    /// to the line length, and the cursor ends just after the new character.
    pub fn insert_char(&mut self, c: char)
        requires
            old(self).spec_current_line().len() < usize::MAX,
        ensures
            ({
                let line = old(self).spec_current_line();
                let pos = if old(self).cursor_x <= line.len() {
                    old(self).cursor_x as int
                } else {
                    line.len() as int
                };
                let newline = line.take(pos) + seq![c] + line.skip(pos);
                &&& final(self).lines_view() == (if old(self).cursor_y < old(self).lines@.len() {
                    old(self).lines_view().update(old(self).cursor_y as int, newline)
                } else {
                    old(self).lines_view().push(newline)
                })
                &&& final(self).cursor_x == pos + 1
                &&& final(self).cursor_y == old(self).cursor_y
                &&& final(self).modified
                &&& final(self).insert_mode == old(self).insert_mode
                &&& final(self).scroll_offset == old(self).scroll_offset
            }),
    {
        let line_len = self.current_line_len();
        let pos = if self.cursor_x <= line_len {
            self.cursor_x
        } else {
            line_len
        };
        let rebuilt = if self.cursor_y < self.lines.len() {
            let line = self.lines[self.cursor_y].as_str();
            let left = line.substring_char(0, pos);
            let right = line.substring_char(pos, line_len);
            let mut s = left.to_owned();
            push_char(&mut s, c);
            s.append(right);
            s
        } else {
            let mut s = String::new();
            push_char(&mut s, c);
            s
        };
        proof {
            let line = old(self).spec_current_line();
            assert(rebuilt@ =~= line.take(pos as int) + seq![c] + line.skip(pos as int));
        }
        if self.cursor_y < self.lines.len() {
            let cy = self.cursor_y;
            self.lines.set(cy, rebuilt);
            proof {
                assert(self.lines_view() =~= old(self).lines_view().update(
                    old(self).cursor_y as int,
                    self.lines_view()[old(self).cursor_y as int],
                ));
            }
        } else {
            self.lines.push(rebuilt);
            proof {
                assert(self.lines_view() =~= old(self).lines_view().push(
                    self.lines_view().last(),
                ));
            }
        }
        self.cursor_x = pos + 1;
        self.modified = true;
    }

    /// Delete the character before the cursor; at column zero, join the
    /// current line onto the previous one.
    pub fn backspace(&mut self)
        ensures
            ({
                let line = old(self).spec_current_line();
                let pos = if old(self).cursor_x <= line.len() {
                    old(self).cursor_x as int
                } else {
                    line.len() as int
                };
                if pos > 0 && old(self).cursor_y < old(self).lines@.len() {
                    &&& final(self).lines_view() == old(self).lines_view().update(
                        old(self).cursor_y as int,
                        line.take(pos - 1) + line.skip(pos),
                    )
                    &&& final(self).cursor_x == pos - 1
                    &&& final(self).cursor_y == old(self).cursor_y
                    &&& final(self).modified
                } else if pos == 0 && old(self).cursor_y > 0 && old(self).cursor_y < old(
                    self,
                ).lines@.len() {
                    &&& final(self).lines_view() == old(self).lines_view().update(
                        old(self).cursor_y - 1,
                        old(self).lines_view()[old(self).cursor_y - 1] + line,
                    ).remove(old(self).cursor_y as int)
                    &&& final(self).cursor_y == old(self).cursor_y - 1
                    &&& final(self).cursor_x == old(self).lines_view()[old(
                        self,
                    ).cursor_y - 1].len()
                    &&& final(self).modified
                } else {
                    *final(self) == *old(self)
                }
            }),
    {
        let line_len = self.current_line_len();
        let pos = if self.cursor_x <= line_len {
            self.cursor_x
        } else {
            line_len
        };
        if pos > 0 && self.cursor_y < self.lines.len() {
            let cy = self.cursor_y;
            let line = self.lines[cy].as_str();
            let left = line.substring_char(0, pos - 1);
            let right = line.substring_char(pos, line_len);
            let mut s = left.to_owned();
            s.append(right);
            proof {
                let lv = old(self).spec_current_line();
                assert(s@ =~= lv.take(pos - 1) + lv.skip(pos as int));
            }
            self.lines.set(cy, s);
            proof {
                assert(self.lines_view() =~= old(self).lines_view().update(
                    cy as int,
                    self.lines_view()[cy as int],
                ));
            }
            self.cursor_x = pos - 1;
            self.modified = true;
        } else if pos == 0 && self.cursor_y > 0 && self.cursor_y < self.lines.len() {
            let cy = self.cursor_y;
            let current = self.lines.remove(cy);
            let prev_len = self.lines[cy - 1].as_str().unicode_len();
            let prev = self.lines[cy - 1].as_str();
            let mut joined = prev.to_owned();
            joined.append(current.as_str());
            self.lines.set(cy - 1, joined);
            proof {
                assert(self.lines_view() =~= old(self).lines_view().update(
                    cy - 1,
                    old(self).lines_view()[cy - 1] + old(self).spec_current_line(),
                ).remove(cy as int));
            }
            self.cursor_y = cy - 1;
            self.cursor_x = prev_len;
            self.modified = true;
        }
    }

    /// Delete the character at the cursor; at the end of a line, join the
    /// next line onto it.
    pub fn delete(&mut self)
        ensures
            ({
                let line = old(self).spec_current_line();
                let pos = old(self).cursor_x as int;
                if pos < line.len() && old(self).cursor_y < old(self).lines@.len() {
                    &&& final(self).lines_view() == old(self).lines_view().update(
                        old(self).cursor_y as int,
                        line.take(pos) + line.skip(pos + 1),
                    )
                    &&& final(self).cursor_x == old(self).cursor_x
                    &&& final(self).cursor_y == old(self).cursor_y
                    &&& final(self).modified
                } else if pos >= line.len() && old(self).lines@.len() > 0 && old(self).cursor_y
                    < old(self).lines@.len() - 1 {
                    &&& final(self).lines_view() == old(self).lines_view().update(
                        old(self).cursor_y as int,
                        line + old(self).lines_view()[old(self).cursor_y + 1],
                    ).remove(old(self).cursor_y + 1)
                    &&& final(self).cursor_x == old(self).cursor_x
                    &&& final(self).cursor_y == old(self).cursor_y
                    &&& final(self).modified
                } else {
                    *final(self) == *old(self)
                }
            }),
    {
        let line_len = self.current_line_len();
        if self.cursor_x < line_len && self.cursor_y < self.lines.len() {
            let cy = self.cursor_y;
            let pos = self.cursor_x;
            let line = self.lines[cy].as_str();
            let left = line.substring_char(0, pos);
            let right = line.substring_char(pos + 1, line_len);
            let mut s = left.to_owned();
            s.append(right);
            proof {
                let lv = old(self).spec_current_line();
                assert(s@ =~= lv.take(pos as int) + lv.skip(pos + 1 as int));
            }
            self.lines.set(cy, s);
            proof {
                assert(self.lines_view() =~= old(self).lines_view().update(
                    cy as int,
                    self.lines_view()[cy as int],
                ));
            }
            self.modified = true;
        } else if self.cursor_x >= line_len && self.lines.len() > 0 && self.cursor_y
            < self.lines.len() - 1 {
            let cy = self.cursor_y;
            let next = self.lines.remove(cy + 1);
            let cur = self.lines[cy].as_str();
            let mut joined = cur.to_owned();
            joined.append(next.as_str());
            self.lines.set(cy, joined);
            proof {
                assert(self.lines_view() =~= old(self).lines_view().update(
                    cy as int,
                    old(self).spec_current_line() + old(self).lines_view()[cy + 1],
                ).remove(cy + 1));
            }
            self.modified = true;
        }
    }

    /// Split the current line at the cursor: the remainder moves to a new
    /// line below, and the cursor moves to its start.
    pub fn newline(&mut self)
        ensures
            ({
                let line = old(self).spec_current_line();
                let pos = if old(self).cursor_x <= line.len() {
                    old(self).cursor_x as int
                } else {
                    line.len() as int
                };
                let base = if old(self).cursor_y < old(self).lines@.len() {
                    old(self).lines_view()
                } else {
                    old(self).lines_view().push(Seq::empty())
                };
                let row = if old(self).cursor_y < old(self).lines@.len() {
                    old(self).cursor_y as int
                } else {
                    base.len() - 1
                };
                &&& final(self).lines_view() == base.update(row, line.take(pos)).insert(
                    row + 1,
                    line.skip(pos),
                )
                &&& final(self).cursor_y == row + 1
                &&& final(self).cursor_x == 0
                &&& final(self).modified
            }),
    {
        let line_len = self.current_line_len();
        let pos = if self.cursor_x <= line_len {
            self.cursor_x
        } else {
            line_len
        };
        if self.cursor_y >= self.lines.len() {
            self.lines.push(String::new());
        }
        let row = if self.cursor_y < self.lines.len() {
            self.cursor_y
        } else {
            self.lines.len() - 1
        };
        let line = self.lines[row].as_str();
        let left = line.substring_char(0, pos);
        let right = line.substring_char(pos, line_len);
        let left_owned = left.to_owned();
        let right_owned = right.to_owned();
        self.lines.set(row, left_owned);
        self.lines.insert(row + 1, right_owned);
        proof {
            let lv = old(self).spec_current_line();
            let base = if old(self).cursor_y < old(self).lines@.len() {
                old(self).lines_view()
            } else {
                old(self).lines_view().push(Seq::<char>::empty())
            };
            assert(self.lines_view() =~= base.update(row as int, lv.take(pos as int)).insert(
                row + 1,
                lv.skip(pos as int),
            ));
        }
        self.cursor_y = row + 1;
        self.cursor_x = 0;
        self.modified = true;
    }

    /// The whole content: the lines joined with newlines.
    #[verifier::loop_isolation(false)]
    pub fn content(&self) -> (r: String)
        ensures
            r@ == spec_joined(self.lines_view()),
    {
        let mut out = String::new();
        let mut i: usize = 0;
        while i < self.lines.len()
            invariant
                i <= self.lines@.len(),
                out@ == spec_joined(self.lines_view().take(i as int)),
            decreases self.lines@.len() - i,
        {
            if i > 0 {
                push_char(&mut out, '\n');
            }
            out.append(self.lines[i].as_str());
            proof {
                assert(self.lines_view().take(i + 1 as int) =~= self.lines_view().take(
                    i as int,
                ).push(self.lines_view()[i as int]));
                lemma_joined_push(self.lines_view().take(i as int), self.lines_view()[i as int]);
            }
            i += 1;
        }
        proof {
            assert(self.lines_view().take(self.lines@.len() as int) =~= self.lines_view());
        }
        out
    }

    /// Clamp the cursor column to the current line.
    fn clamp_cursor_x(&mut self)
        ensures
            final(self).cursor_x == (if old(self).cursor_x <= old(self).spec_current_line().len() {
                old(self).cursor_x as int
            } else {
                old(self).spec_current_line().len() as int
            }),
            final(self).lines == old(self).lines,
            final(self).cursor_y == old(self).cursor_y,
            final(self).scroll_offset == old(self).scroll_offset,
            final(self).insert_mode == old(self).insert_mode,
            final(self).modified == old(self).modified,
    {
        let len = self.current_line_len();
        if self.cursor_x > len {
            self.cursor_x = len;
        }
    }

    /// Scroll so that the cursor line is within the visible window.
    pub fn ensure_cursor_visible(&mut self, visible_lines: usize)
        ensures
            final(self).scroll_offset == crate::office::tree::spec_scrolled_usize(
                old(self).cursor_y,
                old(self).scroll_offset,
                visible_lines,
            ),
            final(self).lines == old(self).lines,
            final(self).cursor_x == old(self).cursor_x,
            final(self).cursor_y == old(self).cursor_y,
            final(self).insert_mode == old(self).insert_mode,
            final(self).modified == old(self).modified,
    {
        if self.cursor_y < self.scroll_offset {
            self.scroll_offset = self.cursor_y;
        } else if visible_lines == 0 {
            self.scroll_offset = self.cursor_y;
        } else if self.cursor_y - self.scroll_offset >= visible_lines {
            self.scroll_offset = self.cursor_y - (visible_lines - 1);
        }
    }
}

} // verus!
