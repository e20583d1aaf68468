//! File tree navigation state.
use vstd::prelude::*;

use crate::bytes::{push_char, spec_dec, str_eq, u64_to_dec};
use vstd::pervasive::VecAdditionalExecFns;
use vstd::string::StringExecFns;

verus! {

/// A node in the file tree.
pub struct TreeNode {
    /// Display name.
    pub name: String,
    /// Full path.
    pub path: String,
    /// Whether this is a directory.
    pub is_directory: bool,
    /// Whether the directory is expanded.
    pub expanded: bool,
    /// Nesting depth.
    pub depth: u16,
    /// File size, for files.
    pub size: Option<u64>,
}

/// View of a tree node.
pub ghost struct TreeNodeV {
    pub name: Seq<char>,
    pub path: Seq<char>,
    pub is_directory: bool,
    pub expanded: bool,
    pub depth: u16,
    pub size: Option<u64>,
}

impl View for TreeNode {
    type V = TreeNodeV;

    open spec fn view(&self) -> TreeNodeV {
        TreeNodeV {
            name: self.name@,
            path: self.path@,
            is_directory: self.is_directory,
            expanded: self.expanded,
            depth: self.depth,
            size: self.size,
        }
    }
}

impl TreeNode {
    /// Create a collapsed directory node.
    pub fn directory(name: String, path: String, depth: u16) -> (r: TreeNode)
        ensures
            r@ == (TreeNodeV {
                name: name@,
                path: path@,
                is_directory: true,
                expanded: false,
                depth,
                size: None,
            }),
    {
        TreeNode { name, path, is_directory: true, expanded: false, depth, size: None }
    }

    /// Create a file node with its size.
    pub fn file(name: String, path: String, depth: u16, size: u64) -> (r: TreeNode)
        ensures
            r@ == (TreeNodeV {
                name: name@,
                path: path@,
                is_directory: false,
                expanded: false,
                depth,
                size: Some(size),
            }),
    {
        TreeNode { name, path, is_directory: false, expanded: false, depth, size: Some(size) }
    }
}

/// Tree widget state.
pub struct TreeState {
    /// The flattened, currently visible nodes.
    pub nodes: Vec<TreeNode>,
    /// The selected index.
    pub cursor: usize,
    /// First visible line.
    pub scroll_offset: usize,
}

impl TreeState {
    /// The views of the nodes.
    pub open spec fn nodes_view(&self) -> Seq<TreeNodeV> {
        self.nodes@.map_values(|n: TreeNode| n@)
    }

    /// Move the selection up, stopping at the first node.
    pub fn move_up(&mut self)
        ensures
            final(self).cursor == (if old(self).cursor > 0 {
                old(self).cursor - 1
            } else {
                0
            }),
            final(self).nodes == old(self).nodes,
            final(self).scroll_offset == old(self).scroll_offset,
    {
        if self.cursor > 0 {
            self.cursor = self.cursor - 1;
        }
    }

    /// Move the selection down, stopping at the last node.
    pub fn move_down(&mut self)
        ensures
            final(self).cursor == (if old(self).nodes@.len() > 0 && old(self).cursor < old(
                self,
            ).nodes@.len() - 1 {
                old(self).cursor + 1
            } else {
                old(self).cursor as int
            }),
            final(self).nodes == old(self).nodes,
            final(self).scroll_offset == old(self).scroll_offset,
    {
        if self.nodes.len() > 0 && self.cursor < self.nodes.len() - 1 {
            self.cursor = self.cursor + 1;
        }
    }

    /// The selected node, when the cursor is in range.
    pub fn selected(&self) -> (r: Option<&TreeNode>)
        ensures
            match r {
                Some(n) => self.cursor < self.nodes@.len() && n@ == self.nodes_view()[
                    self.cursor as int],
                None => self.cursor >= self.nodes@.len(),
            },
    {
        if self.cursor < self.nodes.len() {
            Some(&self.nodes[self.cursor])
        } else {
            None
        }
    }

    /// Toggle the expansion of the selected node, when it is a directory.
    pub fn toggle_expand(&mut self)
        ensures
            final(self).cursor == old(self).cursor,
            final(self).scroll_offset == old(self).scroll_offset,
            if old(self).cursor < old(self).nodes@.len() && old(self).nodes_view()[old(
                self,
            ).cursor as int].is_directory {
                final(self).nodes_view() == old(self).nodes_view().update(
                    old(self).cursor as int,
                    TreeNodeV {
                        expanded: !old(self).nodes_view()[old(self).cursor as int].expanded,
                        ..old(self).nodes_view()[old(self).cursor as int]
                    },
                )
            } else {
                final(self).nodes == old(self).nodes
            },
    {
        if self.cursor < self.nodes.len() {
            if self.nodes[self.cursor].is_directory {
                let cur = self.cursor;
                let node = self.nodes.remove(cur);
                let flipped = TreeNode { expanded: !node.expanded, ..node };
                self.nodes.insert(cur, flipped);
                proof {
                    assert(self.nodes@ =~= old(self).nodes@.remove(cur as int).insert(
                        cur as int,
                        self.nodes@[cur as int],
                    ));
                    assert(self.nodes@ =~= old(self).nodes@.update(
                        cur as int,
                        self.nodes@[cur as int],
                    ));
                    assert(final(self).nodes_view() =~= old(self).nodes_view().update(
                        cur as int,
                        TreeNodeV {
                            expanded: !old(self).nodes_view()[cur as int].expanded,
                            ..old(self).nodes_view()[cur as int]
                        },
                    ));
                }
            }
        }
    }

    /// Replace the nodes, preserving the expanded state of directories that
    /// are present in both lists (matched by path), and clamping the cursor.
    #[verifier::loop_isolation(false)]
    pub fn update_nodes(&mut self, new_nodes: Vec<TreeNode>)
        ensures
            final(self).scroll_offset == old(self).scroll_offset,
            final(self).nodes_view().len() == new_nodes@.len(),
            forall|i: int|
                0 <= i < new_nodes@.len() ==> #[trigger] final(self).nodes_view()[i] == (
                TreeNodeV {
                    expanded: new_nodes@[i]@.expanded || (new_nodes@[i]@.is_directory
                        && spec_expanded_dir(old(self).nodes_view(), new_nodes@[i]@.path)),
                    ..new_nodes@[i]@
                }),
            final(self).cursor == (if old(self).cursor < new_nodes@.len() {
                old(self).cursor
            } else if new_nodes@.len() > 0 {
                (new_nodes@.len() - 1) as usize
            } else {
                0
            }),
    {
        let ghost old_view = self.nodes_view();
        let mut out: Vec<TreeNode> = Vec::new();
        let mut i: usize = 0;
        while i < new_nodes.len()
            invariant
                i <= new_nodes@.len(),
                out@.len() == i,
                forall|j: int|
                    0 <= j < i ==> #[trigger] out@[j]@ == (TreeNodeV {
                        expanded: new_nodes@[j]@.expanded || (new_nodes@[j]@.is_directory
                            && spec_expanded_dir(old_view, new_nodes@[j]@.path)),
                        ..new_nodes@[j]@
                    }),
            decreases new_nodes@.len() - i,
        {
            let n = &new_nodes[i];
            let keep_expanded = n.is_directory && self.was_expanded(n.path.as_str());
            out.push(
                TreeNode {
                    name: n.name.clone(),
                    path: n.path.clone(),
                    is_directory: n.is_directory,
                    expanded: n.expanded || keep_expanded,
                    depth: n.depth,
                    size: n.size,
                },
            );
            i += 1;
        }
        self.nodes = out;
        if self.cursor >= self.nodes.len() {
            if self.nodes.len() > 0 {
                self.cursor = self.nodes.len() - 1;
            } else {
                self.cursor = 0;
            }
        }
    }

    /// Whether some directory at `path` is currently expanded.
    #[verifier::loop_isolation(false)]
    fn was_expanded(&self, path: &str) -> (r: bool)
        ensures
            r == spec_expanded_dir(self.nodes_view(), path@),
    {
        let mut i: usize = 0;
        while i < self.nodes.len()
            invariant
                i <= self.nodes@.len(),
                forall|j: int|
                    0 <= j < i ==> !((#[trigger] self.nodes_view()[j]).is_directory
                        && self.nodes_view()[j].expanded && self.nodes_view()[j].path == path@),
            decreases self.nodes@.len() - i,
        {
            let n = &self.nodes[i];
            if n.is_directory && n.expanded && str_eq(n.path.as_str(), path) {
                proof {
                    assert(self.nodes_view()[i as int].is_directory && self.nodes_view()[
                        i as int].expanded && self.nodes_view()[i as int].path == path@);
                }
                return true;
            }
            i += 1;
        }
        false
    }

    /// Scroll so that the cursor is within the visible window.
    pub fn ensure_visible(&mut self, visible_lines: usize)
        ensures
            final(self).nodes == old(self).nodes,
            final(self).cursor == old(self).cursor,
            final(self).scroll_offset == spec_scrolled_usize(
                old(self).cursor,
                old(self).scroll_offset,
                visible_lines,
            ),
    {
        if self.cursor < self.scroll_offset {
            self.scroll_offset = self.cursor;
        } else if visible_lines == 0 {
            self.scroll_offset = self.cursor;
        } else if self.cursor - self.scroll_offset >= visible_lines {
            self.scroll_offset = self.cursor - (visible_lines - 1);
        }
    }
}

/// Whether `nodes` holds an expanded directory at `path`.
pub open spec fn spec_expanded_dir(nodes: Seq<TreeNodeV>, path: Seq<char>) -> bool {
    exists|j: int|
        0 <= j < nodes.len() && (#[trigger] nodes[j]).is_directory && nodes[j].expanded
            && nodes[j].path == path
}

/// The scroll offset that keeps `cursor` within a `visible`-line window.
pub open spec fn spec_scrolled_usize(cursor: usize, scroll: usize, visible: usize) -> usize {
    if cursor < scroll {
        cursor
    } else if visible == 0 {
        cursor
    } else if cursor - scroll >= visible {
        (cursor - (visible - 1)) as usize
    } else {
        scroll
    }
}

/// A size in bytes rendered with a binary unit suffix: bytes below a
/// kibibyte, otherwise one fractional digit (rounded down) with `K`, `M` or
/// `G`.
pub open spec fn spec_format_size(bytes: u64) -> Seq<char> {
    let b = bytes as int;
    let kb = 1024int;
    let mb = 1048576int;
    let gb = 1073741824int;
    if b >= gb {
        spec_dec((b / gb) as nat) + seq!['.'] + spec_dec(((b % gb) * 10 / gb) as nat) + seq!['G']
    } else if b >= mb {
        spec_dec((b / mb) as nat) + seq!['.'] + spec_dec(((b % mb) * 10 / mb) as nat) + seq!['M']
    } else if b >= kb {
        spec_dec((b / kb) as nat) + seq!['.'] + spec_dec(((b % kb) * 10 / kb) as nat) + seq!['K']
    } else {
        spec_dec(bytes as nat) + seq!['B']
    }
}

/// Render a size in human-readable form with a binary unit suffix.
pub fn format_size(bytes: u64) -> (r: String)
    ensures
        r@ == spec_format_size(bytes),
{
    let kb: u64 = 1024;
    let mb: u64 = 1048576;
    let gb: u64 = 1073741824;
    if bytes >= gb {
        let mut s = u64_to_dec(bytes / gb);
        push_char(&mut s, '.');
        let frac = u64_to_dec(bytes % gb * 10 / gb);
        s.append(frac.as_str());
        push_char(&mut s, 'G');
        proof {
            assert(s@ =~= spec_format_size(bytes));
        }
        s
    } else if bytes >= mb {
        let mut s = u64_to_dec(bytes / mb);
        push_char(&mut s, '.');
        let frac = u64_to_dec(bytes % mb * 10 / mb);
        s.append(frac.as_str());
        push_char(&mut s, 'M');
        proof {
            assert(s@ =~= spec_format_size(bytes));
        }
        s
    } else if bytes >= kb {
        let mut s = u64_to_dec(bytes / kb);
        push_char(&mut s, '.');
        let frac = u64_to_dec(bytes % kb * 10 / kb);
        s.append(frac.as_str());
        push_char(&mut s, 'K');
        proof {
            assert(s@ =~= spec_format_size(bytes));
        }
        s
    } else {
        let mut s = u64_to_dec(bytes);
        push_char(&mut s, 'B');
        proof {
            assert(s@ =~= spec_format_size(bytes));
        }
        s
    }
}

} // verus!
