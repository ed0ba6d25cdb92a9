//! What a rule is told when it is run on one node.

use vstd::prelude::*;

verus! {

/// Where a walk over the tree stands.
#[derive(Debug, Clone, PartialEq, Eq)]
pub struct NodeContext {
    /// The path of the document.
    pub path: String,
    /// How deep the node lies below the root.
    pub level: usize,
    /// How deep the node lies in lists, if it lies in one.
    pub list_level: Option<usize>,
}

/// One more than `n`, as far as numbers go.
pub open spec fn following(n: usize) -> usize {
    if n < usize::MAX {
        (n + 1) as usize
    } else {
        n
    }
}

/// How deep in lists a list lies that starts in `column`, where the walk
/// was `level` deep in lists and the list before it started in `previous`:
/// one deeper where it starts more than one column further to the right,
/// as deep where it starts no further to the left, and at the first level
/// otherwise.
pub open spec fn list_level_after(level: Option<usize>, previous: usize, column: usize) -> Option<
    usize,
> {
    match level {
        Some(depth) => if column > previous + 1 {
            Some(following(depth))
        } else if column >= previous {
            Some(depth)
        } else {
            Some(1)
        },
        None => Some(1),
    }
}

/// How deep in lists a list lies that starts in `column`, after a list
/// that started in `previous`.
pub fn next_list_level(level: Option<usize>, previous: usize, column: usize) -> (next: Option<
    usize,
>)
    ensures
        next == list_level_after(level, previous, column),
{
    match level {
        Some(depth) => if column > previous && column - previous > 1 {
            Some(depth.saturating_add(1))
        } else if column >= previous {
            Some(depth)
        } else {
            Some(1)
        },
        None => Some(1),
    }
}

impl NodeContext {
    /// Where a walk over the document of `path` stands before its first node.
    pub fn new(path: String) -> (ctx: NodeContext)
        ensures
            ctx.path == path,
            ctx.level == 0,
            ctx.list_level is None,
    {
        NodeContext { path, level: 0, list_level: None }
    }

    /// Where the walk stands at a child of the node that it stands at: one
    /// level deeper, and one list deeper where the child is a list.
    pub fn descend(&self, into_list: bool) -> (ctx: NodeContext)
        ensures
            ctx.path@ == self.path@,
            ctx.level == following(self.level),
            ctx.list_level == if into_list {
                Some(
                    match self.list_level {
                        Some(depth) => following(depth),
                        None => 1,
                    },
                )
            } else {
                self.list_level
            },
    {
        let list_level = if into_list {
            match self.list_level {
                Some(depth) => Some(depth.saturating_add(1)),
                None => Some(1),
            }
        } else {
            self.list_level
        };
        NodeContext { path: self.path.clone(), level: self.level.saturating_add(1), list_level }
    }
}

} // verus!
