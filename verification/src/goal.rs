//! The goal record: the one domain entity of the tray core.
//!
//! A goal is supplied wholesale by the front-end on every update; this
//! crate never stores a goal list of its own.

use vstd::prelude::*;

verus! {

/// A user-defined task record. `id` is an opaque identifier, unique within
/// one goal list, that is embedded into composite menu-item identifiers
/// such as `complete_<id>`. `impediments`, when present, marks the goal as
/// blocked and carries the free-text annotation.
pub struct Goal {
    pub id: String,
    pub title: String,
    pub completed: bool,
    pub impediments: Option<String>,
}

/// Mathematical image of a [`Goal`]: every string as a sequence of
/// characters.
pub struct GoalView {
    pub id: Seq<char>,
    pub title: Seq<char>,
    pub completed: bool,
    pub impediments: Option<Seq<char>>,
}

impl View for Goal {
    type V = GoalView;

    open spec fn view(&self) -> GoalView {
        GoalView {
            id: self.id@,
            title: self.title@,
            completed: self.completed,
            impediments: match self.impediments {
                Some(ref s) => Some(s@),
                None => None,
            },
        }
    }
}

/// The views of a whole goal list, in input order.
pub open spec fn goal_views(goals: Seq<Goal>) -> Seq<GoalView> {
    goals.map_values(|g: Goal| g@)
}

} // verus!
