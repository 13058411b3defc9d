//! The event router: decodes the opaque menu-item identifier reported by
//! the OS on a tray click into the action the shell must perform.
//!
//! Dispatch precedence (first match wins, exact tokens before prefixes):
//! `quit`; `show` / `add_goal`; then the composite prefixes `complete_`,
//! `uncomplete_`, `remove_impediment_`, `add_impediment_`. A composite
//! token whose payload would be empty, and any unknown identifier, is a
//! routing miss and maps to no action at all.

use vstd::prelude::*;
use crate::text::is_strict_prefix;
use crate::text::str_eq;
use crate::text::strip_strict_prefix;

verus! {

/// What a single tray click asks the GUI shell to do. At most one event
/// is ever emitted per click, and only `AddImpediment` also makes the
/// window visible first.
#[derive(Debug, PartialEq, Eq)]
pub enum TrayAction {
    /// Terminate the process (exit code 0).
    Quit,
    /// Make the main window visible.
    ShowWindow,
    /// Publish one `toggle_goal` event carrying this goal id.
    EmitToggle(String),
    /// Publish one `remove_impediment` event carrying this goal id.
    EmitRemoveImpediment(String),
    /// Make the main window visible, then publish one `add_impediment`
    /// event carrying this goal id.
    ShowAndEmitAddImpediment(String),
    /// Routing miss: no event, no window change, no exit.
    Ignore,
}

/// Mathematical image of a [`TrayAction`].
pub enum TrayActionView {
    Quit,
    ShowWindow,
    EmitToggle(Seq<char>),
    EmitRemoveImpediment(Seq<char>),
    ShowAndEmitAddImpediment(Seq<char>),
    Ignore,
}

impl View for TrayAction {
    type V = TrayActionView;

    open spec fn view(&self) -> TrayActionView {
        match self {
            TrayAction::Quit => TrayActionView::Quit,
            TrayAction::ShowWindow => TrayActionView::ShowWindow,
            TrayAction::EmitToggle(id) => TrayActionView::EmitToggle(id@),
            TrayAction::EmitRemoveImpediment(id) => TrayActionView::EmitRemoveImpediment(id@),
            TrayAction::ShowAndEmitAddImpediment(id) => TrayActionView::ShowAndEmitAddImpediment(
                id@,
            ),
            TrayAction::Ignore => TrayActionView::Ignore,
        }
    }
}

/// The routing table, as a function of the clicked identifier.
pub open spec fn spec_route(id: Seq<char>) -> TrayActionView {
    if id == "quit"@ {
        TrayActionView::Quit
    } else if id == "show"@ || id == "add_goal"@ {
        TrayActionView::ShowWindow
    } else if is_strict_prefix("complete_"@, id) {
        TrayActionView::EmitToggle(id.skip("complete_"@.len() as int))
    } else if is_strict_prefix("uncomplete_"@, id) {
        TrayActionView::EmitToggle(id.skip("uncomplete_"@.len() as int))
    } else if is_strict_prefix("remove_impediment_"@, id) {
        TrayActionView::EmitRemoveImpediment(id.skip("remove_impediment_"@.len() as int))
    } else if is_strict_prefix("add_impediment_"@, id) {
        TrayActionView::ShowAndEmitAddImpediment(id.skip("add_impediment_"@.len() as int))
    } else {
        TrayActionView::Ignore
    }
}

/// Law: every composite identifier the menu builder mints for a goal
/// routes back to the intended action on exactly that goal. The four
/// prefixes collide neither with each other nor with the fixed tokens,
/// so a click is never misrouted, whatever the goal id contains.
pub proof fn lemma_identifier_round_trip(id: Seq<char>)
    requires
        id.len() > 0,
    ensures
        spec_route("complete_"@ + id) == TrayActionView::EmitToggle(id),
        spec_route("uncomplete_"@ + id) == TrayActionView::EmitToggle(id),
        spec_route("remove_impediment_"@ + id) == TrayActionView::EmitRemoveImpediment(id),
        spec_route("add_impediment_"@ + id) == TrayActionView::ShowAndEmitAddImpediment(id),
{
    reveal_strlit("quit");
    reveal_strlit("show");
    reveal_strlit("add_goal");
    reveal_strlit("complete_");
    reveal_strlit("uncomplete_");
    reveal_strlit("remove_impediment_");
    reveal_strlit("add_impediment_");
    let c = "complete_"@ + id;
    assert(is_strict_prefix("complete_"@, c)) by {
        assert(c.take(9) =~= "complete_"@);
    }
    assert(c.skip(9) =~= id);
    let u = "uncomplete_"@ + id;
    assert(!is_strict_prefix("complete_"@, u)) by {
        if is_strict_prefix("complete_"@, u) {
            assert(u.take(9)[0] == u[0]);
        }
    }
    assert(is_strict_prefix("uncomplete_"@, u)) by {
        assert(u.take(11) =~= "uncomplete_"@);
    }
    assert(u.skip(11) =~= id);
    let r = "remove_impediment_"@ + id;
    assert(!is_strict_prefix("complete_"@, r)) by {
        if is_strict_prefix("complete_"@, r) {
            assert(r.take(9)[0] == r[0]);
        }
    }
    assert(!is_strict_prefix("uncomplete_"@, r)) by {
        if is_strict_prefix("uncomplete_"@, r) {
            assert(r.take(11)[0] == r[0]);
        }
    }
    assert(is_strict_prefix("remove_impediment_"@, r)) by {
        assert(r.take(18) =~= "remove_impediment_"@);
    }
    assert(r.skip(18) =~= id);
    let a = "add_impediment_"@ + id;
    assert(a != "add_goal"@);
    assert(!is_strict_prefix("complete_"@, a)) by {
        if is_strict_prefix("complete_"@, a) {
            assert(a.take(9)[0] == a[0]);
        }
    }
    assert(!is_strict_prefix("uncomplete_"@, a)) by {
        if is_strict_prefix("uncomplete_"@, a) {
            assert(a.take(11)[0] == a[0]);
        }
    }
    assert(!is_strict_prefix("remove_impediment_"@, a)) by {
        if is_strict_prefix("remove_impediment_"@, a) {
            assert(a.take(18)[0] == a[0]);
        }
    }
    assert(is_strict_prefix("add_impediment_"@, a)) by {
        assert(a.take(15) =~= "add_impediment_"@);
    }
    assert(a.skip(15) =~= id);
}

/// Decode one clicked identifier. Total: every string maps to exactly one
/// action, unknown or malformed ones to `Ignore`.
pub fn route(id: &str) -> (action: TrayAction)
    ensures
        action@ == spec_route(id@),
{
    if str_eq(id, "quit") {
        TrayAction::Quit
    } else if str_eq(id, "show") || str_eq(id, "add_goal") {
        TrayAction::ShowWindow
    } else if let Some(goal_id) = strip_strict_prefix(id, "complete_") {
        TrayAction::EmitToggle(goal_id)
    } else if let Some(goal_id) = strip_strict_prefix(id, "uncomplete_") {
        TrayAction::EmitToggle(goal_id)
    } else if let Some(goal_id) = strip_strict_prefix(id, "remove_impediment_") {
        TrayAction::EmitRemoveImpediment(goal_id)
    } else if let Some(goal_id) = strip_strict_prefix(id, "add_impediment_") {
        TrayAction::ShowAndEmitAddImpediment(goal_id)
    } else {
        TrayAction::Ignore
    }
}

} // verus!
