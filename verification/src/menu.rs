//! The menu builder: a pure function from an ordered goal list to the
//! tray-menu description that the GUI shell installs.
//!
//! Layout, in order: a disabled "Pendentes" label and one submenu per
//! pending goal; a separator (only between two non-empty sections) and a
//! disabled "Concluídas" label and one submenu per completed goal; then
//! the fixed trailing block: separator, "new goal", "manage goals",
//! separator, "quit". Goals keep their input order within each section.

use vstd::prelude::*;
use vstd::seq_lib::group_filter_ensures;
use vstd::string::StringExecFns;
use crate::goal::Goal;
use crate::goal::GoalView;
use crate::goal::goal_views;
use crate::text::concat_str;
use crate::text::is_prefix;

verus! {

/// One clickable (or, for section labels, deliberately unclickable) menu
/// item. `ident` is what the OS reports back on a click.
#[derive(Debug, PartialEq, Eq)]
pub struct MenuLeaf {
    pub ident: String,
    pub label: String,
    pub enabled: bool,
}

/// One top-level entry of the tray menu.
#[derive(Debug, PartialEq, Eq)]
pub enum MenuEntry {
    /// A plain item.
    Item(MenuLeaf),
    /// A horizontal separator.
    Separator,
    /// A submenu: a labelled entry whose children are plain items.
    Submenu { label: String, children: Vec<MenuLeaf> },
}

/// The whole tray-menu description, top to bottom.
#[derive(Debug, PartialEq, Eq)]
pub struct Menu {
    pub entries: Vec<MenuEntry>,
}

/// Mathematical image of a [`MenuLeaf`].
#[verifier::ext_equal]
pub struct MenuLeafView {
    pub ident: Seq<char>,
    pub label: Seq<char>,
    pub enabled: bool,
}

/// Mathematical image of a [`MenuEntry`].
#[verifier::ext_equal]
pub enum MenuEntryView {
    Item(MenuLeafView),
    Separator,
    Submenu { label: Seq<char>, children: Seq<MenuLeafView> },
}

impl View for MenuLeaf {
    type V = MenuLeafView;

    open spec fn view(&self) -> MenuLeafView {
        MenuLeafView { ident: self.ident@, label: self.label@, enabled: self.enabled }
    }
}

impl View for MenuEntry {
    type V = MenuEntryView;

    open spec fn view(&self) -> MenuEntryView {
        match self {
            MenuEntry::Item(leaf) => MenuEntryView::Item(leaf@),
            MenuEntry::Separator => MenuEntryView::Separator,
            MenuEntry::Submenu { label, children } => MenuEntryView::Submenu {
                label: label@,
                children: children@.map_values(|l: MenuLeaf| l@),
            },
        }
    }
}

impl View for Menu {
    type V = Seq<MenuEntryView>;

    open spec fn view(&self) -> Seq<MenuEntryView> {
        self.entries@.map_values(|e: MenuEntry| e@)
    }
}

/// The pending goals, in input order.
pub open spec fn spec_pending(gs: Seq<GoalView>) -> Seq<GoalView> {
    gs.filter(|g: GoalView| !g.completed)
}

/// The completed goals, in input order.
pub open spec fn spec_completed(gs: Seq<GoalView>) -> Seq<GoalView> {
    gs.filter(|g: GoalView| g.completed)
}

/// The disabled section label above the pending goals.
pub open spec fn spec_pending_label() -> MenuEntryView {
    MenuEntryView::Item(
        MenuLeafView { ident: "pending_label"@, label: "📝 Pendentes"@, enabled: false },
    )
}

/// The disabled section label above the completed goals.
pub open spec fn spec_completed_label() -> MenuEntryView {
    MenuEntryView::Item(
        MenuLeafView { ident: "completed_label"@, label: "✅ Concluídas"@, enabled: false },
    )
}

/// The "mark as completed" child of a pending goal's submenu.
pub open spec fn spec_complete_leaf(id: Seq<char>) -> MenuLeafView {
    MenuLeafView {
        ident: "complete_"@ + id,
        label: "✓ Marcar como concluída"@,
        enabled: true,
    }
}

/// The "remove impediment" child, offered exactly when the goal carries
/// an impediment.
pub open spec fn spec_remove_impediment_leaf(id: Seq<char>) -> MenuLeafView {
    MenuLeafView {
        ident: "remove_impediment_"@ + id,
        label: "🔓 Remover impedimento"@,
        enabled: true,
    }
}

/// The "add impediment" child, offered exactly when the goal carries no
/// impediment.
pub open spec fn spec_add_impediment_leaf(id: Seq<char>) -> MenuLeafView {
    MenuLeafView {
        ident: "add_impediment_"@ + id,
        label: "🚫 Adicionar impedimento"@,
        enabled: true,
    }
}

/// The "undo completion" child of a completed goal's submenu.
pub open spec fn spec_uncomplete_leaf(id: Seq<char>) -> MenuLeafView {
    MenuLeafView {
        ident: "uncomplete_"@ + id,
        label: "↩️ Desfazer conclusão"@,
        enabled: true,
    }
}

/// A blocked goal's displayed title: marker, title, then the impediment
/// text in parentheses.
pub open spec fn spec_blocked_title(title: Seq<char>, imp: Seq<char>) -> Seq<char> {
    "🚫 "@ + title + " (Bloqueado: "@ + imp + ")"@
}

/// The label of a pending goal's submenu: the bare title, or the blocked
/// annotation when an impediment is present.
pub open spec fn spec_pending_title(g: GoalView) -> Seq<char> {
    match g.impediments {
        Some(imp) => spec_blocked_title(g.title, imp),
        None => g.title,
    }
}

/// The children of a pending goal's submenu: "mark as completed", then
/// either "remove impediment" or "add impediment", by whether the goal is
/// blocked.
pub open spec fn spec_pending_children(g: GoalView) -> Seq<MenuLeafView> {
    seq![
        spec_complete_leaf(g.id),
        if g.impediments is Some {
            spec_remove_impediment_leaf(g.id)
        } else {
            spec_add_impediment_leaf(g.id)
        },
    ]
}

/// The whole submenu entry of one pending goal.
pub open spec fn spec_pending_submenu(g: GoalView) -> MenuEntryView {
    MenuEntryView::Submenu {
        label: spec_pending_title(g),
        children: spec_pending_children(g),
    }
}

/// The whole submenu entry of one completed goal: a checkmark-prefixed
/// title over a single "undo completion" child.
pub open spec fn spec_completed_submenu(g: GoalView) -> MenuEntryView {
    MenuEntryView::Submenu {
        label: "✓ "@ + g.title,
        children: seq![spec_uncomplete_leaf(g.id)],
    }
}

/// One pending submenu per goal of `ps`, in order.
pub open spec fn spec_pending_submenus(ps: Seq<GoalView>) -> Seq<MenuEntryView> {
    ps.map_values(|g: GoalView| spec_pending_submenu(g))
}

/// One completed submenu per goal of `cs`, in order.
pub open spec fn spec_completed_submenus(cs: Seq<GoalView>) -> Seq<MenuEntryView> {
    cs.map_values(|g: GoalView| spec_completed_submenu(g))
}

/// The pending section: label plus one submenu per pending goal, or
/// nothing when no goal is pending.
pub open spec fn spec_pending_section(gs: Seq<GoalView>) -> Seq<MenuEntryView> {
    if spec_pending(gs).len() == 0 {
        Seq::empty()
    } else {
        seq![spec_pending_label()] + spec_pending_submenus(spec_pending(gs))
    }
}

/// The completed section: a separator (only below a non-empty pending
/// section), label, and one submenu per completed goal; or nothing when
/// no goal is completed.
pub open spec fn spec_completed_section(gs: Seq<GoalView>) -> Seq<MenuEntryView> {
    if spec_completed(gs).len() == 0 {
        Seq::empty()
    } else {
        (if spec_pending(gs).len() == 0 {
            Seq::empty()
        } else {
            seq![MenuEntryView::Separator]
        }) + seq![spec_completed_label()] + spec_completed_submenus(spec_completed(gs))
    }
}

/// The fixed trailing block closing every menu: separator, "new goal",
/// "manage goals", separator, "quit".
pub open spec fn spec_trailing() -> Seq<MenuEntryView> {
    seq![
        MenuEntryView::Separator,
        MenuEntryView::Item(
            MenuLeafView { ident: "add_goal"@, label: "➕ Nova meta"@, enabled: true },
        ),
        MenuEntryView::Item(
            MenuLeafView { ident: "show"@, label: "🔧 Gerenciar Metas"@, enabled: true },
        ),
        MenuEntryView::Separator,
        MenuEntryView::Item(MenuLeafView { ident: "quit"@, label: "Sair"@, enabled: true }),
    ]
}

/// The full menu for one goal list.
pub open spec fn spec_build_menu(gs: Seq<GoalView>) -> Seq<MenuEntryView> {
    spec_pending_section(gs) + spec_completed_section(gs) + spec_trailing()
}

/// Law: appending one goal to the list extends exactly one of the two
/// groups, at its end. Together with `lemma_build_menu_partition` this
/// pins the partition down: each group lists its goals in input order.
pub proof fn lemma_partition_push(gs: Seq<GoalView>, g: GoalView)
    ensures
        spec_pending(gs.push(g)) == if !g.completed {
            spec_pending(gs).push(g)
        } else {
            spec_pending(gs)
        },
        spec_completed(gs.push(g)) == if g.completed {
            spec_completed(gs).push(g)
        } else {
            spec_completed(gs)
        },
{
    broadcast use Seq::lemma_filter_push;

}

/// Law: the two groups partition the goal list. Every goal of the list
/// lands in the group its `completed` flag selects, the groups hold
/// nothing else, and no goal is dropped or duplicated between them.
pub proof fn lemma_build_menu_partition(gs: Seq<GoalView>)
    ensures
        spec_pending(gs).len() + spec_completed(gs).len() == gs.len(),
        forall|i: int|
            0 <= i < spec_pending(gs).len() ==> !(#[trigger] spec_pending(gs)[i]).completed,
        forall|i: int|
            0 <= i < spec_completed(gs).len() ==> (#[trigger] spec_completed(gs)[i]).completed,
        forall|i: int|
            0 <= i < gs.len() && !gs[i].completed ==> spec_pending(gs).contains(#[trigger] gs[i]),
        forall|i: int|
            0 <= i < gs.len() && gs[i].completed ==> spec_completed(gs).contains(#[trigger] gs[i]),
    decreases gs.len(),
{
    broadcast use group_filter_ensures;

    if gs.len() > 0 {
        lemma_build_menu_partition(gs.drop_last());
        lemma_partition_push(gs.drop_last(), gs.last());
        assert(gs.drop_last().push(gs.last()) =~= gs);
    }
}

/// Law: the rendered menu is a function of the goal views and of nothing
/// else. Since `build_menu` returns exactly `spec_build_menu` of its
/// input's views, refreshing the tray twice from the same goal list —
/// or from any two lists whose records read the same — installs the
/// identical menu: a refresh is idempotent.
pub proof fn lemma_refresh_idempotent(gs1: Seq<Goal>, gs2: Seq<Goal>)
    requires
        goal_views(gs1) == goal_views(gs2),
    ensures
        spec_build_menu(goal_views(gs1)) == spec_build_menu(goal_views(gs2)),
{
}

/// Law: a pending goal's submenu offers "remove impediment" exactly when
/// the goal carries an impediment, and "add impediment" exactly when it
/// carries none — never both. Offering an action is read off the
/// children's identifiers: one starts with the matching composite prefix.
pub proof fn lemma_impediment_submenu(g: GoalView)
    ensures
        g.impediments is Some ==> exists|j: int|
            0 <= j < spec_pending_children(g).len() && is_prefix(
                "remove_impediment_"@,
                (#[trigger] spec_pending_children(g)[j]).ident,
            ),
        g.impediments is Some ==> forall|j: int|
            0 <= j < spec_pending_children(g).len() ==> !is_prefix(
                "add_impediment_"@,
                (#[trigger] spec_pending_children(g)[j]).ident,
            ),
        g.impediments is None ==> exists|j: int|
            0 <= j < spec_pending_children(g).len() && is_prefix(
                "add_impediment_"@,
                (#[trigger] spec_pending_children(g)[j]).ident,
            ),
        g.impediments is None ==> forall|j: int|
            0 <= j < spec_pending_children(g).len() ==> !is_prefix(
                "remove_impediment_"@,
                (#[trigger] spec_pending_children(g)[j]).ident,
            ),
{
    reveal_strlit("complete_");
    reveal_strlit("remove_impediment_");
    reveal_strlit("add_impediment_");
    let cs = spec_pending_children(g);
    let complete_id = cs[0].ident;
    assert(complete_id[0] == 'c');
    assert(!is_prefix("remove_impediment_"@, complete_id)) by {
        if is_prefix("remove_impediment_"@, complete_id) {
            assert(complete_id.take("remove_impediment_"@.len() as int)[0] == complete_id[0]);
        }
    }
    assert(!is_prefix("add_impediment_"@, complete_id)) by {
        if is_prefix("add_impediment_"@, complete_id) {
            assert(complete_id.take("add_impediment_"@.len() as int)[0] == complete_id[0]);
        }
    }
    if g.impediments is Some {
        let remove_id = cs[1].ident;
        assert(is_prefix("remove_impediment_"@, remove_id)) by {
            assert(remove_id.take("remove_impediment_"@.len() as int) =~= "remove_impediment_"@);
        }
        assert(remove_id[0] == 'r');
        assert(!is_prefix("add_impediment_"@, remove_id)) by {
            if is_prefix("add_impediment_"@, remove_id) {
                assert(remove_id.take("add_impediment_"@.len() as int)[0] == remove_id[0]);
            }
        }
    } else {
        let add_id = cs[1].ident;
        assert(is_prefix("add_impediment_"@, add_id)) by {
            assert(add_id.take("add_impediment_"@.len() as int) =~= "add_impediment_"@);
        }
        assert(add_id[0] == 'a');
        assert(!is_prefix("remove_impediment_"@, add_id)) by {
            if is_prefix("remove_impediment_"@, add_id) {
                assert(add_id.take("remove_impediment_"@.len() as int)[0] == add_id[0]);
            }
        }
    }
}

/// Step of the partition over a growing prefix of the goal list.
proof fn lemma_partition_take_step(gs: Seq<GoalView>, i: int)
    requires
        0 <= i < gs.len(),
    ensures
        spec_pending(gs.take(i + 1)) == if !gs[i].completed {
            spec_pending(gs.take(i)).push(gs[i])
        } else {
            spec_pending(gs.take(i))
        },
        spec_completed(gs.take(i + 1)) == if gs[i].completed {
            spec_completed(gs.take(i)).push(gs[i])
        } else {
            spec_completed(gs.take(i))
        },
{
    assert(gs.take(i + 1) =~= gs.take(i).push(gs[i]));
    lemma_partition_push(gs.take(i), gs[i]);
}

proof fn lemma_pending_submenus_push(ps: Seq<GoalView>, g: GoalView)
    ensures
        spec_pending_submenus(ps.push(g)) == spec_pending_submenus(ps).push(
            spec_pending_submenu(g),
        ),
{
    assert(spec_pending_submenus(ps.push(g)) =~= spec_pending_submenus(ps).push(
        spec_pending_submenu(g),
    ));
}

proof fn lemma_completed_submenus_push(cs: Seq<GoalView>, g: GoalView)
    ensures
        spec_completed_submenus(cs.push(g)) == spec_completed_submenus(cs).push(
            spec_completed_submenu(g),
        ),
{
    assert(spec_completed_submenus(cs.push(g)) =~= spec_completed_submenus(cs).push(
        spec_completed_submenu(g),
    ));
}

fn pending_label_item() -> (e: MenuEntry)
    ensures
        e@ == spec_pending_label(),
{
    MenuEntry::Item(
        MenuLeaf {
            ident: String::from_str("pending_label"),
            label: String::from_str("📝 Pendentes"),
            enabled: false,
        },
    )
}

fn completed_label_item() -> (e: MenuEntry)
    ensures
        e@ == spec_completed_label(),
{
    MenuEntry::Item(
        MenuLeaf {
            ident: String::from_str("completed_label"),
            label: String::from_str("✅ Concluídas"),
            enabled: false,
        },
    )
}

fn pending_submenu_item(g: &Goal) -> (e: MenuEntry)
    ensures
        e@ == spec_pending_submenu(g@),
{
    let complete_leaf = MenuLeaf {
        ident: concat_str("complete_", g.id.as_str()),
        label: String::from_str("✓ Marcar como concluída"),
        enabled: true,
    };
    let (impediment_leaf, label): (MenuLeaf, String) = match &g.impediments {
        Some(imp) => (
            MenuLeaf {
                ident: concat_str("remove_impediment_", g.id.as_str()),
                label: String::from_str("🔓 Remover impedimento"),
                enabled: true,
            },
            String::from_str("🚫 ").concat(g.title.as_str()).concat(" (Bloqueado: ").concat(
                imp.as_str(),
            ).concat(")"),
        ),
        None => (
            MenuLeaf {
                ident: concat_str("add_impediment_", g.id.as_str()),
                label: String::from_str("🚫 Adicionar impedimento"),
                enabled: true,
            },
            g.title.clone(),
        ),
    };
    let mut children: Vec<MenuLeaf> = Vec::new();
    children.push(complete_leaf);
    children.push(impediment_leaf);
    let e = MenuEntry::Submenu { label, children };
    proof {
        assert(e@ =~~= spec_pending_submenu(g@));
    }
    e
}

fn completed_submenu_item(g: &Goal) -> (e: MenuEntry)
    ensures
        e@ == spec_completed_submenu(g@),
{
    let leaf = MenuLeaf {
        ident: concat_str("uncomplete_", g.id.as_str()),
        label: String::from_str("↩️ Desfazer conclusão"),
        enabled: true,
    };
    let mut children: Vec<MenuLeaf> = Vec::new();
    children.push(leaf);
    let label = String::from_str("✓ ").concat(g.title.as_str());
    let e = MenuEntry::Submenu { label, children };
    proof {
        assert(e@ =~~= spec_completed_submenu(g@));
    }
    e
}

/// Build the whole tray-menu description for one goal list.
///
/// Deterministic and total: the result is `spec_build_menu` of the input
/// views and of nothing else, so rebuilding from the same list always
/// yields the same menu, and an empty list yields only the fixed trailing
/// block.
pub fn build_menu(goals: &Vec<Goal>) -> (menu: Menu)
    ensures
        menu@ == spec_build_menu(goal_views(goals@)),
{
    let ghost gv = goal_views(goals@);
    proof {
        assert(forall|k: int| 0 <= k < goals@.len() ==> gv[k] == goals@[k]@);
    }
    let n = goals.len();
    let mut has_pending = false;
    let mut has_completed = false;
    let mut i: usize = 0;
    while i < n
        invariant
            i <= n,
            n == goals@.len(),
            gv == goal_views(goals@),
            gv.len() == n as int,
            has_pending == (spec_pending(gv.take(i as int)).len() > 0),
            has_completed == (spec_completed(gv.take(i as int)).len() > 0),
        decreases n - i,
    {
        proof {
            lemma_partition_take_step(gv, i as int);
            assert(gv[i as int] == goals@[i as int]@);
        }
        let g = &goals[i];
        if !g.completed {
            has_pending = true;
        } else {
            has_completed = true;
        }
        i += 1;
    }
    proof {
        assert(gv.take(n as int) =~= gv);
    }
    let mut entries: Vec<MenuEntry> = Vec::new();
    let ghost mut eviews: Seq<MenuEntryView> = Seq::empty();
    if has_pending {
        let e0 = pending_label_item();
        entries.push(e0);
        proof {
            eviews = eviews.push(spec_pending_label());
            assert(forall|k: int| 0 <= k < entries@.len() ==> entries@[k]@ == eviews[k]);
        }
        let mut j: usize = 0;
        while j < n
            invariant
                j <= n,
                n == goals@.len(),
                gv == goal_views(goals@),
                gv.len() == n as int,
                eviews == seq![spec_pending_label()] + spec_pending_submenus(
                    spec_pending(gv.take(j as int)),
                ),
                entries@.len() == eviews.len(),
                forall|k: int| 0 <= k < entries@.len() ==> entries@[k]@ == eviews[k],
            decreases n - j,
        {
            proof {
                lemma_partition_take_step(gv, j as int);
                assert(gv[j as int] == goals@[j as int]@);
            }
            let g = &goals[j];
            if !g.completed {
                let e = pending_submenu_item(g);
                entries.push(e);
                proof {
                    lemma_pending_submenus_push(spec_pending(gv.take(j as int)), gv[j as int]);
                    eviews = eviews.push(spec_pending_submenu(gv[j as int]));
                    assert(eviews =~= seq![spec_pending_label()] + spec_pending_submenus(
                        spec_pending(gv.take(j as int + 1)),
                    ));
                    assert(forall|k: int| 0 <= k < entries@.len() ==> entries@[k]@ == eviews[k]);
                }
            }
            j += 1;
        }
        proof {
            assert(gv.take(n as int) =~= gv);
            assert(eviews == spec_pending_section(gv));
        }
    } else {
        proof {
            assert(eviews =~= spec_pending_section(gv));
        }
    }
    let ghost psec = spec_pending_section(gv);
    if has_completed {
        if has_pending {
            entries.push(MenuEntry::Separator);
            proof {
                eviews = eviews.push(MenuEntryView::Separator);
                assert(forall|k: int| 0 <= k < entries@.len() ==> entries@[k]@ == eviews[k]);
            }
        }
        let e1 = completed_label_item();
        entries.push(e1);
        proof {
            eviews = eviews.push(spec_completed_label());
            assert(forall|k: int| 0 <= k < entries@.len() ==> entries@[k]@ == eviews[k]);
        }
        let ghost chead = eviews;
        let mut j: usize = 0;
        while j < n
            invariant
                j <= n,
                n == goals@.len(),
                gv == goal_views(goals@),
                gv.len() == n as int,
                chead == eviews.take(chead.len() as int),
                eviews == chead + spec_completed_submenus(spec_completed(gv.take(j as int))),
                entries@.len() == eviews.len(),
                forall|k: int| 0 <= k < entries@.len() ==> entries@[k]@ == eviews[k],
            decreases n - j,
        {
            proof {
                lemma_partition_take_step(gv, j as int);
                assert(gv[j as int] == goals@[j as int]@);
            }
            let g = &goals[j];
            if g.completed {
                let e = completed_submenu_item(g);
                entries.push(e);
                proof {
                    lemma_completed_submenus_push(spec_completed(gv.take(j as int)), gv[j as int]);
                    eviews = eviews.push(spec_completed_submenu(gv[j as int]));
                    assert(eviews =~= chead + spec_completed_submenus(
                        spec_completed(gv.take(j as int + 1)),
                    ));
                    assert(chead == eviews.take(chead.len() as int));
                    assert(forall|k: int| 0 <= k < entries@.len() ==> entries@[k]@ == eviews[k]);
                }
            }
            j += 1;
        }
        proof {
            assert(gv.take(n as int) =~= gv);
            assert(eviews =~= psec + spec_completed_section(gv));
        }
    } else {
        proof {
            assert(spec_completed_section(gv) =~= Seq::empty());
            assert(eviews =~= psec + spec_completed_section(gv));
        }
    }
    let ghost body = eviews;
    entries.push(MenuEntry::Separator);
    proof {
        eviews = eviews.push(MenuEntryView::Separator);
        assert(forall|k: int| 0 <= k < entries@.len() ==> entries@[k]@ == eviews[k]);
    }
    let e2 = MenuEntry::Item(
        MenuLeaf {
            ident: String::from_str("add_goal"),
            label: String::from_str("➕ Nova meta"),
            enabled: true,
        },
    );
    entries.push(e2);
    proof {
        eviews = eviews.push(
            MenuEntryView::Item(
                MenuLeafView { ident: "add_goal"@, label: "➕ Nova meta"@, enabled: true },
            ),
        );
        assert(forall|k: int| 0 <= k < entries@.len() ==> entries@[k]@ == eviews[k]);
    }
    let e3 = MenuEntry::Item(
        MenuLeaf {
            ident: String::from_str("show"),
            label: String::from_str("🔧 Gerenciar Metas"),
            enabled: true,
        },
    );
    entries.push(e3);
    proof {
        eviews = eviews.push(
            MenuEntryView::Item(
                MenuLeafView { ident: "show"@, label: "🔧 Gerenciar Metas"@, enabled: true },
            ),
        );
        assert(forall|k: int| 0 <= k < entries@.len() ==> entries@[k]@ == eviews[k]);
    }
    entries.push(MenuEntry::Separator);
    proof {
        eviews = eviews.push(MenuEntryView::Separator);
        assert(forall|k: int| 0 <= k < entries@.len() ==> entries@[k]@ == eviews[k]);
    }
    let e4 = MenuEntry::Item(
        MenuLeaf { ident: String::from_str("quit"), label: String::from_str("Sair"), enabled: true },
    );
    entries.push(e4);
    proof {
        eviews = eviews.push(
            MenuEntryView::Item(MenuLeafView { ident: "quit"@, label: "Sair"@, enabled: true }),
        );
        assert(forall|k: int| 0 <= k < entries@.len() ==> entries@[k]@ == eviews[k]);
        assert(eviews =~= body + spec_trailing());
        assert(eviews =~= spec_build_menu(gv));
    }
    let menu = Menu { entries };
    proof {
        assert(menu@ =~= eviews);
    }
    menu
}

} // verus!
