use goal_tray::goal::Goal;
use goal_tray::menu::Menu;
use goal_tray::menu::MenuEntry;
use goal_tray::menu::MenuLeaf;
use goal_tray::menu::build_menu;

fn goal(id: &str, title: &str, completed: bool, impediments: Option<&str>) -> Goal {
    Goal {
        id: id.to_string(),
        title: title.to_string(),
        completed,
        impediments: impediments.map(|s| s.to_string()),
    }
}

fn item(ident: &str, label: &str, enabled: bool) -> MenuEntry {
    MenuEntry::Item(MenuLeaf {
        ident: ident.to_string(),
        label: label.to_string(),
        enabled,
    })
}

fn leaf(ident: &str, label: &str) -> MenuLeaf {
    MenuLeaf {
        ident: ident.to_string(),
        label: label.to_string(),
        enabled: true,
    }
}

fn trailing() -> Vec<MenuEntry> {
    vec![
        MenuEntry::Separator,
        item("add_goal", "➕ Nova meta", true),
        item("show", "🔧 Gerenciar Metas", true),
        MenuEntry::Separator,
        item("quit", "Sair", true),
    ]
}

#[test]
fn empty_list_yields_only_the_trailing_block() {
    let menu = build_menu(&vec![]);
    assert_eq!(menu.entries, trailing());
}

#[test]
fn scenario_one_pending_one_completed() {
    let goals = vec![
        goal("a", "Write spec", false, None),
        goal("b", "Ship", true, None),
    ];
    let menu = build_menu(&goals);
    let mut expected = vec![
        item("pending_label", "📝 Pendentes", false),
        MenuEntry::Submenu {
            label: "Write spec".to_string(),
            children: vec![
                leaf("complete_a", "✓ Marcar como concluída"),
                leaf("add_impediment_a", "🚫 Adicionar impedimento"),
            ],
        },
        MenuEntry::Separator,
        item("completed_label", "✅ Concluídas", false),
        MenuEntry::Submenu {
            label: "✓ Ship".to_string(),
            children: vec![leaf("uncomplete_b", "↩️ Desfazer conclusão")],
        },
    ];
    expected.extend(trailing());
    assert_eq!(menu, Menu { entries: expected });
}

#[test]
fn blocked_goal_offers_remove_impediment_only() {
    let goals = vec![goal("a", "Write spec", false, Some("waiting on review"))];
    let menu = build_menu(&goals);
    match &menu.entries[1] {
        MenuEntry::Submenu { label, children } => {
            assert_eq!(label, "🚫 Write spec (Bloqueado: waiting on review)");
            assert_eq!(
                children,
                &vec![
                    leaf("complete_a", "✓ Marcar como concluída"),
                    leaf("remove_impediment_a", "🔓 Remover impedimento"),
                ]
            );
            assert!(children
                .iter()
                .all(|l| !l.ident.starts_with("add_impediment_")));
        }
        other => panic!("expected a submenu, got {:?}", other),
    }
}

#[test]
fn unblocked_goal_offers_add_impediment_only() {
    let goals = vec![goal("a", "Write spec", false, None)];
    let menu = build_menu(&goals);
    match &menu.entries[1] {
        MenuEntry::Submenu { label, children } => {
            assert_eq!(label, "Write spec");
            assert_eq!(children[1], leaf("add_impediment_a", "🚫 Adicionar impedimento"));
            assert!(children
                .iter()
                .all(|l| !l.ident.starts_with("remove_impediment_")));
        }
        other => panic!("expected a submenu, got {:?}", other),
    }
}

#[test]
fn partition_preserves_input_order_within_each_group() {
    let goals = vec![
        goal("p1", "First pending", false, None),
        goal("c1", "First done", true, None),
        goal("p2", "Second pending", false, None),
        goal("c2", "Second done", true, None),
        goal("p3", "Third pending", false, None),
    ];
    let menu = build_menu(&goals);
    let submenu_idents: Vec<String> = menu
        .entries
        .iter()
        .filter_map(|e| match e {
            MenuEntry::Submenu { children, .. } => Some(children[0].ident.clone()),
            _ => None,
        })
        .collect();
    assert_eq!(
        submenu_idents,
        vec![
            "complete_p1".to_string(),
            "complete_p2".to_string(),
            "complete_p3".to_string(),
            "uncomplete_c1".to_string(),
            "uncomplete_c2".to_string(),
        ]
    );
}

#[test]
fn only_completed_goals_means_no_leading_separator() {
    let goals = vec![goal("c1", "Done", true, None)];
    let menu = build_menu(&goals);
    assert_eq!(menu.entries[0], item("completed_label", "✅ Concluídas", false));
}

#[test]
fn only_pending_goals_means_no_completed_section() {
    let goals = vec![goal("p1", "Open", false, None)];
    let menu = build_menu(&goals);
    assert_eq!(menu.entries.len(), 2 + trailing().len());
    assert!(!menu
        .entries
        .iter()
        .any(|e| *e == item("completed_label", "✅ Concluídas", false)));
}

#[test]
fn section_labels_are_disabled() {
    let goals = vec![
        goal("p", "Open", false, None),
        goal("c", "Done", true, None),
    ];
    let menu = build_menu(&goals);
    for e in &menu.entries {
        if let MenuEntry::Item(l) = e {
            if l.ident == "pending_label" || l.ident == "completed_label" {
                assert!(!l.enabled);
            } else {
                assert!(l.enabled);
            }
        }
    }
}

#[test]
fn rebuilding_from_the_same_list_is_idempotent() {
    let goals = vec![
        goal("a", "Write spec", false, Some("blocked")),
        goal("b", "Ship", true, None),
        goal("c", "Review", false, None),
    ];
    let first = build_menu(&goals);
    let second = build_menu(&goals);
    assert_eq!(first, second);
}
