use cardos::control::{control_step, ControlStep};
use cardos::hotkeys::{action_from_keys, menu_action_for, Key, SystemAction};
use cardos::menu::{build_menu_items, display_name, menu_path_display, DirEntryInfo, MenuAction,
    MenuItem, MenuState};
use cardos::storage::{list_files_with_extension, SdFileEntry};

fn entry(name: &str, is_dir: bool) -> DirEntryInfo {
    DirEntryInfo { name: name.to_string(), is_dir }
}

fn five_item_menu() -> MenuState {
    let mut m = MenuState::new("/sdcard".to_string(), "/sdcard".to_string());
    let listing = vec![
        entry("a.bin", false),
        entry("b.bin", false),
        entry("c.bin", false),
        entry("d.bin", false),
        entry("e.bin", false),
    ];
    m.refresh(&listing);
    assert_eq!(m.items.len(), 5);
    m
}

#[test]
fn move_up_wraps_at_top() {
    let mut m = five_item_menu();
    assert_eq!(m.selected, 0);
    m.move_up();
    assert_eq!(m.selected, 4);
    m.move_up();
    assert_eq!(m.selected, 3);
}

#[test]
fn move_down_wraps_at_bottom() {
    let mut m = five_item_menu();
    for expected in [1, 2, 3, 4, 0, 1] {
        m.move_down();
        assert_eq!(m.selected, expected);
    }
}

#[test]
fn moves_on_empty_menu_do_nothing() {
    let mut m = MenuState::new("/sdcard".to_string(), "/sdcard".to_string());
    m.move_up();
    assert_eq!(m.selected, 0);
    m.move_down();
    assert_eq!(m.selected, 0);
    assert!(m.selected_item().is_none());
}

#[test]
fn refresh_orders_back_dirs_apps_case_insensitively() {
    let mut m = MenuState::new("/sdcard".to_string(), "/sdcard/apps".to_string());
    let listing = vec![entry("beta", true), entry("Zeta", true), entry("alpha.bin", false)];
    m.refresh(&listing);
    assert_eq!(m.items.len(), 4);
    assert!(matches!(m.items[0], MenuItem::Back));
    match &m.items[1] {
        MenuItem::Dir(p) => assert_eq!(p, "/sdcard/apps/beta"),
        other => panic!("expected dir, got {:?}", other),
    }
    match &m.items[2] {
        MenuItem::Dir(p) => assert_eq!(p, "/sdcard/apps/Zeta"),
        other => panic!("expected dir, got {:?}", other),
    }
    match &m.items[3] {
        MenuItem::App(p) => assert_eq!(p, "/sdcard/apps/alpha.bin"),
        other => panic!("expected app, got {:?}", other),
    }
}

#[test]
fn refresh_filters_hidden_and_foreign_files() {
    let mut m = MenuState::new("/sdcard".to_string(), "/sdcard".to_string());
    let listing = vec![
        entry(".hidden", true),
        entry(".secret.bin", false),
        entry("notes.txt", false),
        entry("APP.BIN", false),
        entry("tool.bin", false),
    ];
    m.refresh(&listing);
    assert_eq!(m.items.len(), 2);
    assert!(m.items.iter().all(|i| !matches!(i, MenuItem::Back)));
    match &m.items[0] {
        MenuItem::App(p) => assert_eq!(p, "/sdcard/APP.BIN"),
        other => panic!("expected app, got {:?}", other),
    }
    match &m.items[1] {
        MenuItem::App(p) => assert_eq!(p, "/sdcard/tool.bin"),
        other => panic!("expected app, got {:?}", other),
    }
}

#[test]
fn refresh_clamps_selection() {
    let mut m = five_item_menu();
    m.selected = 4;
    let listing = vec![entry("a.bin", false), entry("b.bin", false)];
    m.refresh(&listing);
    assert_eq!(m.items.len(), 2);
    assert_eq!(m.selected, 1);
    m.refresh(&Vec::new());
    assert_eq!(m.items.len(), 0);
    assert_eq!(m.selected, 0);
}

#[test]
fn build_menu_items_at_root_has_no_back() {
    let items = build_menu_items(&vec![entry("x", true)], true, "/sdcard");
    assert_eq!(items.len(), 1);
    assert!(matches!(items[0], MenuItem::Dir(_)));
}

#[test]
fn go_back_stops_at_root() {
    let mut m = MenuState::new("/sdcard".to_string(), "/sdcard/apps/games".to_string());
    assert!(m.go_back());
    assert_eq!(m.current, "/sdcard/apps");
    assert!(m.go_back());
    assert_eq!(m.current, "/sdcard");
    assert!(!m.go_back());
    assert_eq!(m.current, "/sdcard");
}

#[test]
fn enter_dir_resets_selection() {
    let mut m = five_item_menu();
    m.move_down();
    assert_eq!(m.selected, 1);
    m.enter_dir("/sdcard/apps".to_string());
    assert_eq!(m.current, "/sdcard/apps");
    assert_eq!(m.selected, 0);
}

#[test]
fn selected_item_returns_entry_under_cursor() {
    let mut m = five_item_menu();
    m.move_down();
    match m.selected_item() {
        Some(MenuItem::App(p)) => assert_eq!(p, "/sdcard/b.bin"),
        other => panic!("unexpected selection {:?}", other),
    }
}

#[test]
fn display_names_follow_entry_kind() {
    assert_eq!(display_name(&MenuItem::Back), "..");
    assert_eq!(display_name(&MenuItem::Dir("/sdcard/apps".to_string())), "[apps]");
    assert_eq!(display_name(&MenuItem::App("/sdcard/apps/demo.bin".to_string())), "demo.bin");
}

#[test]
fn path_display_strips_root() {
    let m = MenuState::new("/sdcard".to_string(), "/sdcard".to_string());
    assert_eq!(menu_path_display(&m), "/");
    let m2 = MenuState::new("/sdcard".to_string(), "/sdcard/apps".to_string());
    assert_eq!(menu_path_display(&m2), "/apps");
}

#[test]
fn escape_combo_needs_both_keys() {
    assert_eq!(
        action_from_keys(&vec![Key::Ctrl, Key::Backspace]),
        Some(SystemAction::ReturnToOs)
    );
    assert_eq!(
        action_from_keys(&vec![Key::W, Key::Ctrl, Key::Other, Key::Backspace]),
        Some(SystemAction::ReturnToOs)
    );
    assert_eq!(action_from_keys(&vec![Key::Ctrl]), None);
    assert_eq!(action_from_keys(&vec![Key::Backspace]), None);
    assert_eq!(action_from_keys(&Vec::new()), None);
}

#[test]
fn menu_actions_map_per_key() {
    assert_eq!(menu_action_for(Key::Semicolon), Some(MenuAction::Up));
    assert_eq!(menu_action_for(Key::W), Some(MenuAction::Up));
    assert_eq!(menu_action_for(Key::Period), Some(MenuAction::Down));
    assert_eq!(menu_action_for(Key::S), Some(MenuAction::Down));
    assert_eq!(menu_action_for(Key::Enter), Some(MenuAction::Select));
    assert_eq!(menu_action_for(Key::Backspace), Some(MenuAction::Back));
    assert_eq!(menu_action_for(Key::Slash), Some(MenuAction::Back));
    assert_eq!(menu_action_for(Key::Tab), Some(MenuAction::Refresh));
    assert_eq!(menu_action_for(Key::Fn), Some(MenuAction::Refresh));
    assert_eq!(menu_action_for(Key::Ctrl), None);
    assert_eq!(menu_action_for(Key::Other), None);
}

#[test]
fn control_steps_follow_the_decision_table() {
    let dir = MenuItem::Dir("/sdcard/apps".to_string());
    let app = MenuItem::App("/sdcard/apps/demo.bin".to_string());
    assert!(matches!(control_step(None, Some(&app)), ControlStep::Idle));
    assert!(matches!(control_step(Some(MenuAction::Up), None), ControlStep::MoveUp));
    assert!(matches!(control_step(Some(MenuAction::Down), Some(&dir)), ControlStep::MoveDown));
    assert!(matches!(
        control_step(Some(MenuAction::Refresh), None),
        ControlStep::RefreshListing
    ));
    assert!(matches!(control_step(Some(MenuAction::Back), Some(&app)), ControlStep::NavigateBack));
    assert!(matches!(
        control_step(Some(MenuAction::Select), Some(&MenuItem::Back)),
        ControlStep::NavigateBack
    ));
    match control_step(Some(MenuAction::Select), Some(&dir)) {
        ControlStep::EnterDirectory(p) => assert_eq!(p, "/sdcard/apps"),
        other => panic!("unexpected step {:?}", other),
    }
    match control_step(Some(MenuAction::Select), Some(&app)) {
        ControlStep::LaunchApp(p) => assert_eq!(p, "/sdcard/apps/demo.bin"),
        other => panic!("unexpected step {:?}", other),
    }
    assert!(matches!(control_step(Some(MenuAction::Select), None), ControlStep::Idle));
}

#[test]
fn extension_listing_filters_and_sorts() {
    let listing = vec![
        SdFileEntry { name: "B.STL".to_string(), path: "/sdcard/3d/B.STL".to_string() },
        SdFileEntry { name: "a.stl".to_string(), path: "/sdcard/3d/a.stl".to_string() },
        SdFileEntry { name: "c.txt".to_string(), path: "/sdcard/3d/c.txt".to_string() },
    ];
    let kept = list_files_with_extension(listing, ".stl");
    assert_eq!(kept.len(), 2);
    assert_eq!(kept[0].name, "a.stl");
    assert_eq!(kept[1].name, "B.STL");
    assert_eq!(kept[1].path, "/sdcard/3d/B.STL");
}
