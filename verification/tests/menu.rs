use tab_system::menu::EphemeralMenus;
use tab_system::menu::TabContextMenu;

type Anchor = (i32, i32);

#[test]
fn context_menu_shows_and_dismisses() {
    let mut menu: TabContextMenu<Anchor> = TabContextMenu::new();
    assert!(!menu.is_visible);
    menu.show_at((40, 80), 3);
    assert!(menu.is_visible);
    assert_eq!(menu.position, Some((40, 80)));
    assert_eq!(menu.target_tab, 3);
    menu.dismiss();
    assert!(!menu.is_visible);
    assert_eq!(menu.target_tab, 3);
}

#[test]
fn menus_are_never_both_visible() {
    let mut menus: EphemeralMenus<Anchor> = EphemeralMenus::new();
    menus.open_context_menu((5, 5), 1);
    assert!(menus.context_menu.is_visible);
    assert!(!menus.new_tab_dropdown_open);
    menus.toggle_new_tab_dropdown();
    assert!(menus.new_tab_dropdown_open);
    assert!(!menus.context_menu.is_visible);
    menus.open_context_menu((9, 9), 2);
    assert!(menus.context_menu.is_visible);
    assert!(!menus.new_tab_dropdown_open);
}

#[test]
fn dropdown_toggles_and_commits() {
    let mut menus: EphemeralMenus<Anchor> = EphemeralMenus::new();
    menus.toggle_new_tab_dropdown();
    assert!(menus.new_tab_dropdown_open);
    menus.toggle_new_tab_dropdown();
    assert!(!menus.new_tab_dropdown_open);
    menus.toggle_new_tab_dropdown();
    menus.close_new_tab_dropdown();
    assert!(!menus.new_tab_dropdown_open);
}

#[test]
fn outside_click_closes_both_menus() {
    let mut menus: EphemeralMenus<Anchor> = EphemeralMenus::new();
    menus.open_context_menu((1, 2), 7);
    menus.outside_click();
    assert!(!menus.context_menu.is_visible);
    assert!(!menus.new_tab_dropdown_open);
    menus.toggle_new_tab_dropdown();
    menus.outside_click();
    assert!(!menus.context_menu.is_visible);
    assert!(!menus.new_tab_dropdown_open);
}
