use raxis::dragdrop::{
    accepts_format, allowed_drop_effects, serves_format, DropSource, FormatRequest, TextDataObject,
    DRAGDROP_S_CANCEL, DRAGDROP_S_DROP, DRAGDROP_S_USEDEFAULTCURSORS, S_OK,
};
use raxis::dragdrop::{drag_leave_needed, drop_target_call, DragStage, DropTargetCall};
use raxis::focus::{FocusManager, FocusTarget};
use raxis::input::{Rect, TitlebarHitRegions};
use raxis::menu::{
    menu_command_id, menu_item_flags, menu_label_wide, popup_menu_flags, selected_item,
    ContextMenu, ContextMenuItem, ContextMenuItemExt,
};
use raxis::model::{
    system_backdrop_type, uses_blur_behind, Backdrop, FontIdentifier, DWMSBT_MAINWINDOW,
    DWMSBT_NONE, DWMSBT_TABBEDWINDOW, DWMSBT_TRANSIENTWINDOW,
};
use raxis::runtime::focus::FocusManager as RuntimeFocusManager;
use raxis::titlebar::{
    clear_titlebar_hit_regions, get_titlebar_hit_regions, set_titlebar_hit_regions,
    TitlebarHitRegionMap,
};
use raxis::tray::{notify_icon_flags, tooltip_units, TrayEvent, TrayIcon, TrayIconConfig};

#[test]
fn menu_items_and_their_flags() {
    let (msg, item) = ContextMenuItem::new(5u8, "Open");
    assert_eq!(msg, Some(5));
    assert_eq!(menu_item_flags(&item), 0x0000);
    assert_eq!(menu_item_flags(&item.clone().checked()), 0x0008);
    assert_eq!(menu_item_flags(&item.clone().disabled()), 0x0003);
    assert_eq!(menu_item_flags(&item.clone().disabled().with_checked(true)), 0x000B);
    assert_eq!(menu_item_flags(&item.clone().with_enabled(false).with_enabled(true)), 0x0000);
    let (none, sep) = ContextMenuItem::separator::<u8>();
    assert_eq!(none, None);
    assert_eq!(menu_item_flags(&sep), 0x0800);
    assert_eq!(menu_label_wide(&item), vec![79, 112, 101, 110, 0]);
    let menu = ContextMenu::new(vec![item, sep]);
    assert_eq!(menu.items.len(), 2);
}

#[test]
fn paired_items_keep_their_message() {
    let (msg, item) = ContextMenuItem::new("quit", "Quit").disabled().checked();
    assert_eq!(msg, Some("quit"));
    assert!(!item.enabled && item.checked);
    let (_, item) = ContextMenuItem::new(1, "x").with_checked(true).with_enabled(false);
    assert!(!item.enabled && item.checked);
}

#[test]
fn menu_commands_number_items_from_one() {
    assert_eq!(menu_command_id(0), 1);
    assert_eq!(selected_item(1, 3), Some(0));
    assert_eq!(selected_item(3, 3), Some(2));
    assert_eq!(selected_item(4, 3), None);
    assert_eq!(selected_item(0, 3), None);
    assert_eq!(selected_item(-2, 3), None);
    for i in 0..5usize {
        assert_eq!(selected_item(menu_command_id(i) as i32, 5), Some(i));
    }
    assert_eq!(popup_menu_flags(false), 0x0100);
    assert_eq!(popup_menu_flags(true), 0x0108);
}

#[test]
fn drag_source_policy() {
    let s = DropSource::new();
    assert_eq!(s.query_continue_drag(true, 1), DRAGDROP_S_CANCEL);
    assert_eq!(s.query_continue_drag(false, 0), DRAGDROP_S_DROP);
    assert_eq!(s.query_continue_drag(false, 1), S_OK);
    assert_eq!(s.query_continue_drag(false, 0x10), DRAGDROP_S_DROP);
    assert_eq!(s.give_feedback(1), DRAGDROP_S_USEDEFAULTCURSORS);
    assert_eq!(allowed_drop_effects(true), 3);
    assert_eq!(allowed_drop_effects(false), 1);
}

#[test]
fn text_formats() {
    let good = FormatRequest { cf_format: 13, tymed: 1, aspect: 1, lindex: -1 };
    assert!(serves_format(&good) && accepts_format(&good));
    let many_media = FormatRequest { tymed: 5, ..good };
    assert!(!serves_format(&many_media) && accepts_format(&many_media));
    let ansi = FormatRequest { cf_format: 1, ..good };
    assert!(!serves_format(&ansi) && !accepts_format(&ansi));
    let part = FormatRequest { lindex: 0, ..good };
    assert!(!accepts_format(&part));
    let data = TextDataObject::new("hé");
    assert_eq!(data.text_w, vec![0x68, 0xE9, 0]);
    assert_eq!(data.byte_len(), 6);
}

#[test]
fn tray_icon_state() {
    let config = TrayIconConfig::new().with_tooltip("Raxis").with_icon_resource(7);
    assert_eq!(config.icon_resource, Some(7));
    let mut icon = TrayIcon::new(42, config);
    assert_eq!(icon.hwnd(), 42);
    assert!(!icon.added() && icon.needs_add() && !icon.needs_remove());
    icon.mark_added();
    assert!(icon.added() && !icon.needs_add() && icon.needs_remove());
    assert!(icon.update_config(TrayIconConfig::new()));
    assert_eq!(icon.config().tooltip, None);
    icon.mark_removed();
    assert!(!icon.update_config(TrayIconConfig::new().with_tooltip("t")));
    assert_eq!(icon.config().tooltip.as_deref(), Some("t"));
}

#[test]
fn tray_messages_and_flags() {
    assert_eq!(TrayIcon::parse_message(0x0202), Some(TrayEvent::LeftClick));
    assert_eq!(TrayIcon::parse_message(0x0203), Some(TrayEvent::LeftDoubleClick));
    assert_eq!(TrayIcon::parse_message(0x0205), Some(TrayEvent::RightClick));
    assert_eq!(TrayIcon::parse_message(0x0201), None);
    assert_eq!(TrayIcon::parse_message(0x1_0000_0202), Some(TrayEvent::LeftClick));
    assert_eq!(notify_icon_flags(false, false), 1);
    assert_eq!(notify_icon_flags(true, false), 3);
    assert_eq!(notify_icon_flags(false, true), 5);
    assert_eq!(notify_icon_flags(true, true), 7);
}

#[test]
fn tooltips_are_cut_to_the_capacity() {
    assert_eq!(tooltip_units("ab"), vec![97, 98, 0]);
    let long = "x".repeat(200);
    let units = tooltip_units(&long);
    assert_eq!(units.len(), 128);
    assert!(units.iter().all(|&u| u == 120));
    let exact = "y".repeat(127);
    let units = tooltip_units(&exact);
    assert_eq!(units.len(), 128);
    assert_eq!(units[127], 0);
}

#[test]
fn titlebar_regions_read_back() {
    let mut map = TitlebarHitRegionMap::new();
    let regions = TitlebarHitRegions {
        minimize: Some(Rect { left: 0, top: 0, right: 10, bottom: 10 }),
        maximize: None,
        close: None,
    };
    assert_eq!(get_titlebar_hit_regions(&map, 1), None);
    set_titlebar_hit_regions(&mut map, 1, regions);
    assert_eq!(get_titlebar_hit_regions(&map, 1), Some(regions));
    assert_eq!(get_titlebar_hit_regions(&map, 2), None);
    clear_titlebar_hit_regions(&mut map, 1);
    assert_eq!(get_titlebar_hit_regions(&map, 1), None);
}

#[test]
fn titlebar_regions_survive_changes_to_other_windows() {
    let mut map = TitlebarHitRegionMap::new();
    let regions = TitlebarHitRegions {
        minimize: None,
        maximize: Some(Rect { left: 5, top: 0, right: 15, bottom: 8 }),
        close: Some(Rect { left: 15, top: 0, right: 25, bottom: 8 }),
    };
    let other = TitlebarHitRegions { minimize: None, maximize: None, close: None };
    set_titlebar_hit_regions(&mut map, 7, regions);
    set_titlebar_hit_regions(&mut map, 8, other);
    clear_titlebar_hit_regions(&mut map, 9);
    clear_titlebar_hit_regions(&mut map, 8);
    set_titlebar_hit_regions(&mut map, 3, other);
    assert_eq!(get_titlebar_hit_regions(&map, 7), Some(regions));
    assert_eq!(get_titlebar_hit_regions(&map, 3), Some(other));
    assert_eq!(get_titlebar_hit_regions(&map, 8), None);
}

#[test]
fn focus_by_id_or_key() {
    let mut f = FocusManager::new();
    assert!(!f.is_focused(Some(1), 10));
    f.focus(Some(1), 10);
    assert!(f.is_focused(Some(1), 99));
    assert!(!f.is_focused(None, 10));
    f.release_focus(Some(2), 10);
    assert!(f.is_focused(Some(1), 10));
    f.release_focus(Some(1), 0);
    assert!(!f.is_focused(Some(1), 10));
    f.focus(None, 10);
    assert!(f.is_focused(None, 10) && f.is_focused(Some(3), 10));
    let _ = FocusTarget::ByKey(10);

    let mut r = RuntimeFocusManager::new();
    r.focus(4);
    assert!(r.is_focused(4) && !r.is_focused(5));
    r.release_focus(5);
    assert!(r.is_focused(4));
    r.release_focus(4);
    assert!(!r.is_focused(4));
}

#[test]
fn backdrops() {
    assert_eq!(system_backdrop_type(Backdrop::NoBackdrop), DWMSBT_NONE);
    assert_eq!(system_backdrop_type(Backdrop::Mica), DWMSBT_MAINWINDOW);
    assert_eq!(system_backdrop_type(Backdrop::MicaAlt), DWMSBT_TABBEDWINDOW);
    assert_eq!(system_backdrop_type(Backdrop::Acrylic), DWMSBT_TRANSIENTWINDOW);
    assert!(uses_blur_behind(true, Backdrop::Mica));
    assert!(!uses_blur_behind(false, Backdrop::Mica));
    assert!(!uses_blur_behind(true, Backdrop::NoBackdrop));
}

#[test]
fn font_identifiers() {
    assert_eq!(FontIdentifier::system("Segoe UI").family_name(), "Segoe UI");
    assert_eq!(FontIdentifier::custom("Inter").family_name(), "Inter");
    assert_eq!(FontIdentifier::from("Arial".to_string()).family_name(), "Arial");
}

#[test]
fn drag_routing() {
    assert!(drag_leave_needed(DragStage::Over, Some(1), Some(2)));
    assert!(drag_leave_needed(DragStage::Over, Some(1), None));
    assert!(!drag_leave_needed(DragStage::Over, Some(1), Some(1)));
    assert!(!drag_leave_needed(DragStage::Over, None, Some(1)));
    assert!(!drag_leave_needed(DragStage::Drop, Some(1), Some(2)));
    assert_eq!(drop_target_call(DragStage::Over, Some(3), 3), DropTargetCall::DragOver);
    assert_eq!(drop_target_call(DragStage::Over, Some(2), 3), DropTargetCall::DragEnter);
    assert_eq!(drop_target_call(DragStage::Over, None, 3), DropTargetCall::DragEnter);
    assert_eq!(drop_target_call(DragStage::Enter, Some(3), 3), DropTargetCall::DragEnter);
    assert_eq!(drop_target_call(DragStage::Drop, None, 3), DropTargetCall::Drop);
    assert_eq!(drop_target_call(DragStage::Leave, None, 3), DropTargetCall::DragLeave);
}
