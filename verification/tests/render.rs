use cardos::launch::{AppContext, AppLaunch, AppValidationError};
use cardos::menu::{DirEntryInfo, MenuState};
use cardos::status::{format_hms, BatteryGauge, StatusProvider, WifiMode, WifiState};
use cardos::swapchain::FrameSwapchain;
use cardos::textfmt::{fmt_i32, fmt_two_digits, fmt_u64};
use cardos::ui::{
    draw_selectable_list, render_menu, render_progress_bar, render_status, window_start, Color,
    DrawCmd, FlashProgress, MAX_VISIBLE_ROWS,
};

#[test]
fn decimal_rendering_is_exact() {
    assert_eq!(fmt_u64(0), "0");
    assert_eq!(fmt_u64(7), "7");
    assert_eq!(fmt_u64(10), "10");
    assert_eq!(fmt_u64(2_000_000), "2000000");
    assert_eq!(fmt_u64(u64::MAX), "18446744073709551615");
    assert_eq!(fmt_i32(0), "0");
    assert_eq!(fmt_i32(-5), "-5");
    assert_eq!(fmt_i32(i32::MIN), "-2147483648");
    assert_eq!(fmt_i32(i32::MAX), "2147483647");
    assert_eq!(fmt_two_digits(0), "00");
    assert_eq!(fmt_two_digits(7), "07");
    assert_eq!(fmt_two_digits(59), "59");
}

#[test]
fn clock_text_is_zero_padded_and_wraps() {
    assert_eq!(format_hms(0), "00:00:00");
    assert_eq!(format_hms(3661), "01:01:01");
    assert_eq!(format_hms(86399), "23:59:59");
    assert_eq!(format_hms(86400 + 3), "00:00:03");
}

#[test]
fn status_snapshot_composes_all_three_texts() {
    let wifi = WifiState {
        mode: WifiMode::AccessPoint,
        ssid: "CardNet".to_string(),
        ip: Some("192.168.4.1".to_string()),
    };
    let provider = StatusProvider::new(Some(wifi), BatteryGauge::new());
    let snap = provider.snapshot(3661);
    assert_eq!(snap.clock_text, "01:01:01");
    assert_eq!(snap.wifi_text, "AP CardNet @ 192.168.4.1");
    assert_eq!(snap.battery_text, "Batt 100%");
}

#[test]
fn wifi_text_covers_station_and_offline() {
    let station = StatusProvider::new(
        Some(WifiState { mode: WifiMode::Station, ssid: "home".to_string(), ip: None }),
        BatteryGauge::new(),
    );
    assert_eq!(station.wifi_text(), "WiFi home @ ...");
    let offline = StatusProvider::new(None, BatteryGauge::new());
    assert_eq!(offline.wifi_text(), "WiFi offline");
}

#[test]
fn launch_validation_gates_on_hardware() {
    let launch = AppLaunch::from_path("/sdcard/apps/a.bin".to_string());
    assert!(AppContext::new(true, true).validate_launch(&launch).is_ok());
    assert!(matches!(
        AppContext::new(false, true).validate_launch(&launch),
        Err(AppValidationError::MissingSd)
    ));
    assert!(matches!(
        AppContext::new(false, false).validate_launch(&launch),
        Err(AppValidationError::MissingSd)
    ));
    assert!(matches!(
        AppContext::new(true, false).validate_launch(&launch),
        Err(AppValidationError::MissingOta)
    ));
    assert_eq!(
        AppValidationError::MissingSd.to_lines(),
        vec!["SD card not mounted.".to_string(), "Insert card and reboot.".to_string()]
    );
    assert_eq!(
        AppValidationError::MissingOta.to_lines(),
        vec!["No OTA partitions found.".to_string(), "Update partitions.csv and rebuild.".to_string()]
    );
}

#[test]
fn window_keeps_selection_visible() {
    assert_eq!(window_start(0, 20, MAX_VISIBLE_ROWS), 0);
    assert_eq!(window_start(3, 20, MAX_VISIBLE_ROWS), 0);
    assert_eq!(window_start(10, 20, MAX_VISIBLE_ROWS), 6);
    assert_eq!(window_start(19, 20, MAX_VISIBLE_ROWS), 12);
    assert_eq!(window_start(2, 5, MAX_VISIBLE_ROWS), 0);
}

#[test]
fn empty_list_renders_marker() {
    let cmds = draw_selectable_list(&Vec::new(), 0);
    assert_eq!(cmds.len(), 1);
    match &cmds[0] {
        DrawCmd::Text { content, .. } => assert_eq!(content, "(empty)"),
        other => panic!("unexpected command {:?}", other),
    }
}

#[test]
fn list_rows_prefix_and_highlight_selection() {
    let mut m = MenuState::new("/sd".to_string(), "/sd".to_string());
    let listing = vec![
        DirEntryInfo { name: "a.bin".to_string(), is_dir: false },
        DirEntryInfo { name: "b.bin".to_string(), is_dir: false },
    ];
    m.refresh(&listing);
    m.move_down();
    let cmds = draw_selectable_list(&m.items, m.selected);
    assert_eq!(cmds.len(), 2);
    match &cmds[0] {
        DrawCmd::Text { y, color, content, .. } => {
            assert_eq!(*y, 48);
            assert_eq!(*color, Color::White);
            assert_eq!(content, "  a.bin");
        },
        other => panic!("unexpected command {:?}", other),
    }
    match &cmds[1] {
        DrawCmd::Text { y, color, content, .. } => {
            assert_eq!(*y, 60);
            assert_eq!(*color, Color::Yellow);
            assert_eq!(content, "> b.bin");
        },
        other => panic!("unexpected command {:?}", other),
    }
}

#[test]
fn menu_screen_has_title_breadcrumb_and_footer() {
    let mut m = MenuState::new("/sdcard".to_string(), "/sdcard/apps".to_string());
    m.refresh(&vec![DirEntryInfo { name: "demo.bin".to_string(), is_dir: false }]);
    let context = AppContext::new(true, true);
    let provider = StatusProvider::new(None, BatteryGauge::new());
    let snap = provider.snapshot(0);
    let cmds = render_menu(&m, &context, &snap);
    assert!(matches!(cmds[0], DrawCmd::Clear));
    match &cmds[1] {
        DrawCmd::Text { content, .. } => assert_eq!(content, "Cardputer RustOS"),
        other => panic!("unexpected command {:?}", other),
    }
    match &cmds[5] {
        DrawCmd::Text { content, y, .. } => {
            assert_eq!(content, "/apps");
            assert_eq!(*y, 22);
        },
        other => panic!("unexpected command {:?}", other),
    }
    match cmds.last().unwrap() {
        DrawCmd::Text { content, y, .. } => {
            assert_eq!(content, "Up/Down: ;/.  Enter: load  Back: Backspace");
            assert_eq!(*y, 131);
        },
        other => panic!("unexpected command {:?}", other),
    }
}

#[test]
fn menu_footer_reports_missing_hardware() {
    let m = MenuState::new("/sdcard".to_string(), "/sdcard".to_string());
    let provider = StatusProvider::new(None, BatteryGauge::new());
    let snap = provider.snapshot(0);
    let no_sd = render_menu(&m, &AppContext::new(false, true), &snap);
    match no_sd.last().unwrap() {
        DrawCmd::Text { content, .. } => assert_eq!(content, "SD not mounted"),
        other => panic!("unexpected command {:?}", other),
    }
    let no_ota = render_menu(&m, &AppContext::new(true, false), &snap);
    match no_ota.last().unwrap() {
        DrawCmd::Text { content, .. } => assert_eq!(content, "OTA partitions missing"),
        other => panic!("unexpected command {:?}", other),
    }
}

#[test]
fn progress_bar_fills_proportionally() {
    let cmds = render_progress_bar(FlashProgress { written: 50, total: Some(200) });
    assert_eq!(cmds.len(), 3);
    assert!(matches!(cmds[0], DrawCmd::RectOutline { x: 20, y: 90, width: 180, height: 10, .. }));
    match &cmds[1] {
        DrawCmd::RectFill { x, y, width, height, .. } => {
            assert_eq!((*x, *y), (21, 91));
            // 25% of the 178-pixel interior
            assert_eq!(*width, 44);
            assert_eq!(*height, 8);
        },
        other => panic!("unexpected command {:?}", other),
    }
    match &cmds[2] {
        DrawCmd::Text { content, x, .. } => {
            assert_eq!(content, "25%");
            assert_eq!(*x, 206);
        },
        other => panic!("unexpected command {:?}", other),
    }
}

#[test]
fn progress_bar_without_total_is_outline_only() {
    let cmds = render_progress_bar(FlashProgress { written: 50, total: None });
    assert_eq!(cmds.len(), 1);
    assert!(matches!(cmds[0], DrawCmd::RectOutline { .. }));
    let zero_total = render_progress_bar(FlashProgress { written: 0, total: Some(0) });
    assert_eq!(zero_total.len(), 1);
    let zero_fill = render_progress_bar(FlashProgress { written: 0, total: Some(100) });
    assert_eq!(zero_fill.len(), 2);
    assert!(matches!(&zero_fill[1], DrawCmd::Text { .. }));
}

#[test]
fn status_screen_lays_out_lines_and_bar() {
    let lines = vec!["demo.bin".to_string(), "please wait".to_string()];
    let cmds = render_status("Flashing", &lines, Some(FlashProgress { written: 0, total: None }));
    assert!(matches!(cmds[0], DrawCmd::Clear));
    match &cmds[1] {
        DrawCmd::Text { content, y, .. } => {
            assert_eq!(content, "Flashing");
            assert_eq!(*y, 10);
        },
        other => panic!("unexpected command {:?}", other),
    }
    match &cmds[2] {
        DrawCmd::Text { content, y, .. } => {
            assert_eq!(content, "demo.bin");
            assert_eq!(*y, 28);
        },
        other => panic!("unexpected command {:?}", other),
    }
    match &cmds[3] {
        DrawCmd::Text { content, y, .. } => {
            assert_eq!(content, "please wait");
            assert_eq!(*y, 40);
        },
        other => panic!("unexpected command {:?}", other),
    }
    assert!(matches!(cmds[4], DrawCmd::RectOutline { .. }));
    assert_eq!(cmds.len(), 5);
}

#[test]
fn swapchain_handoff_never_overlaps() {
    let mut chain = FrameSwapchain::new();
    assert_eq!(chain.front, false);
    // the producer draws into the back slot while nothing is in flight
    let drawing = chain.acquire_back_buffer();
    assert_eq!(drawing, true);
    chain.submit();
    assert_eq!(chain.front, true);
    assert!(chain.pending);
    // the presenter picks the frame up; the producer draws the other slot
    let transferring = chain.presenter_take();
    assert_eq!(transferring, true);
    let drawing2 = chain.acquire_back_buffer();
    assert_eq!(drawing2, false);
    assert_ne!(drawing2, transferring);
    assert_eq!(chain.writer, Some(false));
    assert_eq!(chain.transferring, Some(true));
    // the transfer finishes before the next submit may proceed
    chain.presenter_done();
    assert_eq!(chain.transferring, None);
    chain.submit();
    assert_eq!(chain.front, false);
}
