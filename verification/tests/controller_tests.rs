use usbip_device_manager::config::{SystemConfig, UsbDevice};
use usbip_device_manager::controller::{removal_needles, stale_needles, App, Effect, OpRequest};
use usbip_device_manager::model::{Action, Tab, ToastKind, UiMsg};
use usbip_device_manager::usbipd::Usbipd;

fn client() -> Usbipd {
    Usbipd {
        exe: "C:\\u\\usbipd.exe".to_owned(),
        version: "4.4".to_owned(),
        install_dir: "C:\\u".to_owned(),
    }
}

fn device(hw: &str, iid: &str) -> UsbDevice {
    UsbDevice {
        hardware_id: hw.to_owned(),
        instance_id: iid.to_owned(),
        description: format!("Device {hw}"),
        bus_id: "1-1".to_owned(),
        is_connected: true,
        ..Default::default()
    }
}

/// A window whose usbipd-win check passed and whose first state read came back.
fn ready_app(cfg: SystemConfig, devs: Vec<UsbDevice>, now: u64) -> App {
    let mut app = App::new(cfg, false, true);
    let mut fx = Vec::new();
    app.process_message(UiMsg::UsbipdReady(Ok((client(), None))), now, &mut fx);
    app.process_message(UiMsg::Lists(devs), now, &mut fx);
    app
}

#[test]
fn a_new_window_is_busy_until_usbipd_was_checked() {
    let app = App::new(SystemConfig::default(), true, true);
    assert!(app.is_busy());
    assert!(!app.is_initialized());
    assert!(app.is_zh());
    let mut cfg = SystemConfig::default();
    cfg.app_config.lang = "EN".to_owned();
    assert!(!App::new(cfg, true, true).is_zh());
}

#[test]
fn a_passed_check_starts_the_first_state_read() {
    let mut app = App::new(SystemConfig::default(), false, true);
    let mut fx = Vec::new();
    app.process_message(UiMsg::UsbipdReady(Ok((client(), Some("remote".to_owned())))), 10, &mut fx);
    assert!(matches!(fx.as_slice(), [Effect::Refresh]));
    assert!(app.is_busy());
    assert_eq!(app.toasts().len(), 1);
    assert_eq!(app.toasts()[0].kind, ToastKind::Info);
    assert_eq!(app.usbipd().unwrap().exe, "C:\\u\\usbipd.exe");

    let mut fx = Vec::new();
    app.process_message(UiMsg::Lists(vec![device("1111:2222", "USB\\A")]), 20, &mut fx);
    assert!(matches!(fx.as_slice(), [Effect::Repaint]));
    assert!(app.is_initialized() && !app.is_busy());
    assert_eq!(app.devices().len(), 1);
}

#[test]
fn a_failed_check_opens_a_message_box() {
    let mut app = App::new(SystemConfig::default(), false, true);
    let mut fx = Vec::new();
    app.process_message(UiMsg::UsbipdReady(Err("missing".to_owned())), 0, &mut fx);
    assert!(fx.is_empty());
    assert!(!app.is_busy());
    let d = app.dialog().as_ref().unwrap();
    assert_eq!(d.title, "usbipd-win check failed");
    assert_eq!(d.message, "missing");
}

#[test]
fn one_operation_runs_at_a_time() {
    let mut app = ready_app(SystemConfig::default(), vec![device("1111:2222", "USB\\A")], 0);
    let mut fx = Vec::new();
    let acts = vec![Action::Bind("1111:2222".to_owned()), Action::Detach("1111:2222".to_owned())];
    app.run_actions(acts, 100, "1.0", &mut fx);
    assert_eq!(fx.len(), 2);
    match &fx[0] {
        Effect::RunOp(OpRequest::Bind { dev, use_bus_id }) => {
            assert_eq!(dev.hardware_id, "1111:2222");
            assert!(!use_bus_id);
        },
        _ => panic!("expected a bind"),
    }
    assert!(matches!(&fx[1], Effect::SetTitle(t) if t == "USBIP Device Manager 1.0"));
    assert!(app.is_busy());

    // the title is set once
    let mut fx = Vec::new();
    app.run_actions(Vec::new(), 200, "1.0", &mut fx);
    assert!(fx.is_empty());
}

#[test]
fn a_finished_operation_reports_and_reads_again() {
    let mut app = ready_app(SystemConfig::default(), vec![device("1111:2222", "USB\\A")], 0);
    let mut fx = Vec::new();
    app.run_actions(vec![Action::Bind("1111:2222".to_owned())], 100, "1.0", &mut fx);
    let mut fx = Vec::new();
    app.process_message(UiMsg::OpDone { ok: true, message: "Bound.".to_owned() }, 200, &mut fx);
    assert!(matches!(fx.as_slice(), [Effect::Repaint]));
    assert!(!app.is_busy());
    assert_eq!(app.toasts().last().unwrap().kind, ToastKind::Success);
    let mut fx = Vec::new();
    app.tick(300, &mut fx);
    assert!(matches!(fx.as_slice(), [Effect::Refresh, Effect::RepaintAfter(120)]));

    let mut fx = Vec::new();
    app.process_message(UiMsg::OpDone { ok: false, message: "denied".to_owned() }, 400, &mut fx);
    assert_eq!(app.dialog().as_ref().unwrap().message, "denied");
}

#[test]
fn an_unchanged_read_is_quiet_and_a_change_gives_notices() {
    let devs = vec![device("1111:2222", "USB\\A"), device("3333:4444", "USB\\B")];
    let mut app = ready_app(SystemConfig::default(), devs, 0);
    let mut fx = Vec::new();
    let reordered = vec![device("3333:4444", "USB\\B"), device("1111:2222", "USB\\A")];
    app.process_message(UiMsg::Lists(reordered), 1000, &mut fx);
    assert!(fx.is_empty());
    assert!(app.toasts().is_empty());

    let mut fx = Vec::new();
    app.process_message(UiMsg::Lists(vec![device("3333:4444", "USB\\B")]), 2000, &mut fx);
    assert!(matches!(fx.as_slice(), [Effect::Repaint]));
    assert_eq!(app.toasts().len(), 1);
    assert_eq!(app.toasts()[0].expires, 7000);
    assert_eq!(app.devices().len(), 1);
}

#[test]
fn usb_signals_are_spaced_by_the_cooldown() {
    let mut app = ready_app(SystemConfig::default(), vec![device("1111:2222", "USB\\A")], 0);
    let mut fx = Vec::new();
    app.process_message(UiMsg::UsbActivity, 1000, &mut fx);
    assert!(matches!(fx.as_slice(), [Effect::RepaintAfter(120)]));
    let mut fx = Vec::new();
    app.tick(1100, &mut fx);
    assert!(matches!(fx.as_slice(), [Effect::Refresh, Effect::RepaintAfter(120)]));
    // the read shows nothing new: one of the extra reads is used up
    let mut fx = Vec::new();
    app.process_message(UiMsg::Lists(vec![device("1111:2222", "USB\\A")]), 1200, &mut fx);
    assert!(matches!(fx.as_slice(), [Effect::RepaintAfter(600)]));
    // a second signal inside the cool-down waits
    let mut fx = Vec::new();
    app.process_message(UiMsg::UsbActivity, 1300, &mut fx);
    let mut fx = Vec::new();
    app.flush_usb_activity(1400, &mut fx);
    assert!(matches!(fx.as_slice(), [Effect::RepaintAfter(900)]));
    let mut fx = Vec::new();
    app.flush_usb_activity(2100, &mut fx);
    assert!(matches!(fx.as_slice(), [Effect::Refresh]));
}

#[test]
fn auto_attach_waits_for_its_debounce() {
    let mut cfg = SystemConfig::default();
    cfg.add_to_auto_list(&device("1111:2222", "USB\\A"));
    let mut app = App::new(cfg, false, true);
    let mut fx = Vec::new();
    app.process_message(UiMsg::UsbipdReady(Ok((client(), None))), 0, &mut fx);
    let mut fx = Vec::new();
    app.process_message(UiMsg::Lists(vec![device("1111:2222", "USB\\A")]), 1000, &mut fx);
    assert_eq!(fx.len(), 3);
    assert!(matches!(&fx[0], Effect::StopStaleDaemons { id, hardware_id } if id == "1111:2222" && hardware_id == "1111:2222"));
    assert!(matches!(&fx[1], Effect::RunOp(OpRequest::Attach { auto: true, .. })));
    assert!(matches!(&fx[2], Effect::Repaint));

    let mut fx = Vec::new();
    app.process_message(UiMsg::OpDone { ok: false, message: String::new() }, 2000, &mut fx);
    // the device is still not attached; a read inside the debounce does not attach again
    let mut other = device("1111:2222", "USB\\A");
    other.is_bound = true;
    let mut fx = Vec::new();
    app.process_message(UiMsg::Lists(vec![other]), 3000, &mut fx);
    assert!(!fx.iter().any(|e| matches!(e, Effect::RunOp(_))));
    // once the debounce ran out, the retry asks for a read
    let mut fx = Vec::new();
    app.check_auto_retry(5000, &mut fx);
    assert!(matches!(fx.as_slice(), [Effect::RepaintAfter(4000)]));
    let mut fx = Vec::new();
    app.check_auto_retry(9000, &mut fx);
    assert!(matches!(fx.as_slice(), [Effect::Repaint]));
}

#[test]
fn the_watchdog_runs_three_rounds() {
    let mut cfg = SystemConfig::default();
    cfg.add_to_auto_list(&device("1111:2222", "USB\\A"));
    let mut app = App::new(cfg, false, true);
    let mut fx = Vec::new();
    app.process_message(UiMsg::UsbipdReady(Ok((client(), None))), 0, &mut fx);
    app.process_message(UiMsg::Lists(vec![device("1111:2222", "USB\\A")]), 1000, &mut fx);
    app.process_message(UiMsg::OpDone { ok: false, message: String::new() }, 1100, &mut fx);
    app.process_message(UiMsg::Lists(vec![device("1111:2222", "USB\\A")]), 1200, &mut fx);
    let mut attaches = 0;
    let mut now = 1300;
    for _ in 0..6 {
        let mut fx = Vec::new();
        app.watch_auto_attach(now, &mut fx);
        if fx.iter().any(|e| matches!(e, Effect::RunOp(_))) {
            attaches += 1;
            let mut done = Vec::new();
            app.process_message(UiMsg::OpDone { ok: false, message: String::new() }, now, &mut done);
        }
        now += 250;
    }
    assert_eq!(attaches, 3);
}

#[test]
fn closing_hides_to_the_tray_first() {
    let mut app = ready_app(SystemConfig::default(), Vec::new(), 0);
    let mut fx = Vec::new();
    app.on_close_requested(&mut fx);
    assert!(matches!(fx.as_slice(), [Effect::CancelClose, Effect::HideWindow]));
    assert!(app.is_hidden());
    let mut fx = Vec::new();
    app.process_message(UiMsg::ShowWindow, 5, &mut fx);
    assert!(matches!(fx.as_slice(), [Effect::ShowWindow, Effect::Repaint]));
    let mut fx = Vec::new();
    app.process_message(UiMsg::ExitApp, 6, &mut fx);
    assert!(matches!(fx.as_slice(), [Effect::CloseWindow]));
    assert!(app.is_exiting());
}

#[test]
fn hiding_and_marking_rows_updates_the_configuration() {
    let mut app = ready_app(SystemConfig::default(), vec![device("1111:2222", "USB\\A")], 0);
    let mut fx = Vec::new();
    app.run_action(Action::Hide("1111:2222".to_owned()), 10, &mut fx);
    assert!(matches!(fx.as_slice(), [Effect::SaveConfig]));
    assert!(app.cfg().is_in_filter_list(&"1111:2222".to_owned()));
    assert_eq!(app.hidden_count(), 1);
    assert_eq!(app.cfg().app_config.lang, "en");
    let mut fx = Vec::new();
    app.run_action(Action::Show("1111:2222".to_owned()), 20, &mut fx);
    assert_eq!(app.hidden_count(), 0);
    let mut fx = Vec::new();
    app.run_action(Action::AddAuto("1111:2222".to_owned()), 30, &mut fx);
    assert!(app.cfg().is_in_auto_list(&"1111:2222".to_owned()));
    assert!(matches!(fx.as_slice(), [Effect::SaveConfig, Effect::RunOp(OpRequest::Attach { auto: true, .. })]));
}

#[test]
fn selection_and_theme_and_language() {
    let mut app = ready_app(SystemConfig::default(), vec![device("1111:2222", "USB\\A")], 0);
    app.set_selected(Tab::Devices, "1111:2222".to_owned());
    assert_eq!(app.current_device().unwrap().instance_id, "USB\\A");
    let mut fx = Vec::new();
    app.process_message(UiMsg::Lists(Vec::new()), 10, &mut fx);
    assert_eq!(app.selected_hwid(Tab::Devices), Some(String::new()));
    assert!(app.current_device().is_none());
    let mut fx = Vec::new();
    app.run_action(Action::SetLang(true), 20, &mut fx);
    assert!(app.is_zh());
    assert!(matches!(fx.as_slice(), [Effect::SaveConfig, Effect::ApplyTheme, Effect::UpdateTrayLanguage]));
    assert_eq!(app.window_title("2"), "USBIP 设备管理器 2");
    let mut fx = Vec::new();
    app.toggle_theme(&mut fx);
    assert!(app.cfg().app_config.dark_mode);
}

#[test]
fn toasts_expire() {
    let mut app = ready_app(SystemConfig::default(), Vec::new(), 0);
    let mut fx = Vec::new();
    app.process_messages(vec![UiMsg::OpDone { ok: true, message: "ok".to_owned() }], 100, &mut fx);
    assert_eq!(app.toasts().len(), 1);
    app.expire_toasts(4099);
    assert_eq!(app.toasts().len(), 1);
    app.expire_toasts(4100);
    assert!(app.toasts().is_empty());
}

#[test]
fn daemon_needles_name_the_device() {
    assert_eq!(
        stale_needles(true, &"1-1".to_owned(), &"aa:bb".to_owned()),
        vec!["1-1".to_owned(), "aa:bb".to_owned()]
    );
    assert!(stale_needles(false, &"1-1".to_owned(), &"aa:bb".to_owned()).is_empty());
    assert!(removal_needles(true, vec!["x".to_owned()]).is_empty());
    assert_eq!(removal_needles(false, vec!["x".to_owned()]), vec!["x".to_owned()]);
}

#[test]
fn a_failed_read_keeps_the_lists() {
    let mut app = ready_app(SystemConfig::default(), vec![device("1111:2222", "USB\\A")], 0);
    let mut fx = Vec::new();
    app.run_actions(vec![Action::Refresh], 10, "1.0", &mut fx);
    assert!(app.is_busy());
    let mut fx = Vec::new();
    app.process_message(UiMsg::ListFailed("timed out".to_owned()), 20, &mut fx);
    assert!(matches!(fx.as_slice(), [Effect::Repaint]));
    assert!(!app.is_busy());
    assert_eq!(app.devices().len(), 1);
    assert_eq!(app.toasts().last().unwrap().kind, ToastKind::Error);
    assert_eq!(app.toasts().last().unwrap().expires, 6020);
    assert!(app.dialog().is_none());
}

#[test]
fn an_attached_device_that_left_loses_its_daemons() {
    let mut attached = device("1111:2222", "USB\\A");
    attached.is_bound = true;
    attached.is_attached = true;
    let mut app = ready_app(SystemConfig::default(), vec![attached], 0);
    let mut fx = Vec::new();
    app.process_message(UiMsg::Lists(Vec::new()), 1000, &mut fx);
    assert_eq!(fx.len(), 2);
    match &fx[0] {
        Effect::StopRemovedDaemons { id, needles } => {
            assert_eq!(id, "1111:2222");
            assert_eq!(needles, &vec!["1-1".to_owned(), "1111:2222".to_owned()]);
        },
        _ => panic!("expected the daemons to stop"),
    }
    assert!(matches!(&fx[1], Effect::Repaint));
}

#[test]
fn a_device_that_left_during_its_attach_keeps_its_daemons() {
    let mut cfg = SystemConfig::default();
    cfg.add_to_auto_list(&device("1111:2222", "USB\\A"));
    let mut app = App::new(cfg, false, true);
    let mut fx = Vec::new();
    app.process_message(UiMsg::UsbipdReady(Ok((client(), None))), 0, &mut fx);
    app.process_message(UiMsg::Lists(vec![device("1111:2222", "USB\\A")]), 1000, &mut fx);
    app.process_message(UiMsg::OpDone { ok: true, message: "Attached.".to_owned() }, 2000, &mut fx);
    let mut attached = device("1111:2222", "USB\\A");
    attached.is_bound = true;
    attached.is_attached = true;
    app.process_message(UiMsg::Lists(vec![attached]), 3000, &mut fx);
    let mut fx = Vec::new();
    app.process_message(UiMsg::Lists(Vec::new()), 5000, &mut fx);
    assert!(!fx.iter().any(|e| matches!(e, Effect::StopRemovedDaemons { .. })));
}
