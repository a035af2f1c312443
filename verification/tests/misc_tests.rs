use usbip_device_manager::daemons::DaemonManager;
use usbip_device_manager::sys::{network_cards_of, AdapterInfo};
use usbip_device_manager::config::{app_data_dir, config_path, AppConfig, SystemConfig, UsbDevice};
use usbip_device_manager::controller::OpRequest;
use usbip_device_manager::icon::{icon_from_png, load_window_icon, tray_icon_image};
use usbip_device_manager::lang::{t, Msg};
use usbip_device_manager::log::{
    civil_from_secs, debug, error, info, log_file_path, log_line, logs_dir, now_text, today_file, warn,
};
use usbip_device_manager::model::{flags_for, Action, DevRow, RowFlags};
use usbip_device_manager::report::{attach_host_ip, op_done, op_kind, unbind_all_outcome, OpKind};
use usbip_device_manager::sys::{
    display_name_matches, elevated_params, ipv4_text, is_chinese_locale, quote_arg, sort_network_cards,
    to_wide, wide,
};
use usbip_device_manager::theme::{blue, Rgb, Theme};
use usbip_device_manager::widgets::{menu_flags, row_controls, toggle_action, Column};

fn hw(h: &str) -> UsbDevice {
    UsbDevice { hardware_id: h.to_owned(), ..Default::default() }
}

// --- configuration ---------------------------------------------------------

#[test]
fn auto_list_adds_once_and_removes_ignoring_case() {
    let mut cfg = SystemConfig::default();
    cfg.add_to_auto_list(&hw("ABCD:0001"));
    cfg.add_to_auto_list(&hw("abcd:0001"));
    assert_eq!(cfg.auto_attach_device_list.len(), 1);
    assert!(cfg.is_in_auto_list(&"AbCd:0001".to_owned()));
    cfg.add_to_filter_list(&hw("1111:2222"));
    assert!(cfg.is_in_filter_list(&"1111:2222".to_owned()));
    cfg.remove_from_auto_list(&"ABCD:0001".to_owned());
    assert!(!cfg.is_in_auto_list(&"abcd:0001".to_owned()));
    assert!(cfg.is_in_filter_list(&"1111:2222".to_owned()));
    cfg.remove_from_filter_list(&"1111:2222".to_owned());
    assert!(cfg.filtered_device_list.is_empty());
}

#[test]
fn reset_restores_the_defaults() {
    let mut cfg = SystemConfig::default();
    cfg.app_config.dark_mode = true;
    cfg.app_config.close_to_tray = false;
    cfg.add_to_auto_list(&hw("1:2"));
    cfg.reset();
    assert!(!cfg.app_config.dark_mode);
    assert!(cfg.app_config.close_to_tray);
    assert!(cfg.auto_attach_device_list.is_empty());
    let d = AppConfig::default();
    assert!(d.close_to_tray && !d.use_bus_id && !d.specify_net_card && d.lang.is_empty());
}

#[test]
fn short_name_prefers_description_then_ids() {
    let mut d = hw("1:2");
    d.description = "  Mouse , USB  ".to_owned();
    assert_eq!(d.short_name(), "Mouse");
    d.description = "   ".to_owned();
    assert_eq!(d.short_name(), "1:2");
    d.hardware_id = String::new();
    d.bus_id = "2-1".to_owned();
    assert_eq!(d.short_name(), "2-1");
}

#[test]
fn data_folder_follows_the_environment() {
    assert_eq!(
        app_data_dir(Some("C:\\Users\\u\\AppData\\Roaming".to_owned()), None),
        "C:\\Users\\u\\AppData\\Roaming\\WSL USB Manager"
    );
    assert_eq!(
        app_data_dir(None, Some("C:\\Users\\u".to_owned())),
        "C:\\Users\\u\\AppData\\Roaming\\WSL USB Manager"
    );
    assert_eq!(app_data_dir(None, None), "WSL USB Manager");
    assert_eq!(config_path("D:\\data\\"), "D:\\data\\config.json");
    assert_eq!(config_path("C:"), "C:config.json");
}

// --- log -------------------------------------------------------------------

#[test]
fn dates_come_from_the_clock() {
    assert_eq!(civil_from_secs(0), (1970, 1, 1));
    assert_eq!(civil_from_secs(1_700_000_000), (2023, 11, 14));
    assert_eq!(civil_from_secs(951_782_400), (2000, 2, 29));
    assert_eq!(today_file(0), "19700101.log");
    assert_eq!(today_file(1_700_000_000), "20231114.log");
}

#[test]
fn the_time_shows_hours_minutes_and_seconds() {
    assert_eq!(now_text(0), "1970-01-01 00:00:00");
    assert_eq!(now_text(1_700_000_000), "2023-11-14 22:13:20");
}

#[test]
fn log_lines_have_time_thread_level_and_message() {
    assert_eq!(log_line(0, "main", "INFO", "hi"), "1970-01-01 00:00:00 [main] INFO  hi\r\n");
    assert_eq!(info("x", 0, "t"), "1970-01-01 00:00:00 [t] INFO  x\r\n");
    assert_eq!(warn("x", 0, "t"), "1970-01-01 00:00:00 [t] WARN  x\r\n");
    assert_eq!(error("x", 0, "t"), "1970-01-01 00:00:00 [t] ERROR x\r\n");
    assert_eq!(debug("x", 0, "t"), "1970-01-01 00:00:00 [t] DEBUG x\r\n");
    assert_eq!(logs_dir("C:\\d"), "C:\\d\\Logs");
    assert_eq!(log_file_path("C:\\d", 0), "C:\\d\\Logs\\19700101.log");
}

// --- reports ---------------------------------------------------------------

#[test]
fn operation_reports_name_what_failed() {
    assert_eq!(op_done(OpKind::Bind, Ok(String::new()), false), (true, "Bound.".to_owned()));
    assert_eq!(op_done(OpKind::Attach, Ok("done".to_owned()), false), (true, "done".to_owned()));
    assert_eq!(
        op_done(OpKind::Detach, Err("busy".to_owned()), false),
        (false, "Failed to detach the device: busy".to_owned())
    );
    assert_eq!(op_done(OpKind::Unbind, Err("x".to_owned()), true), (false, "无法解除绑定: x".to_owned()));
    let req = OpRequest::UnbindAll { devices: Vec::new(), use_bus_id: false };
    assert_eq!(op_kind(&req), OpKind::Unbind);
    let req = OpRequest::Attach { dev: hw("1:2"), auto: true, config: AppConfig::default() };
    assert_eq!(op_kind(&req), OpKind::Attach);
}

#[test]
fn host_ip_comes_from_the_named_card() {
    let cards = vec![
        ("Ethernet".to_owned(), "10.0.0.2".to_owned()),
        ("WLAN".to_owned(), "192.168.1.5".to_owned()),
    ];
    let mut cfg = AppConfig::default();
    assert_eq!(attach_host_ip(&cfg, &cards, false), Ok(None));
    cfg.specify_net_card = true;
    cfg.forward_net_card = "WLAN".to_owned();
    assert_eq!(attach_host_ip(&cfg, &cards, false), Ok(Some("192.168.1.5".to_owned())));
    cfg.forward_net_card = "wlan".to_owned();
    assert_eq!(
        attach_host_ip(&cfg, &cards, false),
        Err("the selected network card was not found (wlan)".to_owned())
    );
}

#[test]
fn unbinding_several_reports_the_last_failure() {
    assert_eq!(unbind_all_outcome(&vec![Ok("a".to_owned()), Ok("b".to_owned())]), Ok(String::new()));
    assert_eq!(
        unbind_all_outcome(&vec![Err("1".to_owned()), Ok("b".to_owned()), Err("3".to_owned())]),
        Err("3".to_owned())
    );
    assert_eq!(unbind_all_outcome(&Vec::new()), Ok(String::new()));
}

// --- system helpers --------------------------------------------------------

#[test]
fn arguments_are_quoted_for_the_command_line() {
    assert_eq!(quote_arg("plain"), "plain");
    assert_eq!(quote_arg(""), "\"\"");
    assert_eq!(quote_arg("a b"), "\"a b\"");
    assert_eq!(quote_arg("say \"hi\""), "\"say \\\"hi\\\"\"");
    let args = vec!["bind".to_owned(), "--hardware-id".to_owned(), "my dev".to_owned()];
    assert_eq!(elevated_params(&args), "bind --hardware-id \"my dev\"");
}

#[test]
fn wide_strings_end_in_nul_and_use_surrogates() {
    assert_eq!(wide("A"), vec![0x41, 0]);
    assert_eq!(to_wide("中"), vec![0x4E2D, 0]);
    assert_eq!(wide("\u{1F600}"), vec![0xD83D, 0xDE00, 0]);
    assert_eq!(wide(""), vec![0]);
}

#[test]
fn locale_and_program_names() {
    assert!(is_chinese_locale("zh-CN"));
    assert!(is_chinese_locale("ZH-tw"));
    assert!(!is_chinese_locale("en-US"));
    assert!(!is_chinese_locale("z"));
    assert!(display_name_matches("USBIPD-WIN 4.4.0", "usbipd-win"));
    assert!(display_name_matches("Ärger usbipd", "ärger"));
    assert!(!display_name_matches("", ""));
    assert!(!display_name_matches("Other", "usbipd-win"));
}

#[test]
fn cards_are_sorted_by_lowercased_name() {
    assert_eq!(ipv4_text(192, 168, 0, 10), "192.168.0.10");
    let cards = vec![
        ("wlan".to_owned(), "1".to_owned()),
        ("Ethernet".to_owned(), "2".to_owned()),
        ("WLAN".to_owned(), "3".to_owned()),
        ("bridge".to_owned(), "4".to_owned()),
    ];
    let sorted = sort_network_cards(cards);
    let ips: Vec<&str> = sorted.iter().map(|c| c.1.as_str()).collect();
    assert_eq!(ips, vec!["4", "2", "1", "3"]);
}

// --- theme, widgets, language ----------------------------------------------

#[test]
fn theme_getters_return_valid_colors() {
    let mut th = Theme::new();
    assert!(th.is_dark());
    for dark in [true, false] {
        th.set_dark(dark);
        assert_ne!(th.text(), th.bg());
        assert_ne!(th.text_soft(), th.panel());
        assert_ne!(th.bg(), th.panel());
    }
    th.set_dark(true);
    assert_eq!(th.bg(), Rgb { r: 0x13, g: 0x17, b: 0x1D });
    th.set_dark(false);
    assert_eq!(th.bg(), Rgb { r: 0xF2, g: 0xF3, b: 0xF5 });
    assert_ne!(blue(), th.bg());
}

fn row(is_auto: bool, is_filtered: bool, bound: bool, attached: bool) -> DevRow {
    let mut d = hw("1:2");
    d.is_bound = bound;
    d.is_attached = attached;
    d.is_connected = true;
    DevRow { dev: d, is_auto, is_filtered }
}

#[test]
fn row_controls_follow_the_row_state() {
    let manual_unbound = row(false, false, false, false);
    let f = flags_for(&manual_unbound);
    assert_eq!(
        f,
        RowFlags { auto_enabled: true, bind_enabled: true, attach_enabled: false, force_enabled: true }
    );
    let busy = row_controls(&manual_unbound, true);
    assert!(!busy.auto_enabled && !busy.bind_enabled && !busy.attach_enabled && !busy.force_enabled);
    let auto_bound = row(true, false, true, false);
    let f = row_controls(&auto_bound, false);
    assert!(!f.bind_enabled && f.attach_enabled && !f.force_enabled);
    let m = menu_flags(&auto_bound, f);
    assert!(!m.unbind && !m.attach && m.remove_auto && !m.add_auto);
    let hidden = row(false, true, true, true);
    let f = row_controls(&hidden, false);
    let m = menu_flags(&hidden, f);
    assert!(m.show && m.unbind && !m.detach && !m.hide);
}

#[test]
fn check_boxes_ask_for_the_matching_action() {
    assert!(matches!(toggle_action(Column::AutoAttach, true, "h".to_owned()), Action::AddAuto(h) if h == "h"));
    assert!(matches!(toggle_action(Column::Bound, false, "h".to_owned()), Action::Unbind(_)));
    assert!(matches!(toggle_action(Column::Attached, true, "h".to_owned()), Action::Attach(_)));
    assert!(matches!(toggle_action(Column::Attached, false, "h".to_owned()), Action::Detach(_)));
}

#[test]
fn messages_exist_in_both_languages() {
    assert_eq!(t(Msg::AttachSuccess, false), "Attached.");
    assert_eq!(t(Msg::AttachSuccess, true), "附加成功。");
    assert_eq!(t(Msg::Exit, false), "Exit");
}

// --- icons -----------------------------------------------------------------

fn png(w: u32, h: u32) -> Vec<u8> {
    let img = image::RgbaImage::from_pixel(w, h, image::Rgba([10, 20, 30, 255]));
    let mut out = std::io::Cursor::new(Vec::new());
    image::DynamicImage::ImageRgba8(img).write_to(&mut out, image::ImageFormat::Png).unwrap();
    out.into_inner()
}

#[test]
fn icons_are_scaled_into_their_box() {
    let bytes = png(128, 64);
    let tray = tray_icon_image(&bytes).unwrap();
    assert_eq!((tray.width, tray.height), (32, 16));
    assert_eq!(tray.rgba.len(), 32 * 16 * 4);
    let win = load_window_icon(&bytes).unwrap();
    assert_eq!((win.width, win.height), (64, 32));
    let same = icon_from_png(&png(20, 20), 20).unwrap();
    assert_eq!(&same.rgba[..4], &[10, 20, 30, 255]);
    assert!(icon_from_png(b"not a png", 32).is_none());
}

#[test]
fn flags_read_true_or_false() {
    assert_eq!(usbip_device_manager::widgets::bool_text(true), "True");
    assert_eq!(usbip_device_manager::widgets::bool_text(false), "False");
}

#[test]
fn only_usable_adapters_become_cards() {
    let adapter = |up: bool, if_type: u32, ipv4: Option<(u8, u8, u8, u8)>, name: &str| AdapterInfo {
        up,
        if_type,
        ipv4,
        name: name.to_owned(),
    };
    let cards = network_cards_of(vec![
        adapter(true, 71, Some((192, 168, 1, 5)), "WLAN"),
        adapter(false, 6, Some((10, 0, 0, 1)), "Down"),
        adapter(true, 24, Some((127, 0, 0, 1)), "Loopback"),
        adapter(true, 131, Some((10, 1, 1, 1)), "Tunnel"),
        adapter(true, 6, None, "NoAddress"),
        adapter(true, 6, Some((10, 2, 2, 2)), ""),
        adapter(true, 6, Some((172, 17, 32, 1)), "Ethernet"),
    ]);
    assert_eq!(
        cards,
        vec![
            ("Ethernet".to_owned(), "172.17.32.1".to_owned()),
            ("WLAN".to_owned(), "192.168.1.5".to_owned()),
        ]
    );
}

#[test]
fn a_daemon_is_started_once() {
    let args = vec!["attach".to_owned(), "--busid".to_owned(), "1-2".to_owned()];
    let mut m = DaemonManager::new();
    let joined = m.needs_start(&args).unwrap();
    assert_eq!(joined, "attach --busid 1-2");
    assert_eq!(m.finish_start(joined, Ok(42)), Ok(()));
    let upper = vec!["ATTACH".to_owned(), "--BUSID".to_owned(), "1-2".to_owned()];
    assert!(m.needs_start(&upper).is_none());
    assert_eq!(m.pids(), vec![42]);
    let other = vec!["attach".to_owned(), "--busid".to_owned(), "1-3".to_owned()];
    let j = m.needs_start(&other).unwrap();
    assert_eq!(
        m.finish_start(j, Err("access denied".to_owned())),
        Err("Failed to start auto-attach daemon: access denied".to_owned())
    );
    assert_eq!(m.pids(), vec![42]);
}

#[test]
fn adding_then_removing_in_other_case_restores_the_list() {
    let mut cfg = SystemConfig::default();
    cfg.add_to_filter_list(&hw("aaaa:0001"));
    cfg.add_to_filter_list(&hw("bbbb:0002"));
    cfg.remove_from_filter_list(&"BBBB:0002".to_owned());
    assert_eq!(cfg.filtered_device_list, vec![hw("aaaa:0001")]);
    assert!(!cfg.is_in_filter_list(&"bbbb:0002".to_owned()));
}

#[test]
fn a_square_picture_fills_the_icon_box() {
    let win = load_window_icon(&png(100, 100)).unwrap();
    assert_eq!((win.width, win.height), (64, 64));
    assert_eq!(win.rgba.len(), 64 * 64 * 4);
    let tall = tray_icon_image(&png(10, 40)).unwrap();
    assert_eq!((tall.width, tall.height), (8, 32));
}
