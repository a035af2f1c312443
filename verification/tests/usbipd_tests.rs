use usbip_device_manager::config::UsbDevice;
use usbip_device_manager::sys::{AppInfo, CmdOutput};
use usbip_device_manager::usbipd::{
    detach_all, devices_from_state, exit_code_to_err_code, find_device, id_of, is_already_attached_error,
    is_attached_in, is_transient_attach_error, parse_device_list, parse_version, strip_prefixes,
    translate_attach_error, u32_text, vid_pid_of, CmdOut, DeviceStateJson, ErrCode, InstallProbe,
    RunOutcome, Usbipd,
};

/// The state JSON of `usbipd state`, read with serde_json into the records
/// the library maps.
fn parse_state_json(json: &str) -> Result<Vec<UsbDevice>, String> {
    let v: serde_json::Value = serde_json::from_str(json).map_err(|e| e.to_string())?;
    let devs = v
        .get("Devices")
        .and_then(|d| d.as_array())
        .ok_or_else(|| "missing Devices".to_owned())?;
    let text = |d: &serde_json::Value, k: &str| d.get(k).and_then(|x| x.as_str()).map(|s| s.to_owned());
    let entries = devs
        .iter()
        .map(|d| DeviceStateJson {
            bus_id: text(d, "BusId"),
            client_ip_address: text(d, "ClientIPAddress"),
            description: text(d, "Description").unwrap_or_default(),
            instance_id: text(d, "InstanceId").unwrap_or_default(),
            is_forced: d.get("IsForced").and_then(|x| x.as_bool()).unwrap_or(false),
            persisted_guid: text(d, "PersistedGuid"),
            stub_instance_id: text(d, "StubInstanceId"),
        })
        .collect();
    Ok(devices_from_state(entries))
}

#[test]
fn parses_device_list_blocks() {
    let sample = "\r\n
InstanceId : USB\\VID_046D&PID_C534\\1234567890
HardwareId : USB\\VID_046D&PID_C534
Description : Logitech Unifying Receiver, Extra
IsForced : False
BusId : 1-1
PersistedGuid : {00000000-0000-0000-0000-000000000000}
StubInstanceId : USB\\VID_046D&PID_C534\\6&2ef4ef13&0&1
ClientIPAddress :
IsBound : True
IsConnected : True
IsAttached : True

InstanceId : USB\\VID_1234&PID_5678\\ABCDEF
HardwareId : USB\\VID_1234&PID_5678
Description : Test Device
IsForced : True
BusId :
PersistedGuid : {11111111-1111-1111-1111-111111111111}
StubInstanceId :
ClientIPAddress : 172.17.32.1
IsBound : True
IsConnected : False
IsAttached : False
";
    let list = parse_device_list(sample);
    assert_eq!(list.len(), 2);
    assert_eq!(list[0].hardware_id, "USB\\VID_046D&PID_C534");
    assert!(list[0].is_bound && list[0].is_connected && list[0].is_attached);
    assert!(!list[1].is_connected);
    assert!(list[1].is_forced);
    assert_eq!(list[1].client_ip_address, "172.17.32.1");
    assert_eq!(list[0].short_name(), "Logitech Unifying Receiver");
}

#[test]
fn parses_version() {
    assert_eq!(parse_version("4.4.0"), Some((4, 4)));
    assert_eq!(parse_version("v5.2.1-preview"), Some((5, 2)));
    assert_eq!(parse_version("4"), Some((4, 0)));
    assert_eq!(parse_version("abc"), None);
}

#[test]
fn parses_state_json_devices_and_flags() {
    let sample = r#"{
        "Devices": [
            {
                "BusId": "1-42",
                "ClientIPAddress": "1.2.3.4",
                "Description": "testDescription",
                "InstanceId": "USB\\VID_1234&PID_CDEF\\6&1&0",
                "IsForced": true,
                "PersistedGuid": "ad9d8376-6284-495e-a80b-ff1826d7447d",
                "StubInstanceId": "USB\\VID_1234&PID_CDEF\\stub"
            },
            {
                "BusId": null,
                "ClientIPAddress": null,
                "Description": "",
                "InstanceId": "",
                "IsForced": false,
                "PersistedGuid": null,
                "StubInstanceId": null
            }
        ]
    }"#;
    let list = parse_state_json(sample).unwrap();
    assert_eq!(list.len(), 1);
    let dev = &list[0];
    assert_eq!(dev.hardware_id, "1234:cdef");
    assert_eq!(dev.instance_id, "USB\\VID_1234&PID_CDEF\\6&1&0");
    assert_eq!(dev.description, "testDescription");
    assert_eq!(dev.bus_id, "1-42");
    assert_eq!(dev.persisted_guid, "ad9d8376-6284-495e-a80b-ff1826d7447d");
    assert_eq!(dev.client_ip_address, "1.2.3.4");
    assert!(dev.is_forced);
    assert!(dev.is_bound && dev.is_connected && dev.is_attached);
}

#[test]
fn parses_state_json_null_means_flags_off() {
    let sample = r#"{
        "Devices": [
            {
                "BusId": null,
                "ClientIPAddress": null,
                "Description": "Some Device",
                "InstanceId": "USB\\Vid_80EE&Pid_CAFE\\x",
                "IsForced": false,
                "PersistedGuid": null,
                "StubInstanceId": null
            }
        ]
    }"#;
    let list = parse_state_json(sample).unwrap();
    assert_eq!(list.len(), 1);
    let dev = &list[0];
    assert_eq!(dev.hardware_id, "80ee:cafe");
    assert!(!dev.is_bound && !dev.is_connected && !dev.is_attached);
    assert!(!dev.is_forced);
    assert!(dev.bus_id.is_empty());
    assert!(dev.client_ip_address.is_empty());
    assert!(dev.persisted_guid.is_empty());
}

#[test]
fn rejects_pid_longer_than_four_hex_digits() {
    assert!(vid_pid_of("USB\\VID_1234&PID_56789\\x").is_none());
    assert_eq!(vid_pid_of("USB\\VID_1234&PID_5678\\x"), Some("1234:5678".to_owned()));
    assert_eq!(
        vid_pid_of("USB\\VID_046D&PID_C534&MI_00\\6&2ef4ef13&0&0000"),
        Some("046d:c534".to_owned())
    );
}

#[test]
fn recognizes_already_attached_as_success_like_race() {
    assert!(is_already_attached_error("Device with busid '6-2' is already attached to a client."));
    assert!(is_already_attached_error("Device with hardware-id '0403:6001' is already attached."));
    assert!(!is_already_attached_error("Device not found"));
}

// ---------------------------------------------------------------------------

fn dev(hw: &str, iid: &str, attached: bool) -> UsbDevice {
    UsbDevice {
        hardware_id: hw.to_owned(),
        instance_id: iid.to_owned(),
        is_attached: attached,
        ..Default::default()
    }
}

#[test]
fn version_needs_a_leading_number() {
    assert_eq!(parse_version(""), None);
    assert_eq!(parse_version("12.34"), Some((12, 34)));
    assert_eq!(parse_version("x7y8"), Some((7, 8)));
}

#[test]
fn vid_pid_needs_both_tags_and_hex() {
    assert_eq!(vid_pid_of("USB\\VID_12G4&PID_5678\\x"), None);
    assert_eq!(vid_pid_of("no ids here"), None);
    assert_eq!(vid_pid_of("usb\\vid_abcd&pid_ef01"), Some("abcd:ef01".to_owned()));
}

#[test]
fn state_entry_without_instance_id_is_dropped() {
    let list = devices_from_state(vec![DeviceStateJson {
        bus_id: None,
        client_ip_address: None,
        description: String::new(),
        instance_id: String::new(),
        is_forced: false,
        persisted_guid: None,
        stub_instance_id: None,
    }]);
    assert!(list.is_empty());
}

#[test]
fn transient_errors_are_recognized_case_insensitively() {
    assert!(is_transient_attach_error("Device BUSY"));
    assert!(is_transient_attach_error("The device appears to be used by Windows"));
    assert!(is_transient_attach_error("usbipd: error: Not Found"));
    assert!(!is_transient_attach_error("access denied"));
}

#[test]
fn attach_errors_are_translated_only_in_chinese() {
    let raw = "usbipd: error: There is no WSL 2 distribution running; x";
    assert_eq!(translate_attach_error(raw, false), raw);
    assert_eq!(
        translate_attach_error(raw, true),
        "没有正在运行的 WSL 2 发行版，请先启动 WSL。"
    );
    assert_eq!(translate_attach_error("other", true), "other");
}

#[test]
fn find_device_ignores_ascii_case() {
    let list = vec![dev("ab:CD", "1", false), dev("AB:cd", "2", false)];
    let d = find_device(&list, "AB:CD").unwrap();
    assert_eq!(d.instance_id, "1");
    assert!(find_device(&list, "ab:ce").is_none());
}

#[test]
fn attached_lookup_prefers_instance_then_hardware_id() {
    let list = vec![dev("11:22", "USB\\A", false), dev("11:22", "USB\\B", true)];
    assert!(is_attached_in(&list, "11:22", "usb\\b"));
    assert!(is_attached_in(&list, "11:22", "USB\\Z"));
    assert!(!is_attached_in(&list, "", "usb\\a"));
    assert!(!is_attached_in(&list, "33:44", ""));
}

#[test]
fn id_follows_the_bus_id_setting() {
    let mut d = dev("11:22", "x", false);
    d.bus_id = "3-1".to_owned();
    assert_eq!(id_of(&d, true), "3-1");
    assert_eq!(id_of(&d, false), "11:22");
}

#[test]
fn exit_codes_map_to_error_classes() {
    assert_eq!(exit_code_to_err_code(0), ErrCode::Success);
    assert_eq!(exit_code_to_err_code(1), ErrCode::Failure);
    assert_eq!(exit_code_to_err_code(2), ErrCode::UsbipdNotFound);
    assert_eq!(exit_code_to_err_code(3), ErrCode::UsbipdNotFound);
    assert_eq!(exit_code_to_err_code(5), ErrCode::AccessDenied);
    assert_eq!(exit_code_to_err_code(126), ErrCode::AccessDenied);
    assert_eq!(exit_code_to_err_code(77), ErrCode::UnknownError);
    assert_eq!(ErrCode::UnknownError.value(), 255);
    assert_eq!(ErrCode::DeviceDetachFailed.value(), -26);
}

#[test]
fn prefixes_are_stripped_and_sorted() {
    let (out, err) =
        strip_prefixes("usbipd: info: fine\r\nusbipd: error: bad\nusbipd: warning: careful \n\n  \nplain\n");
    assert_eq!(out, "fine\nplain");
    assert_eq!(err, "bad\ncareful");
}

#[test]
fn number_text_is_decimal() {
    assert_eq!(u32_text(0), "0");
    assert_eq!(u32_text(4294967295), "4294967295");
}

fn probe(location: &str, version: &str, dir: bool, exe: bool) -> InstallProbe {
    InstallProbe {
        info: Some(AppInfo {
            display_name: "usbipd-win".to_owned(),
            install_location: location.to_owned(),
            display_version: version.to_owned(),
            publisher: String::new(),
        }),
        dir_exists: dir,
        exe_exists: exe,
        version_output: None,
    }
}

#[test]
fn check_accepts_a_recent_local_install() {
    let (u, warn) = Usbipd::check(&probe("C:\\Program Files\\usbipd-win\\", "4.4.0", true, true), false)
        .unwrap();
    assert_eq!(u.exe, "C:\\Program Files\\usbipd-win\\usbipd.exe");
    assert_eq!(u.version, "4.4");
    assert!(warn.is_none());
}

#[test]
fn check_rejects_missing_old_and_warns_remote() {
    let none = InstallProbe { info: None, dir_exists: false, exe_exists: false, version_output: None };
    assert!(Usbipd::check(&none, false).is_err());
    let old = Usbipd::check(&probe("C:\\u", "4.3.9", true, true), false);
    match old {
        Err(e) => assert!(e.contains("too old")),
        Ok(_) => panic!("an old version passed"),
    }
    let (_, warn) = Usbipd::check(&probe("\\\\server\\share", "5.0", true, true), false).unwrap();
    assert!(warn.unwrap().contains("local disk"));
    assert!(Usbipd::check(&probe("C:\\u", "4.4", true, false), false).is_err());
}

fn client() -> Usbipd {
    Usbipd {
        exe: "C:\\u\\usbipd.exe".to_owned(),
        version: "4.4".to_owned(),
        install_dir: "C:\\u".to_owned(),
    }
}

#[test]
fn commands_carry_the_id_flag() {
    let c = client();
    let b = c.bind("1-1", true, true);
    assert!(b.privileged);
    assert_eq!(b.args, vec!["bind", "--busid", "1-1", "--force"]);
    let a = c.attach("11:22", false, Some("10.0.0.1"));
    assert!(!a.privileged);
    assert!(a.args.contains(&"--hardware-id".to_owned()));
    assert!(a.args.contains(&"10.0.0.1".to_owned()));
    let u = c.unbind("11:22", false);
    assert_eq!(u.args, vec!["unbind", "--hardware-id", "11:22"]);
    let d = c.detach("3-1", true);
    assert_eq!(d.args, vec!["detach", "--busid", "3-1"]);
}

#[test]
fn plain_run_maps_exit_codes_and_streams() {
    let c = client();
    let out = c
        .run(
            RunOutcome::Plain(Ok(CmdOutput {
                exit_code: Some(5),
                stdout: String::new(),
                stderr: "usbipd: error: denied".to_owned(),
                timed_out: false,
            })),
            false,
        )
        .unwrap();
    assert_eq!(out.code, ErrCode::AccessDenied);
    assert!(out.stderr.contains("denied"));
}

#[test]
fn detach_all_reports_failure_output() {
    assert!(detach_all(Ok(CmdOut::default())).is_ok());
    let bad = CmdOut { code: ErrCode::Failure, stdout: String::new(), stderr: "boom".to_owned() };
    assert!(detach_all(Ok(bad)).is_err());
    assert!(detach_all(Err("spawn failed".to_owned())).is_err());
}

#[test]
fn list_devices_needs_usbipd_output() {
    let c = client();
    let ok = c.list_devices(Ok(CmdOutput {
        exit_code: Some(0),
        stdout: "{\"Devices\":[]}".to_owned(),
        stderr: String::new(),
        timed_out: false,
    }));
    assert!(ok.is_ok());
    let failed = c.list_devices(Err("cannot start".to_owned()));
    assert!(failed.is_err());
}

#[test]
fn vid_and_pid_form_one_token() {
    assert_eq!(vid_pid_of("USB\\VID_12345&PID_6789\\x"), None);
    assert_eq!(vid_pid_of("USB\\VID_1234\\PID_5678"), None);
    assert_eq!(vid_pid_of("x\\vid_zz\\VID_1234&PID_ABCD\\y"), Some("1234:abcd".to_owned()));
    assert_eq!(vid_pid_of("USB\\VID_1234&PID_5678"), Some("1234:5678".to_owned()));
    assert_eq!(vid_pid_of("usb\\vid_1234&pid_567"), None);
}
