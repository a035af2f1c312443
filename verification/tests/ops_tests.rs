use usbip_device_manager::config::UsbDevice;
use usbip_device_manager::ops::{AttachOp, BindOp, DetachOp, OpAction, OpEvent, UnbindOp};
use usbip_device_manager::usbipd::{CmdOut, ErrCode, Usbipd};

fn client() -> Usbipd {
    Usbipd {
        exe: "C:\\u\\usbipd.exe".to_owned(),
        version: "4.4".to_owned(),
        install_dir: "C:\\u".to_owned(),
    }
}

fn device(bound: bool, attached: bool) -> UsbDevice {
    UsbDevice {
        hardware_id: "1111:2222".to_owned(),
        instance_id: "USB\\VID_1111&PID_2222\\X".to_owned(),
        bus_id: "2-3".to_owned(),
        is_connected: true,
        is_bound: bound,
        is_attached: attached,
        ..Default::default()
    }
}

fn ok_out() -> OpEvent {
    OpEvent::Ran(Ok(CmdOut::default()))
}

fn failed_out(stderr: &str) -> OpEvent {
    OpEvent::Ran(Ok(CmdOut { code: ErrCode::Failure, stdout: String::new(), stderr: stderr.to_owned() }))
}

fn listed(d: UsbDevice) -> OpEvent {
    OpEvent::Listed(Ok(vec![d]))
}

fn run_args(a: &OpAction) -> Vec<String> {
    match a {
        OpAction::Run(inv) | OpAction::SpawnDaemon(inv) => inv.args.clone(),
        _ => panic!("expected a usbipd run"),
    }
}

fn finished(a: &OpAction) -> Option<Result<String, String>> {
    match a {
        OpAction::Finish(r) => Some(r.clone()),
        _ => None,
    }
}

// --- bind --------------------------------------------------------------------

#[test]
fn bind_checks_the_state_after_running() {
    let (mut op, a) = BindOp::start(&client(), &device(false, false), false, false);
    assert_eq!(run_args(&a), vec!["bind", "--hardware-id", "1111:2222"]);
    assert!(op.awaits(&ok_out()));
    assert!(!op.awaits(&OpEvent::Slept));
    let a = op.step(ok_out());
    assert!(matches!(a, OpAction::ListDevices));
    let a = op.step(listed(device(true, false)));
    assert_eq!(finished(&a), Some(Ok(String::new())));
}

#[test]
fn bind_gives_up_after_three_rounds() {
    let (mut op, mut a) = BindOp::start(&client(), &device(false, false), true, true);
    assert_eq!(run_args(&a), vec!["bind", "--busid", "2-3", "--force"]);
    let mut runs = 0;
    let mut events = 0;
    while finished(&a).is_none() {
        let ev = match a {
            OpAction::Run(_) => {
                runs += 1;
                failed_out("denied")
            },
            OpAction::ListDevices => listed(device(false, false)),
            OpAction::Sleep(ms) => {
                assert_eq!(ms, 500);
                OpEvent::Slept
            },
            _ => panic!("unexpected action"),
        };
        a = op.step(ev);
        events += 1;
    }
    assert_eq!(runs, 4);
    assert!(events <= 10);
    assert_eq!(finished(&a), Some(Err("Failed to bind: denied".to_owned())));
}

#[test]
fn bind_refuses_what_it_cannot_bind() {
    let mut d = device(false, false);
    d.is_connected = false;
    let (_, a) = BindOp::start(&client(), &d, false, false);
    assert_eq!(finished(&a), Some(Err("Device(1111:2222) is not connected.".to_owned())));
    let mut d = device(false, false);
    d.bus_id = "  ".to_owned();
    let (_, a) = BindOp::start(&client(), &d, true, false);
    assert_eq!(finished(&a), Some(Err("BusID is empty.".to_owned())));
    let (_, a) = BindOp::start(&client(), &device(true, false), false, false);
    assert_eq!(finished(&a), Some(Ok(String::new())));
}

// --- unbind and detach -------------------------------------------------------

#[test]
fn unbind_reads_the_state_and_stops_daemons() {
    let (mut op, a) = UnbindOp::start(&client(), &device(true, false), false);
    assert_eq!(run_args(&a), vec!["unbind", "--hardware-id", "1111:2222"]);
    let a = op.step(ok_out());
    assert!(matches!(a, OpAction::ListDevices));
    let a = op.step(listed(device(false, false)));
    assert!(matches!(&a, OpAction::StopDaemons(h) if h == "1111:2222"));
    let a = op.step(OpEvent::Stopped);
    assert_eq!(finished(&a), Some(Ok(String::new())));
}

#[test]
fn unbind_reports_a_device_still_bound() {
    let (mut op, _) = UnbindOp::start(&client(), &device(true, false), false);
    let a = op.step(failed_out("nope"));
    assert!(matches!(a, OpAction::Sleep(500)));
    let a = op.step(OpEvent::Slept);
    assert!(matches!(a, OpAction::ListDevices));
    op.step(listed(device(true, false)));
    let a = op.step(OpEvent::Stopped);
    assert_eq!(finished(&a), Some(Err("Failed to unbind: nope".to_owned())));
    let (_, a) = UnbindOp::start(&client(), &device(false, false), false);
    assert_eq!(finished(&a), Some(Ok(String::new())));
}

#[test]
fn detach_polls_until_the_device_is_free() {
    let (mut op, a) = DetachOp::start(&client(), &device(true, true), true);
    assert_eq!(run_args(&a), vec!["detach", "--busid", "2-3"]);
    op.step(ok_out());
    let a = op.step(listed(device(true, true)));
    assert!(matches!(a, OpAction::Sleep(500)));
    let a = op.step(OpEvent::Slept);
    assert!(matches!(a, OpAction::ListDevices));
    let a = op.step(listed(device(true, false)));
    assert!(matches!(a, OpAction::StopDaemons(_)));
    let a = op.step(OpEvent::Stopped);
    assert_eq!(finished(&a), Some(Ok(String::new())));
    let (_, a) = DetachOp::start(&client(), &device(true, false), true);
    assert_eq!(finished(&a), Some(Ok(String::new())));
}

// --- attach ------------------------------------------------------------------

#[test]
fn manual_attach_runs_once_and_confirms() {
    let (mut op, a) = AttachOp::start(&client(), &device(true, false), false, false, Some("10.0.0.1"), false);
    assert!(matches!(a, OpAction::ListDevices));
    let a = op.step(listed(device(true, false)));
    assert!(matches!(&a, OpAction::DaemonAttaching(id) if id == "1111:2222"));
    let a = op.step(OpEvent::Attaching(false));
    assert_eq!(
        run_args(&a),
        vec!["attach", "--hardware-id", "1111:2222", "--wsl", "--host-ip", "10.0.0.1"]
    );
    let a = op.step(ok_out());
    assert_eq!(
        finished(&a),
        Some(Ok("Attached; auto attach keeps watching the device.".to_owned()))
    );
}

#[test]
fn manual_attach_needs_a_bound_device() {
    let (_, a) = AttachOp::start(&client(), &device(false, false), false, false, None, false);
    assert_eq!(finished(&a), Some(Err("Device(1111:2222) is not bound.".to_owned())));
    let (_, a) = AttachOp::start(&client(), &device(true, true), false, false, None, false);
    assert_eq!(finished(&a), Some(Ok(String::new())));
}

#[test]
fn automatic_attach_binds_first_and_starts_a_daemon() {
    let (mut op, a) = AttachOp::start(&client(), &device(false, false), false, true, None, false);
    assert_eq!(run_args(&a), vec!["bind", "--hardware-id", "1111:2222"]);
    let a = op.step(ok_out());
    assert!(matches!(a, OpAction::ListDevices));
    let a = op.step(listed(device(true, false)));
    assert!(matches!(a, OpAction::Sleep(1000)));
    let a = op.step(OpEvent::Slept);
    assert!(matches!(a, OpAction::ListDevices));
    let a = op.step(listed(device(true, false)));
    assert!(matches!(a, OpAction::ListDevices));
    let a = op.step(listed(device(true, false)));
    assert!(matches!(a, OpAction::DaemonAttaching(_)));
    let a = op.step(OpEvent::Attaching(false));
    assert!(matches!(a, OpAction::Run(_)));
    let a = op.step(ok_out());
    match &a {
        OpAction::SpawnDaemon(inv) => {
            assert_eq!(inv.args.last().unwrap(), "--auto-attach");
            assert_eq!(inv.timeout_ms, 0);
        },
        _ => panic!("expected the daemon"),
    }
    let a = op.step(OpEvent::Spawned(Ok(())));
    assert!(matches!(finished(&a), Some(Ok(_))));
}

#[test]
fn transient_attach_failures_are_retried() {
    let (mut op, _) = AttachOp::start(&client(), &device(true, false), false, false, None, false);
    op.step(listed(device(true, false)));
    op.step(OpEvent::Attaching(false));
    let a = op.step(failed_out("usbipd: error: Device busy"));
    assert!(matches!(a, OpAction::Sleep(1000)));
    let a = op.step(OpEvent::Slept);
    assert!(matches!(a, OpAction::ListDevices));
    let a = op.step(listed(device(true, false)));
    assert!(matches!(a, OpAction::Run(_)));
    let a = op.step(failed_out("access denied"));
    assert_eq!(finished(&a), Some(Err("access denied".to_owned())));
}

#[test]
fn already_attached_is_checked_against_the_state() {
    let (mut op, _) = AttachOp::start(&client(), &device(true, false), false, false, None, false);
    op.step(listed(device(true, false)));
    op.step(OpEvent::Attaching(false));
    let a = op.step(failed_out("Device with hardware-id '1111:2222' is already attached."));
    assert!(matches!(a, OpAction::Sleep(50)));
    let a = op.step(OpEvent::Slept);
    assert!(matches!(a, OpAction::ListDevices));
    let a = op.step(listed(device(true, true)));
    assert!(matches!(finished(&a), Some(Ok(_))));
}

#[test]
fn an_attach_in_progress_is_only_watched() {
    let (mut op, _) = AttachOp::start(&client(), &device(true, false), false, false, None, true);
    op.step(listed(device(true, false)));
    let a = op.step(OpEvent::Attaching(true));
    assert!(matches!(a, OpAction::ListDevices));
    let mut a = op.step(listed(device(true, false)));
    let mut rounds = 1;
    while finished(&a).is_none() {
        let ev = match a {
            OpAction::Sleep(_) => OpEvent::Slept,
            OpAction::ListDevices => {
                rounds += 1;
                listed(device(true, false))
            },
            _ => panic!("no attach runs while a daemon works on the device"),
        };
        a = op.step(ev);
    }
    assert_eq!(rounds, 10);
    assert_eq!(finished(&a), Some(Err("无法附加设备".to_owned())));
}
