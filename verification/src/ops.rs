//! The bind, unbind, attach and detach flows as state machines.
//!
//! Each flow alternates decisions with outside work (running usbipd, reading
//! `usbipd state`, waiting, asking the auto-attach daemon manager). A flow is
//! started with `start`, which returns the first [`OpAction`]; whoever drives
//! it performs the action and hands the outcome back to `step` as an
//! [`OpEvent`], until the action is [`OpAction::Finish`].

use vstd::prelude::*;
use crate::config::{device_views, DeviceView, UsbDevice};
use crate::text::{all_space, chars_of, is_blank, string_from};
use crate::usbipd::{
    already_attached_error, attach_args, attached_in, find_device, first_with_id, id_flag, id_of,
    id_spec, bind_args, is_already_attached_error, is_attached_in, is_transient_attach_error,
    push_all, transient_error, translate_attach_error, translated_attach_error, CmdOut, ErrCode,
    Invocation, InvocationView, Usbipd,
};
use crate::sys::string_views;
use crate::lang::{msg_text, t, Msg};

verus! {

// ---------------------------------------------------------------------------
// Actions and events
// ---------------------------------------------------------------------------

pub ghost struct OutView {
    pub code: ErrCode,
    pub stdout: Seq<char>,
    pub stderr: Seq<char>,
}

impl View for CmdOut {
    type V = OutView;

    open spec fn view(&self) -> OutView {
        OutView { code: self.code, stdout: self.stdout@, stderr: self.stderr@ }
    }
}

/// The outside work a flow asks for next.
pub enum OpAction {
    /// Run usbipd; answered by [`OpEvent::Ran`].
    Run(Invocation),
    /// Read `usbipd state`; answered by [`OpEvent::Listed`].
    ListDevices,
    /// Wait this many milliseconds; answered by [`OpEvent::Slept`].
    Sleep(u64),
    /// Ask whether an auto-attach daemon whose arguments hold this text is
    /// alive; answered by [`OpEvent::Attaching`].
    DaemonAttaching(String),
    /// Stop the auto-attach daemons whose arguments hold this text; answered
    /// by [`OpEvent::Stopped`].
    StopDaemons(String),
    /// Start a long-running usbipd process; answered by [`OpEvent::Spawned`].
    SpawnDaemon(Invocation),
    /// The flow is over with this result.
    Finish(Result<String, String>),
}

/// The outcome of the outside work.
pub enum OpEvent {
    Ran(Result<CmdOut, String>),
    Listed(Result<Vec<UsbDevice>, String>),
    Slept,
    Attaching(bool),
    Stopped,
    Spawned(Result<(), String>),
}

pub ghost enum ActionView {
    Run(InvocationView),
    ListDevices,
    Sleep(u64),
    DaemonAttaching(Seq<char>),
    StopDaemons(Seq<char>),
    SpawnDaemon(InvocationView),
    Finish(Result<Seq<char>, Seq<char>>),
}

pub ghost enum EventView {
    Ran(Result<OutView, Seq<char>>),
    Listed(Result<Seq<DeviceView>, Seq<char>>),
    Slept,
    Attaching(bool),
    Stopped,
    Spawned(Result<(), Seq<char>>),
}

pub open spec fn str_result(r: Result<String, String>) -> Result<Seq<char>, Seq<char>> {
    match r {
        Ok(s) => Ok(s@),
        Err(e) => Err(e@),
    }
}

impl View for OpAction {
    type V = ActionView;

    open spec fn view(&self) -> ActionView {
        match self {
            OpAction::Run(i) => ActionView::Run(i@),
            OpAction::ListDevices => ActionView::ListDevices,
            OpAction::Sleep(ms) => ActionView::Sleep(*ms),
            OpAction::DaemonAttaching(n) => ActionView::DaemonAttaching(n@),
            OpAction::StopDaemons(n) => ActionView::StopDaemons(n@),
            OpAction::SpawnDaemon(i) => ActionView::SpawnDaemon(i@),
            OpAction::Finish(r) => ActionView::Finish(str_result(*r)),
        }
    }
}

impl View for OpEvent {
    type V = EventView;

    open spec fn view(&self) -> EventView {
        match self {
            OpEvent::Ran(Ok(o)) => EventView::Ran(Ok(o@)),
            OpEvent::Ran(Err(e)) => EventView::Ran(Err(e@)),
            OpEvent::Listed(Ok(l)) => EventView::Listed(Ok(device_views(l@))),
            OpEvent::Listed(Err(e)) => EventView::Listed(Err(e@)),
            OpEvent::Slept => EventView::Slept,
            OpEvent::Attaching(b) => EventView::Attaching(*b),
            OpEvent::Stopped => EventView::Stopped,
            OpEvent::Spawned(Ok(())) => EventView::Spawned(Ok(())),
            OpEvent::Spawned(Err(e)) => EventView::Spawned(Err(e@)),
        }
    }
}

impl Invocation {
    pub fn duplicate(&self) -> (r: Invocation)
        ensures
            r@ == self@,
    {
        let mut args: Vec<String> = Vec::new();
        let mut i: usize = 0;
        while i < self.args.len()
            invariant
                i <= self.args.len(),
                string_views(args@) == string_views(self.args@).take(i as int),
            decreases self.args.len() - i,
        {
            let ghost before = string_views(args@);
            args.push(self.args[i].clone());
            assert(string_views(args@) == before.push(self.args@[i as int]@));
            assert(string_views(self.args@).take(i + 1) == string_views(self.args@).take(
                i as int,
            ).push(self.args@[i as int]@));
            i += 1;
        }
        assert(string_views(self.args@).take(self.args.len() as int) == string_views(self.args@));
        Invocation {
            exe: self.exe.clone(),
            args,
            privileged: self.privileged,
            timeout_ms: self.timeout_ms,
        }
    }
}

// ---------------------------------------------------------------------------
// Messages
// ---------------------------------------------------------------------------

pub open spec fn empty_id_msg(use_bus_id: bool) -> Seq<char> {
    if use_bus_id {
        "BusID is empty."@
    } else {
        "HardwareID is empty."@
    }
}

pub open spec fn not_connected_msg(id: Seq<char>) -> Seq<char> {
    "Device("@ + id + ") is not connected."@
}

pub open spec fn not_bound_msg(id: Seq<char>) -> Seq<char> {
    "Device("@ + id + ") is not bound."@
}

fn empty_id_text(use_bus_id: bool) -> (r: String)
    ensures
        r@ == empty_id_msg(use_bus_id),
{
    if use_bus_id {
        "BusID is empty.".to_owned()
    } else {
        "HardwareID is empty.".to_owned()
    }
}

/// `head + middle + tail` as a `String`.
fn framed(head: &str, middle: &str, tail: &str) -> (r: String)
    ensures
        r@ == head@ + middle@ + tail@,
{
    let mut v = chars_of(head);
    let m = chars_of(middle);
    push_all(&mut v, &m);
    let t = chars_of(tail);
    push_all(&mut v, &t);
    string_from(&v)
}

/// `head + tail` as a `String`.
fn prefixed(head: &str, tail: &str) -> (r: String)
    ensures
        r@ == head@ + tail@,
{
    let mut v = chars_of(head);
    let t = chars_of(tail);
    push_all(&mut v, &t);
    string_from(&v)
}

// ---------------------------------------------------------------------------
// Bind
// ---------------------------------------------------------------------------

#[derive(Debug, Clone, Copy, PartialEq, Eq, Structural)]
pub enum BindPhase {
    AwaitFirstBind,
    AwaitPoll,
    AwaitSleep,
    AwaitRebind,
    Done,
}

/// `usbipd bind`, then up to three rounds of "read the state; if the device
/// is not bound yet, wait 500 ms and bind again".
pub struct BindOp {
    pub cmd: Invocation,
    pub hw: String,
    pub phase: BindPhase,
    pub round: u8,
    pub last_code: ErrCode,
    pub last_err: String,
}

pub ghost struct BindView {
    pub cmd: InvocationView,
    pub hw: Seq<char>,
    pub phase: BindPhase,
    pub round: nat,
    pub last_code: ErrCode,
    pub last_err: Seq<char>,
}

impl View for BindOp {
    type V = BindView;

    open spec fn view(&self) -> BindView {
        BindView {
            cmd: self.cmd@,
            hw: self.hw@,
            phase: self.phase,
            round: self.round as nat,
            last_code: self.last_code,
            last_err: self.last_err@,
        }
    }
}

/// The state read right after a bind shows the device (first entry with its
/// hardware id) as bound.
pub open spec fn polled_bound(r: Result<Seq<DeviceView>, Seq<char>>, hw: Seq<char>) -> bool {
    r matches Ok(list) && first_with_id(list, hw) matches Some(k) && list[k].is_bound
}

/// The result when three rounds did not show the device bound.
pub open spec fn bind_failure(code: ErrCode, err: Seq<char>) -> Seq<char> {
    if code != ErrCode::Success {
        "Failed to bind: "@ + err
    } else {
        "Failed to bind the device."@
    }
}

pub open spec fn bind_start_spec(exe: Seq<char>, d: DeviceView, use_bus_id: bool, force: bool) -> (
    BindView,
    ActionView,
) {
    let id = id_spec(d, use_bus_id);
    let s0 = BindView {
        cmd: InvocationView {
            exe,
            args: bind_args(id, use_bus_id, force),
            privileged: true,
            timeout_ms: 10_000,
        },
        hw: d.hardware_id,
        phase: BindPhase::Done,
        round: 0,
        last_code: ErrCode::Success,
        last_err: Seq::empty(),
    };
    if all_space(id) {
        (s0, ActionView::Finish(Err(empty_id_msg(use_bus_id))))
    } else if !d.is_connected {
        (s0, ActionView::Finish(Err(not_connected_msg(id))))
    } else if d.is_bound {
        (s0, ActionView::Finish(Ok(Seq::empty())))
    } else {
        (BindView { phase: BindPhase::AwaitFirstBind, ..s0 }, ActionView::Run(s0.cmd))
    }
}

/// The event a bind flow in phase `p` waits for.
pub open spec fn bind_awaits(p: BindPhase, ev: EventView) -> bool {
    match p {
        BindPhase::AwaitFirstBind => ev is Ran,
        BindPhase::AwaitRebind => ev is Ran,
        BindPhase::AwaitPoll => ev is Listed,
        BindPhase::AwaitSleep => ev is Slept,
        BindPhase::Done => false,
    }
}

pub open spec fn bind_next(s: BindView, ev: EventView) -> (BindView, ActionView) {
    match s.phase {
        BindPhase::AwaitFirstBind => match ev {
            EventView::Ran(Ok(o)) => (
                BindView {
                    phase: BindPhase::AwaitPoll,
                    round: 1,
                    last_code: o.code,
                    last_err: o.stderr,
                    ..s
                },
                ActionView::ListDevices,
            ),
            EventView::Ran(Err(e)) => (
                BindView { phase: BindPhase::Done, ..s },
                ActionView::Finish(Err(e)),
            ),
            _ => (s, ActionView::ListDevices),
        },
        BindPhase::AwaitPoll => match ev {
            EventView::Listed(r) => if polled_bound(r, s.hw) {
                (BindView { phase: BindPhase::Done, ..s }, ActionView::Finish(Ok(Seq::empty())))
            } else {
                (BindView { phase: BindPhase::AwaitSleep, ..s }, ActionView::Sleep(500))
            },
            _ => (s, ActionView::ListDevices),
        },
        BindPhase::AwaitSleep => (BindView { phase: BindPhase::AwaitRebind, ..s }, ActionView::Run(s.cmd)),
        BindPhase::AwaitRebind => match ev {
            EventView::Ran(Ok(o)) => if s.round < 3 {
                (
                    BindView {
                        phase: BindPhase::AwaitPoll,
                        round: s.round + 1,
                        last_code: o.code,
                        last_err: o.stderr,
                        ..s
                    },
                    ActionView::ListDevices,
                )
            } else {
                (
                    BindView {
                        phase: BindPhase::Done,
                        last_code: o.code,
                        last_err: o.stderr,
                        ..s
                    },
                    ActionView::Finish(Err(bind_failure(o.code, o.stderr))),
                )
            },
            EventView::Ran(Err(e)) => (
                BindView { phase: BindPhase::Done, ..s },
                ActionView::Finish(Err(e)),
            ),
            _ => (s, ActionView::ListDevices),
        },
        BindPhase::Done => (s, ActionView::ListDevices),
    }
}

/// The round counter stays within the three rounds.
pub open spec fn bind_wf(s: BindView) -> bool {
    s.phase != BindPhase::AwaitFirstBind && s.phase != BindPhase::Done ==> 1 <= s.round <= 3
}

/// How many more events a bind flow can take.
pub open spec fn bind_fuel(s: BindView) -> int {
    match s.phase {
        BindPhase::Done => 0,
        BindPhase::AwaitFirstBind => 10,
        BindPhase::AwaitPoll => 3 * (4 - s.round),
        BindPhase::AwaitSleep => 3 * (4 - s.round) - 1,
        BindPhase::AwaitRebind => 3 * (4 - s.round) - 2,
    }
}

/// A bind flow starts well formed, within ten events of its end, asks for
/// more work exactly until it finishes, and finishes at once with success
/// only for a device that is already bound.
pub proof fn law_bind_start(exe: Seq<char>, d: DeviceView, use_bus_id: bool, force: bool)
    ensures
        ({
            let (s0, a0) = bind_start_spec(exe, d, use_bus_id, force);
            &&& bind_wf(s0)
            &&& 0 <= bind_fuel(s0) <= 10
            &&& (a0 is Finish) == (s0.phase == BindPhase::Done)
            &&& a0 matches ActionView::Finish(Ok(_)) ==> d.is_bound
        }),
{
}

/// Every event brings a bind flow closer to its end (so it takes at most ten
/// events and at most four `usbipd bind` runs); it asks for more work
/// exactly until it finishes; it finishes with success only when a state
/// read right after a bind showed the device bound.
pub proof fn law_bind_step(s: BindView, ev: EventView)
    requires
        bind_wf(s),
        bind_awaits(s.phase, ev),
    ensures
        ({
            let (s1, a1) = bind_next(s, ev);
            &&& bind_wf(s1)
            &&& 0 <= bind_fuel(s1) < bind_fuel(s) <= 10
            &&& (a1 is Finish) == (s1.phase == BindPhase::Done)
            &&& a1 matches ActionView::Finish(Ok(_)) ==> ev matches EventView::Listed(r)
                && polled_bound(r, s.hw)
        }),
{
}

/// Whether `r`'s first device with hardware id `hw` is bound.
fn listed_bound(r: &Result<Vec<UsbDevice>, String>, hw: &String) -> (b: bool)
    ensures
        b == polled_bound(
            match r {
                Ok(l) => Ok(device_views(l@)),
                Err(e) => Err(e@),
            },
            hw@,
        ),
{
    match r {
        Ok(list) => {
            proof {
                crate::usbipd::lemma_first_with_id(device_views(list@), hw@);
            }
            match find_device(list.as_slice(), hw.as_str()) {
                Some(d) => d.is_bound,
                None => false,
            }
        },
        Err(_) => false,
    }
}

impl BindOp {
    /// `bind_device`: checks the device, then starts binding it.
    pub fn start(usbipd: &Usbipd, dev: &UsbDevice, use_bus_id: bool, force: bool) -> (r: (
        BindOp,
        OpAction,
    ))
        ensures
            (r.0@, r.1@) == bind_start_spec(usbipd.exe@, dev@, use_bus_id, force),
    {
        let id = id_of(dev, use_bus_id);
        let cmd = usbipd.bind(id.as_str(), use_bus_id, force);
        let mut op = BindOp {
            cmd,
            hw: dev.hardware_id.clone(),
            phase: BindPhase::Done,
            round: 0,
            last_code: ErrCode::Success,
            last_err: String::new(),
        };
        let idc = chars_of(id.as_str());
        if is_blank(&idc) {
            return (op, OpAction::Finish(Err(empty_id_text(use_bus_id))));
        }
        if !dev.is_connected {
            return (op, OpAction::Finish(Err(framed("Device(", id.as_str(), ") is not connected."))));
        }
        if dev.is_bound {
            return (op, OpAction::Finish(Ok(String::new())));
        }
        op.phase = BindPhase::AwaitFirstBind;
        let a = op.cmd.duplicate();
        (op, OpAction::Run(a))
    }

    /// Whether `ev` is what the flow waits for.
    pub fn awaits(&self, ev: &OpEvent) -> (b: bool)
        ensures
            b == bind_awaits(self@.phase, ev@),
    {
        match self.phase {
            BindPhase::AwaitFirstBind | BindPhase::AwaitRebind => matches!(ev, OpEvent::Ran(_)),
            BindPhase::AwaitPoll => matches!(ev, OpEvent::Listed(_)),
            BindPhase::AwaitSleep => matches!(ev, OpEvent::Slept),
            BindPhase::Done => false,
        }
    }

    pub fn step(&mut self, ev: OpEvent) -> (r: OpAction)
        requires
            bind_awaits(old(self)@.phase, ev@),
            bind_wf(old(self)@),
        ensures
            (final(self)@, r@) == bind_next(old(self)@, ev@),
    {
        match self.phase {
            BindPhase::AwaitFirstBind => match ev {
                OpEvent::Ran(Ok(o)) => {
                    self.phase = BindPhase::AwaitPoll;
                    self.round = 1;
                    self.last_code = o.code;
                    self.last_err = o.stderr;
                    OpAction::ListDevices
                },
                OpEvent::Ran(Err(e)) => {
                    self.phase = BindPhase::Done;
                    OpAction::Finish(Err(e))
                },
                _ => OpAction::ListDevices,
            },
            BindPhase::AwaitPoll => {
                let bound = match &ev {
                    OpEvent::Listed(r) => listed_bound(r, &self.hw),
                    _ => false,
                };
                if bound {
                    self.phase = BindPhase::Done;
                    OpAction::Finish(Ok(String::new()))
                } else {
                    self.phase = BindPhase::AwaitSleep;
                    OpAction::Sleep(500)
                }
            },
            BindPhase::AwaitSleep => {
                self.phase = BindPhase::AwaitRebind;
                OpAction::Run(self.cmd.duplicate())
            },
            BindPhase::AwaitRebind => match ev {
                OpEvent::Ran(Ok(o)) => {
                    self.last_code = o.code;
                    self.last_err = o.stderr;
                    if self.round < 3 {
                        self.phase = BindPhase::AwaitPoll;
                        self.round = self.round + 1;
                        OpAction::ListDevices
                    } else {
                        self.phase = BindPhase::Done;
                        let msg = if o.code != ErrCode::Success {
                            prefixed("Failed to bind: ", self.last_err.as_str())
                        } else {
                            "Failed to bind the device.".to_owned()
                        };
                        OpAction::Finish(Err(msg))
                    }
                },
                OpEvent::Ran(Err(e)) => {
                    self.phase = BindPhase::Done;
                    OpAction::Finish(Err(e))
                },
                _ => OpAction::ListDevices,
            },
            BindPhase::Done => OpAction::ListDevices,
        }
    }
}


/// The first device with hardware id `hw` is absent from a successful state
/// read, or present and not bound.
pub open spec fn polled_unbound(r: Result<Seq<DeviceView>, Seq<char>>, hw: Seq<char>) -> bool {
    r matches Ok(list) && (first_with_id(list, hw) matches Some(k) ==> !list[k].is_bound)
}

/// The first device with hardware id `hw` is absent from a successful state
/// read, or present and not attached.
pub open spec fn polled_detached(r: Result<Seq<DeviceView>, Seq<char>>, hw: Seq<char>) -> bool {
    r matches Ok(list) && (first_with_id(list, hw) matches Some(k) ==> !list[k].is_attached)
}

pub open spec fn result_view(r: Result<Vec<UsbDevice>, String>) -> Result<Seq<DeviceView>, Seq<char>> {
    match r {
        Ok(l) => Ok(device_views(l@)),
        Err(e) => Err(e@),
    }
}

fn listed_unbound(r: &Result<Vec<UsbDevice>, String>, hw: &String) -> (b: bool)
    ensures
        b == polled_unbound(result_view(*r), hw@),
{
    match r {
        Ok(list) => {
            proof {
                crate::usbipd::lemma_first_with_id(device_views(list@), hw@);
            }
            match find_device(list.as_slice(), hw.as_str()) {
                Some(d) => !d.is_bound,
                None => true,
            }
        },
        Err(_) => false,
    }
}

fn listed_detached(r: &Result<Vec<UsbDevice>, String>, hw: &String) -> (b: bool)
    ensures
        b == polled_detached(result_view(*r), hw@),
{
    match r {
        Ok(list) => {
            proof {
                crate::usbipd::lemma_first_with_id(device_views(list@), hw@);
            }
            match find_device(list.as_slice(), hw.as_str()) {
                Some(d) => !d.is_attached,
                None => true,
            }
        },
        Err(_) => false,
    }
}

// ---------------------------------------------------------------------------
// Unbind
// ---------------------------------------------------------------------------

#[derive(Debug, Clone, Copy, PartialEq, Eq, Structural)]
pub enum UnbindPhase {
    AwaitUnbind,
    AwaitSleep,
    AwaitPoll,
    AwaitStop,
    Done,
}

/// `usbipd unbind`; for a connected device, a state read (after a 500 ms
/// pause when usbipd reported a failure) decides; the device's auto-attach
/// daemons are stopped either way.
pub struct UnbindOp {
    pub cmd: Invocation,
    pub hw: String,
    pub connected: bool,
    pub phase: UnbindPhase,
    pub unbound: bool,
    pub last_code: ErrCode,
    pub last_err: String,
}

pub ghost struct UnbindView {
    pub cmd: InvocationView,
    pub hw: Seq<char>,
    pub connected: bool,
    pub phase: UnbindPhase,
    pub unbound: bool,
    pub last_code: ErrCode,
    pub last_err: Seq<char>,
}

impl View for UnbindOp {
    type V = UnbindView;

    open spec fn view(&self) -> UnbindView {
        UnbindView {
            cmd: self.cmd@,
            hw: self.hw@,
            connected: self.connected,
            phase: self.phase,
            unbound: self.unbound,
            last_code: self.last_code,
            last_err: self.last_err@,
        }
    }
}

pub open spec fn unbind_failure(code: ErrCode, err: Seq<char>) -> Seq<char> {
    if code != ErrCode::Success {
        "Failed to unbind: "@ + err
    } else {
        "Failed to unbind the device."@
    }
}

pub open spec fn unbind_start_spec(exe: Seq<char>, d: DeviceView, use_bus_id: bool) -> (
    UnbindView,
    ActionView,
) {
    let id = id_spec(d, use_bus_id);
    let s0 = UnbindView {
        cmd: InvocationView {
            exe,
            args: seq!["unbind"@, id_flag(use_bus_id), id],
            privileged: true,
            timeout_ms: 10_000,
        },
        hw: d.hardware_id,
        connected: d.is_connected,
        phase: UnbindPhase::Done,
        unbound: false,
        last_code: ErrCode::Success,
        last_err: Seq::empty(),
    };
    if all_space(id) {
        (s0, ActionView::Finish(Err(empty_id_msg(use_bus_id))))
    } else if !d.is_bound {
        (s0, ActionView::Finish(Ok(Seq::empty())))
    } else {
        (UnbindView { phase: UnbindPhase::AwaitUnbind, ..s0 }, ActionView::Run(s0.cmd))
    }
}

pub open spec fn unbind_awaits(p: UnbindPhase, ev: EventView) -> bool {
    match p {
        UnbindPhase::AwaitUnbind => ev is Ran,
        UnbindPhase::AwaitSleep => ev is Slept,
        UnbindPhase::AwaitPoll => ev is Listed,
        UnbindPhase::AwaitStop => ev is Stopped,
        UnbindPhase::Done => false,
    }
}

pub open spec fn unbind_next(s: UnbindView, ev: EventView) -> (UnbindView, ActionView) {
    match s.phase {
        UnbindPhase::AwaitUnbind => match ev {
            EventView::Ran(Err(e)) => (
                UnbindView { phase: UnbindPhase::Done, ..s },
                ActionView::Finish(Err(e)),
            ),
            EventView::Ran(Ok(o)) => {
                let s1 = UnbindView { last_code: o.code, last_err: o.stderr, ..s };
                if !s.connected {
                    (
                        UnbindView { phase: UnbindPhase::AwaitStop, unbound: true, ..s1 },
                        ActionView::StopDaemons(s.hw),
                    )
                } else if o.code != ErrCode::Success {
                    (UnbindView { phase: UnbindPhase::AwaitSleep, ..s1 }, ActionView::Sleep(500))
                } else {
                    (UnbindView { phase: UnbindPhase::AwaitPoll, ..s1 }, ActionView::ListDevices)
                }
            },
            _ => (s, ActionView::ListDevices),
        },
        UnbindPhase::AwaitSleep => (
            UnbindView { phase: UnbindPhase::AwaitPoll, ..s },
            ActionView::ListDevices,
        ),
        UnbindPhase::AwaitPoll => match ev {
            EventView::Listed(r) => (
                UnbindView { phase: UnbindPhase::AwaitStop, unbound: polled_unbound(r, s.hw), ..s },
                ActionView::StopDaemons(s.hw),
            ),
            _ => (s, ActionView::ListDevices),
        },
        UnbindPhase::AwaitStop => (
            UnbindView { phase: UnbindPhase::Done, ..s },
            ActionView::Finish(
                if s.unbound {
                    Ok(Seq::empty())
                } else {
                    Err(unbind_failure(s.last_code, s.last_err))
                },
            ),
        ),
        UnbindPhase::Done => (s, ActionView::ListDevices),
    }
}

/// Unbinding a bound device that is not connected succeeds once usbipd ran,
/// whatever exit code it reported: the flow runs `usbipd unbind`, then stops
/// the device's daemons, then finishes with success.
pub proof fn law_unbind_disconnected_succeeds(
    exe: Seq<char>,
    d: DeviceView,
    use_bus_id: bool,
    o: OutView,
)
    requires
        d.is_bound,
        !d.is_connected,
        !all_space(id_spec(d, use_bus_id)),
    ensures
        ({
            let (s0, a0) = unbind_start_spec(exe, d, use_bus_id);
            let (s1, a1) = unbind_next(s0, EventView::Ran(Ok(o)));
            let (s2, a2) = unbind_next(s1, EventView::Stopped);
            &&& a0 is Run
            &&& a1 == ActionView::StopDaemons(d.hardware_id)
            &&& a2 == ActionView::Finish(Ok(Seq::<char>::empty()))
        }),
{
}

pub open spec fn unbind_fuel(s: UnbindView) -> int {
    match s.phase {
        UnbindPhase::AwaitUnbind => 4,
        UnbindPhase::AwaitSleep => 3,
        UnbindPhase::AwaitPoll => 2,
        UnbindPhase::AwaitStop => 1,
        UnbindPhase::Done => 0,
    }
}

/// An unbind flow ends after at most four events; once usbipd ran, the
/// device's auto-attach daemons are stopped before the flow finishes; it
/// finishes with success only for a device that was not bound, or after the
/// daemons were stopped with the device disconnected or shown unbound.
pub proof fn law_unbind_flow(exe: Seq<char>, d: DeviceView, use_bus_id: bool, s: UnbindView, ev: EventView)
    requires
        unbind_awaits(s.phase, ev),
    ensures
        ({
            let (s0, a0) = unbind_start_spec(exe, d, use_bus_id);
            &&& (a0 is Finish) == (s0.phase == UnbindPhase::Done)
            &&& a0 matches ActionView::Finish(Ok(_)) ==> !d.is_bound
        }),
        ({
            let (s1, a1) = unbind_next(s, ev);
            &&& 0 <= unbind_fuel(s1) < unbind_fuel(s) <= 4
            &&& (a1 is Finish) == (s1.phase == UnbindPhase::Done)
            &&& a1 matches ActionView::Finish(Ok(_)) ==> s.phase == UnbindPhase::AwaitStop
                && ev is Stopped && s.unbound
        }),
{
}

impl UnbindOp {
    /// `unbind_device`: checks the device, then starts unbinding it.
    pub fn start(usbipd: &Usbipd, dev: &UsbDevice, use_bus_id: bool) -> (r: (UnbindOp, OpAction))
        ensures
            (r.0@, r.1@) == unbind_start_spec(usbipd.exe@, dev@, use_bus_id),
    {
        let id = id_of(dev, use_bus_id);
        let cmd = usbipd.unbind(id.as_str(), use_bus_id);
        let mut op = UnbindOp {
            cmd,
            hw: dev.hardware_id.clone(),
            connected: dev.is_connected,
            phase: UnbindPhase::Done,
            unbound: false,
            last_code: ErrCode::Success,
            last_err: String::new(),
        };
        let idc = chars_of(id.as_str());
        if is_blank(&idc) {
            return (op, OpAction::Finish(Err(empty_id_text(use_bus_id))));
        }
        if !dev.is_bound {
            return (op, OpAction::Finish(Ok(String::new())));
        }
        op.phase = UnbindPhase::AwaitUnbind;
        let a = op.cmd.duplicate();
        (op, OpAction::Run(a))
    }

    pub fn awaits(&self, ev: &OpEvent) -> (b: bool)
        ensures
            b == unbind_awaits(self@.phase, ev@),
    {
        match self.phase {
            UnbindPhase::AwaitUnbind => matches!(ev, OpEvent::Ran(_)),
            UnbindPhase::AwaitSleep => matches!(ev, OpEvent::Slept),
            UnbindPhase::AwaitPoll => matches!(ev, OpEvent::Listed(_)),
            UnbindPhase::AwaitStop => matches!(ev, OpEvent::Stopped),
            UnbindPhase::Done => false,
        }
    }

    pub fn step(&mut self, ev: OpEvent) -> (r: OpAction)
        requires
            unbind_awaits(old(self)@.phase, ev@),
        ensures
            (final(self)@, r@) == unbind_next(old(self)@, ev@),
    {
        match self.phase {
            UnbindPhase::AwaitUnbind => match ev {
                OpEvent::Ran(Err(e)) => {
                    self.phase = UnbindPhase::Done;
                    OpAction::Finish(Err(e))
                },
                OpEvent::Ran(Ok(o)) => {
                    self.last_code = o.code;
                    self.last_err = o.stderr;
                    if !self.connected {
                        self.phase = UnbindPhase::AwaitStop;
                        self.unbound = true;
                        OpAction::StopDaemons(self.hw.clone())
                    } else if o.code != ErrCode::Success {
                        self.phase = UnbindPhase::AwaitSleep;
                        OpAction::Sleep(500)
                    } else {
                        self.phase = UnbindPhase::AwaitPoll;
                        OpAction::ListDevices
                    }
                },
                _ => OpAction::ListDevices,
            },
            UnbindPhase::AwaitSleep => {
                self.phase = UnbindPhase::AwaitPoll;
                OpAction::ListDevices
            },
            UnbindPhase::AwaitPoll => match &ev {
                OpEvent::Listed(r) => {
                    self.unbound = listed_unbound(r, &self.hw);
                    self.phase = UnbindPhase::AwaitStop;
                    OpAction::StopDaemons(self.hw.clone())
                },
                _ => OpAction::ListDevices,
            },
            UnbindPhase::AwaitStop => {
                self.phase = UnbindPhase::Done;
                if self.unbound {
                    OpAction::Finish(Ok(String::new()))
                } else if self.last_code != ErrCode::Success {
                    OpAction::Finish(Err(prefixed("Failed to unbind: ", self.last_err.as_str())))
                } else {
                    OpAction::Finish(Err("Failed to unbind the device.".to_owned()))
                }
            },
            UnbindPhase::Done => OpAction::ListDevices,
        }
    }
}

// ---------------------------------------------------------------------------
// Detach
// ---------------------------------------------------------------------------

#[derive(Debug, Clone, Copy, PartialEq, Eq, Structural)]
pub enum DetachPhase {
    AwaitDetach,
    AwaitPoll,
    AwaitSleep,
    AwaitStop,
    Done,
}

/// `usbipd detach`, then up to ten state reads 500 ms apart until the device
/// is no longer attached; the device's auto-attach daemons are stopped after.
pub struct DetachOp {
    pub cmd: Invocation,
    pub hw: String,
    pub phase: DetachPhase,
    pub round: u8,
    pub detached: bool,
    pub last_code: ErrCode,
    pub last_err: String,
}

pub ghost struct DetachView {
    pub cmd: InvocationView,
    pub hw: Seq<char>,
    pub phase: DetachPhase,
    pub round: nat,
    pub detached: bool,
    pub last_code: ErrCode,
    pub last_err: Seq<char>,
}

impl View for DetachOp {
    type V = DetachView;

    open spec fn view(&self) -> DetachView {
        DetachView {
            cmd: self.cmd@,
            hw: self.hw@,
            phase: self.phase,
            round: self.round as nat,
            detached: self.detached,
            last_code: self.last_code,
            last_err: self.last_err@,
        }
    }
}

pub open spec fn detach_failure(code: ErrCode, err: Seq<char>) -> Seq<char> {
    if code != ErrCode::Success {
        "Failed to detach: "@ + err
    } else {
        "Failed to detach the device."@
    }
}

pub open spec fn detach_start_spec(exe: Seq<char>, d: DeviceView, use_bus_id: bool) -> (
    DetachView,
    ActionView,
) {
    let id = id_spec(d, use_bus_id);
    let s0 = DetachView {
        cmd: InvocationView {
            exe,
            args: seq!["detach"@, id_flag(use_bus_id), id],
            privileged: false,
            timeout_ms: 10_000,
        },
        hw: d.hardware_id,
        phase: DetachPhase::Done,
        round: 0,
        detached: false,
        last_code: ErrCode::Success,
        last_err: Seq::empty(),
    };
    if all_space(id) {
        (s0, ActionView::Finish(Err(empty_id_msg(use_bus_id))))
    } else if !d.is_connected {
        (s0, ActionView::Finish(Err(not_connected_msg(id))))
    } else if !d.is_attached {
        (s0, ActionView::Finish(Ok(Seq::empty())))
    } else {
        (DetachView { phase: DetachPhase::AwaitDetach, ..s0 }, ActionView::Run(s0.cmd))
    }
}

pub open spec fn detach_awaits(p: DetachPhase, ev: EventView) -> bool {
    match p {
        DetachPhase::AwaitDetach => ev is Ran,
        DetachPhase::AwaitPoll => ev is Listed,
        DetachPhase::AwaitSleep => ev is Slept,
        DetachPhase::AwaitStop => ev is Stopped,
        DetachPhase::Done => false,
    }
}

pub open spec fn detach_next(s: DetachView, ev: EventView) -> (DetachView, ActionView) {
    match s.phase {
        DetachPhase::AwaitDetach => match ev {
            EventView::Ran(Err(e)) => (
                DetachView { phase: DetachPhase::Done, ..s },
                ActionView::Finish(Err(e)),
            ),
            EventView::Ran(Ok(o)) => (
                DetachView {
                    phase: DetachPhase::AwaitPoll,
                    round: 1,
                    last_code: o.code,
                    last_err: o.stderr,
                    ..s
                },
                ActionView::ListDevices,
            ),
            _ => (s, ActionView::ListDevices),
        },
        DetachPhase::AwaitPoll => match ev {
            EventView::Listed(r) => if polled_detached(r, s.hw) {
                (
                    DetachView { phase: DetachPhase::AwaitStop, detached: true, ..s },
                    ActionView::StopDaemons(s.hw),
                )
            } else {
                (DetachView { phase: DetachPhase::AwaitSleep, ..s }, ActionView::Sleep(500))
            },
            _ => (s, ActionView::ListDevices),
        },
        DetachPhase::AwaitSleep => if s.round < 10 {
            (
                DetachView { phase: DetachPhase::AwaitPoll, round: s.round + 1, ..s },
                ActionView::ListDevices,
            )
        } else {
            (DetachView { phase: DetachPhase::AwaitStop, ..s }, ActionView::StopDaemons(s.hw))
        },
        DetachPhase::AwaitStop => (
            DetachView { phase: DetachPhase::Done, ..s },
            ActionView::Finish(
                if s.detached {
                    Ok(Seq::empty())
                } else {
                    Err(detach_failure(s.last_code, s.last_err))
                },
            ),
        ),
        DetachPhase::Done => (s, ActionView::ListDevices),
    }
}

pub open spec fn detach_wf(s: DetachView) -> bool {
    (s.phase == DetachPhase::AwaitPoll || s.phase == DetachPhase::AwaitSleep) ==> 1 <= s.round
        <= 10
}

pub open spec fn detach_fuel(s: DetachView) -> int {
    match s.phase {
        DetachPhase::AwaitDetach => 22,
        DetachPhase::AwaitPoll => 2 * (10 - s.round) + 3,
        DetachPhase::AwaitSleep => 2 * (10 - s.round) + 2,
        DetachPhase::AwaitStop => 1,
        DetachPhase::Done => 0,
    }
}

/// A detach flow ends after at most 22 events (one `usbipd detach`, at most
/// ten state reads); once usbipd ran, the daemons are stopped before it
/// finishes; it finishes with success only for a device that was not
/// attached, or when a state read showed it gone or detached.
pub proof fn law_detach_flow(exe: Seq<char>, d: DeviceView, use_bus_id: bool, s: DetachView, ev: EventView)
    requires
        detach_wf(s),
        detach_awaits(s.phase, ev),
    ensures
        ({
            let (s0, a0) = detach_start_spec(exe, d, use_bus_id);
            &&& detach_wf(s0)
            &&& (a0 is Finish) == (s0.phase == DetachPhase::Done)
            &&& a0 matches ActionView::Finish(Ok(_)) ==> !d.is_attached
        }),
        ({
            let (s1, a1) = detach_next(s, ev);
            &&& detach_wf(s1)
            &&& 0 <= detach_fuel(s1) < detach_fuel(s) <= 22
            &&& (a1 is Finish) == (s1.phase == DetachPhase::Done)
            &&& a1 matches ActionView::Finish(Ok(_)) ==> s.phase == DetachPhase::AwaitStop
                && s.detached
            &&& (s1.detached && !s.detached) ==> (ev matches EventView::Listed(r)
                && polled_detached(r, s.hw))
        }),
{
}

impl DetachOp {
    /// `detach_device`: checks the device, then starts detaching it.
    pub fn start(usbipd: &Usbipd, dev: &UsbDevice, use_bus_id: bool) -> (r: (DetachOp, OpAction))
        ensures
            (r.0@, r.1@) == detach_start_spec(usbipd.exe@, dev@, use_bus_id),
    {
        let id = id_of(dev, use_bus_id);
        let cmd = usbipd.detach(id.as_str(), use_bus_id);
        let mut op = DetachOp {
            cmd,
            hw: dev.hardware_id.clone(),
            phase: DetachPhase::Done,
            round: 0,
            detached: false,
            last_code: ErrCode::Success,
            last_err: String::new(),
        };
        let idc = chars_of(id.as_str());
        if is_blank(&idc) {
            return (op, OpAction::Finish(Err(empty_id_text(use_bus_id))));
        }
        if !dev.is_connected {
            return (op, OpAction::Finish(Err(framed("Device(", id.as_str(), ") is not connected."))));
        }
        if !dev.is_attached {
            return (op, OpAction::Finish(Ok(String::new())));
        }
        op.phase = DetachPhase::AwaitDetach;
        let a = op.cmd.duplicate();
        (op, OpAction::Run(a))
    }

    pub fn awaits(&self, ev: &OpEvent) -> (b: bool)
        ensures
            b == detach_awaits(self@.phase, ev@),
    {
        match self.phase {
            DetachPhase::AwaitDetach => matches!(ev, OpEvent::Ran(_)),
            DetachPhase::AwaitPoll => matches!(ev, OpEvent::Listed(_)),
            DetachPhase::AwaitSleep => matches!(ev, OpEvent::Slept),
            DetachPhase::AwaitStop => matches!(ev, OpEvent::Stopped),
            DetachPhase::Done => false,
        }
    }

    pub fn step(&mut self, ev: OpEvent) -> (r: OpAction)
        requires
            detach_awaits(old(self)@.phase, ev@),
            detach_wf(old(self)@),
        ensures
            (final(self)@, r@) == detach_next(old(self)@, ev@),
    {
        match self.phase {
            DetachPhase::AwaitDetach => match ev {
                OpEvent::Ran(Err(e)) => {
                    self.phase = DetachPhase::Done;
                    OpAction::Finish(Err(e))
                },
                OpEvent::Ran(Ok(o)) => {
                    self.phase = DetachPhase::AwaitPoll;
                    self.round = 1;
                    self.last_code = o.code;
                    self.last_err = o.stderr;
                    OpAction::ListDevices
                },
                _ => OpAction::ListDevices,
            },
            DetachPhase::AwaitPoll => {
                let gone = match &ev {
                    OpEvent::Listed(r) => listed_detached(r, &self.hw),
                    _ => false,
                };
                if gone {
                    self.phase = DetachPhase::AwaitStop;
                    self.detached = true;
                    OpAction::StopDaemons(self.hw.clone())
                } else {
                    self.phase = DetachPhase::AwaitSleep;
                    OpAction::Sleep(500)
                }
            },
            DetachPhase::AwaitSleep => {
                if self.round < 10 {
                    self.phase = DetachPhase::AwaitPoll;
                    self.round = self.round + 1;
                    OpAction::ListDevices
                } else {
                    self.phase = DetachPhase::AwaitStop;
                    OpAction::StopDaemons(self.hw.clone())
                }
            },
            DetachPhase::AwaitStop => {
                self.phase = DetachPhase::Done;
                if self.detached {
                    OpAction::Finish(Ok(String::new()))
                } else if self.last_code != ErrCode::Success {
                    OpAction::Finish(Err(prefixed("Failed to detach: ", self.last_err.as_str())))
                } else {
                    OpAction::Finish(Err("Failed to detach the device.".to_owned()))
                }
            },
            DetachPhase::Done => OpAction::ListDevices,
        }
    }
}


// ---------------------------------------------------------------------------
// Attach
// ---------------------------------------------------------------------------

#[derive(Debug, Clone, Copy, PartialEq, Eq, Structural)]
pub enum AttachPhase {
    /// An automatic attach is binding the device first.
    Binding,
    /// Waiting 1 s after the bind.
    BindSettle,
    /// Reading the state after the bind.
    BoundList,
    /// Reading the state right before attaching.
    FreshList,
    /// Asking whether an auto-attach daemon already works on the device.
    DaemonCheck,
    /// `usbipd attach` is running.
    RacRun,
    /// usbipd said "already attached": waiting 50 ms before checking.
    RacSleep,
    /// Checking the state after "already attached".
    RacList,
    /// Waiting 1 s after a transient failure.
    RetrySleep,
    /// Reading the state after a transient failure.
    RetryList,
    /// Reading the state in the final polling rounds.
    PollList,
    /// Waiting 500 ms between polling rounds.
    PollSleep,
    /// Starting the `--auto-attach` daemon.
    Spawning,
    Done,
}

/// Where the result of one `usbipd attach` run goes.
#[derive(Debug, Clone, Copy, PartialEq, Eq, Structural)]
pub enum RacCtx {
    First,
    Retry,
    Poll,
}

/// Attach a device to WSL: for an automatic attach an unbound device is bound
/// first; a device already attached (by the caller's snapshot or a fresh
/// state read) is left alone; unless an auto-attach daemon already works on
/// it, `usbipd attach` runs, transient failures are retried up to five times
/// one second apart, and "already attached" answers are checked against the
/// state after 50 ms; then up to ten state reads 500 ms apart wait for the
/// device to show as attached, re-running `usbipd attach` on every third
/// round or after a failure. An automatic attach ends by starting a
/// `usbipd attach --auto-attach` daemon.
pub struct AttachOp {
    pub usbipd: Usbipd,
    pub id: String,
    pub use_bus_id: bool,
    pub auto: bool,
    pub host_ip: Option<String>,
    pub zh: bool,
    pub cur: UsbDevice,
    pub bind: BindOp,
    pub phase: AttachPhase,
    pub ctx: RacCtx,
    pub in_progress: bool,
    pub attached: bool,
    pub already_seen: bool,
    pub last_err: Option<String>,
    pub attempt: u8,
    pub poll: u8,
    pub out: CmdOut,
    pub rac_out: CmdOut,
}

pub ghost struct AttachView {
    pub exe: Seq<char>,
    pub id: Seq<char>,
    pub use_bus_id: bool,
    pub auto: bool,
    pub host_ip: Option<Seq<char>>,
    pub zh: bool,
    pub cur: DeviceView,
    pub bind: BindView,
    pub phase: AttachPhase,
    pub ctx: RacCtx,
    pub in_progress: bool,
    pub attached: bool,
    pub already_seen: bool,
    pub last_err: Option<Seq<char>>,
    pub attempt: nat,
    pub poll: nat,
    pub out: OutView,
    pub rac_out: OutView,
}

pub open spec fn opt_str(o: Option<String>) -> Option<Seq<char>> {
    match o {
        Some(s) => Some(s@),
        None => None,
    }
}

impl View for AttachOp {
    type V = AttachView;

    open spec fn view(&self) -> AttachView {
        AttachView {
            exe: self.usbipd.exe@,
            id: self.id@,
            use_bus_id: self.use_bus_id,
            auto: self.auto,
            host_ip: opt_str(self.host_ip),
            zh: self.zh,
            cur: self.cur@,
            bind: self.bind@,
            phase: self.phase,
            ctx: self.ctx,
            in_progress: self.in_progress,
            attached: self.attached,
            already_seen: self.already_seen,
            last_err: opt_str(self.last_err),
            attempt: self.attempt as nat,
            poll: self.poll as nat,
            out: self.out@,
            rac_out: self.rac_out@,
        }
    }
}

pub open spec fn success_out() -> OutView {
    OutView { code: ErrCode::Success, stdout: Seq::empty(), stderr: Seq::empty() }
}

pub open spec fn attach_cmd_view(s: AttachView) -> InvocationView {
    InvocationView {
        exe: s.exe,
        args: attach_args(s.id, s.use_bus_id, s.host_ip),
        privileged: false,
        timeout_ms: 10_000,
    }
}

/// The long-running `usbipd attach ... --auto-attach` process.
pub open spec fn daemon_cmd_view(s: AttachView) -> InvocationView {
    InvocationView {
        exe: s.exe,
        args: attach_args(s.id, s.use_bus_id, s.host_ip).push("--auto-attach"@),
        privileged: false,
        timeout_ms: 0,
    }
}

/// The error shown when polling never confirmed the attach.
pub open spec fn attach_failure_text(last_err: Option<Seq<char>>, zh: bool) -> Seq<char> {
    match last_err {
        Some(e) => if e.len() > 0 {
            translated_attach_error(e, zh)
        } else {
            translated_attach_error(msg_text(Msg::ErrMsgAttachFail, zh), zh)
        },
        None => translated_attach_error(msg_text(Msg::ErrMsgAttachFail, zh), zh),
    }
}

/// The device as the state read shows it (first entry with its hardware
/// id), or unchanged when the read failed or does not list it.
pub open spec fn refreshed(cur: DeviceView, r: Result<Seq<DeviceView>, Seq<char>>) -> DeviceView {
    match r {
        Ok(list) => match first_with_id(list, cur.hardware_id) {
            Some(k) => list[k],
            None => cur,
        },
        Err(_) => cur,
    }
}

/// The state read shows the device attached.
pub open spec fn listed_attached(s: AttachView, r: Result<Seq<DeviceView>, Seq<char>>) -> bool {
    r matches Ok(list) && attached_in(list, s.cur.hardware_id, s.cur.instance_id)
}

pub open spec fn final_decide(s: AttachView) -> (AttachView, ActionView) {
    let att = s.attached || s.already_seen;
    let s1 = AttachView { attached: att, ..s };
    if att {
        if s.auto {
            (AttachView { phase: AttachPhase::Spawning, ..s1 }, ActionView::SpawnDaemon(daemon_cmd_view(s)))
        } else {
            (
                AttachView { phase: AttachPhase::Done, ..s1 },
                ActionView::Finish(Ok(msg_text(Msg::AutoAttachDaemonExit, s.zh))),
            )
        }
    } else {
        (
            AttachView { phase: AttachPhase::Done, ..s1 },
            ActionView::Finish(Err(attach_failure_text(s.last_err, s.zh))),
        )
    }
}

/// The top of polling round `i` (rounds 1 to 10).
pub open spec fn poll_enter(s: AttachView, i: nat) -> (AttachView, ActionView) {
    if i > 10 || s.attached {
        final_decide(s)
    } else {
        (AttachView { phase: AttachPhase::PollList, poll: i, ..s }, ActionView::ListDevices)
    }
}

pub open spec fn after_loop(s: AttachView) -> (AttachView, ActionView) {
    let att = s.attached || s.out.code == ErrCode::Success;
    let s1 = AttachView { attached: att, ..s };
    if !att && transient_error(s.out.stderr) {
        poll_enter(AttachView { last_err: Some(s.out.stderr), ..s1 }, 1)
    } else if !att && !already_attached_error(s.out.stderr) {
        (
            AttachView { phase: AttachPhase::Done, ..s1 },
            ActionView::Finish(Err(translated_attach_error(s.out.stderr, s.zh))),
        )
    } else {
        poll_enter(s1, 1)
    }
}

/// The top of the retry loop for transient failures.
pub open spec fn loop_check(s: AttachView) -> (AttachView, ActionView) {
    if s.out.code == ErrCode::Success || s.attempt >= 5 {
        after_loop(s)
    } else if already_attached_error(s.out.stderr) {
        after_loop(AttachView { already_seen: true, ..s })
    } else if !transient_error(s.out.stderr) {
        (
            AttachView { phase: AttachPhase::Done, ..s },
            ActionView::Finish(Err(translated_attach_error(s.out.stderr, s.zh))),
        )
    } else {
        (
            AttachView {
                attempt: s.attempt + 1,
                last_err: Some(s.out.stderr),
                phase: AttachPhase::RetrySleep,
                ..s
            },
            ActionView::Sleep(1000),
        )
    }
}

pub open spec fn rac_begin(s: AttachView, ctx: RacCtx) -> (AttachView, ActionView) {
    (AttachView { phase: AttachPhase::RacRun, ctx, ..s }, ActionView::Run(attach_cmd_view(s)))
}

/// Where an attach run's (possibly confirmed) output goes.
pub open spec fn rac_done(s: AttachView, o: OutView) -> (AttachView, ActionView) {
    match s.ctx {
        RacCtx::First => loop_check(
            AttachView { out: o, attached: s.attached || o.code == ErrCode::Success, attempt: 0, ..s },
        ),
        RacCtx::Retry => loop_check(
            AttachView { out: o, attached: s.attached || o.code == ErrCode::Success, ..s },
        ),
        RacCtx::Poll => {
            let s1 = if o.code != ErrCode::Success {
                AttachView {
                    already_seen: s.already_seen || already_attached_error(o.stderr),
                    last_err: Some(o.stderr),
                    ..s
                }
            } else {
                s
            };
            (AttachView { phase: AttachPhase::PollSleep, ..s1 }, ActionView::Sleep(500))
        },
    }
}

pub open spec fn poll_after_list(s: AttachView) -> (AttachView, ActionView) {
    let stop = s.last_err matches Some(e) && already_attached_error(e);
    if !s.in_progress && !stop && (s.last_err is Some || s.poll % 3 == 0) {
        rac_begin(s, RacCtx::Poll)
    } else {
        (AttachView { phase: AttachPhase::PollSleep, ..s }, ActionView::Sleep(500))
    }
}

pub open spec fn fresh_check(s: AttachView) -> (AttachView, ActionView) {
    if s.cur.is_attached {
        (AttachView { phase: AttachPhase::Done, ..s }, ActionView::Finish(Ok(Seq::empty())))
    } else {
        (AttachView { phase: AttachPhase::FreshList, ..s }, ActionView::ListDevices)
    }
}

pub open spec fn attach_start_spec(
    exe: Seq<char>,
    d: DeviceView,
    use_bus_id: bool,
    auto: bool,
    host_ip: Option<Seq<char>>,
    zh: bool,
) -> (AttachView, ActionView) {
    let id = id_spec(d, use_bus_id);
    let (b, ba) = bind_start_spec(exe, d, use_bus_id, d.is_forced);
    let s0 = AttachView {
        exe,
        id,
        use_bus_id,
        auto,
        host_ip,
        zh,
        cur: d,
        bind: b,
        phase: AttachPhase::Done,
        ctx: RacCtx::First,
        in_progress: false,
        attached: false,
        already_seen: false,
        last_err: None,
        attempt: 0,
        poll: 0,
        out: success_out(),
        rac_out: success_out(),
    };
    if all_space(id) {
        (s0, ActionView::Finish(Err(empty_id_msg(use_bus_id))))
    } else if !d.is_connected {
        (s0, ActionView::Finish(Err(not_connected_msg(id))))
    } else if !d.is_bound {
        if !auto {
            (s0, ActionView::Finish(Err(not_bound_msg(id))))
        } else {
            match ba {
                ActionView::Finish(Err(e)) => (s0, ActionView::Finish(Err(e))),
                ActionView::Finish(Ok(_)) => (
                    AttachView { phase: AttachPhase::BindSettle, ..s0 },
                    ActionView::Sleep(1000),
                ),
                _ => (AttachView { phase: AttachPhase::Binding, ..s0 }, ba),
            }
        }
    } else {
        fresh_check(s0)
    }
}

pub open spec fn attach_awaits(s: AttachView, ev: EventView) -> bool {
    match s.phase {
        AttachPhase::Binding => bind_awaits(s.bind.phase, ev),
        AttachPhase::BindSettle => ev is Slept,
        AttachPhase::RacSleep => ev is Slept,
        AttachPhase::RetrySleep => ev is Slept,
        AttachPhase::PollSleep => ev is Slept,
        AttachPhase::BoundList => ev is Listed,
        AttachPhase::FreshList => ev is Listed,
        AttachPhase::RacList => ev is Listed,
        AttachPhase::RetryList => ev is Listed,
        AttachPhase::PollList => ev is Listed,
        AttachPhase::DaemonCheck => ev is Attaching,
        AttachPhase::RacRun => ev is Ran,
        AttachPhase::Spawning => ev is Spawned,
        AttachPhase::Done => false,
    }
}

/// The counters stay small and a nested bind flow is well formed.
pub open spec fn attach_wf(s: AttachView) -> bool {
    &&& s.attempt <= 5
    &&& s.poll <= 10
    &&& s.phase == AttachPhase::Binding ==> bind_wf(s.bind)
}

pub open spec fn attach_next(s: AttachView, ev: EventView) -> (AttachView, ActionView) {
    match s.phase {
        AttachPhase::Binding => {
            let (b1, a) = bind_next(s.bind, ev);
            let s1 = AttachView { bind: b1, ..s };
            match a {
                ActionView::Finish(Err(e)) => (
                    AttachView { phase: AttachPhase::Done, ..s1 },
                    ActionView::Finish(Err(e)),
                ),
                ActionView::Finish(Ok(_)) => (
                    AttachView { phase: AttachPhase::BindSettle, ..s1 },
                    ActionView::Sleep(1000),
                ),
                _ => (s1, a),
            }
        },
        AttachPhase::BindSettle => (
            AttachView { phase: AttachPhase::BoundList, ..s },
            ActionView::ListDevices,
        ),
        AttachPhase::BoundList => match ev {
            EventView::Listed(r) => {
                let s1 = AttachView { cur: refreshed(s.cur, r), ..s };
                if !s1.cur.is_bound {
                    (
                        AttachView { phase: AttachPhase::Done, ..s1 },
                        ActionView::Finish(Err(not_bound_msg(s.id))),
                    )
                } else {
                    fresh_check(s1)
                }
            },
            _ => (s, ActionView::ListDevices),
        },
        AttachPhase::FreshList => match ev {
            EventView::Listed(r) => {
                let s1 = AttachView { cur: refreshed(s.cur, r), ..s };
                if s1.cur.is_attached {
                    (
                        AttachView { phase: AttachPhase::Done, ..s1 },
                        ActionView::Finish(Ok(Seq::empty())),
                    )
                } else {
                    (
                        AttachView { phase: AttachPhase::DaemonCheck, ..s1 },
                        ActionView::DaemonAttaching(s.id),
                    )
                }
            },
            _ => (s, ActionView::ListDevices),
        },
        AttachPhase::DaemonCheck => match ev {
            EventView::Attaching(b) => {
                let s1 = AttachView {
                    in_progress: b,
                    attached: false,
                    already_seen: false,
                    last_err: None,
                    ..s
                };
                if !b {
                    rac_begin(s1, RacCtx::First)
                } else {
                    poll_enter(s1, 1)
                }
            },
            _ => (s, ActionView::ListDevices),
        },
        AttachPhase::RacRun => match ev {
            EventView::Ran(Err(e)) => (
                AttachView { phase: AttachPhase::Done, ..s },
                ActionView::Finish(Err(e)),
            ),
            EventView::Ran(Ok(o)) => if o.code == ErrCode::Success || !already_attached_error(
                o.stderr,
            ) {
                rac_done(s, o)
            } else {
                (AttachView { phase: AttachPhase::RacSleep, rac_out: o, ..s }, ActionView::Sleep(50))
            },
            _ => (s, ActionView::ListDevices),
        },
        AttachPhase::RacSleep => if s.cur.hardware_id.len() > 0 {
            (AttachView { phase: AttachPhase::RacList, ..s }, ActionView::ListDevices)
        } else {
            rac_done(s, s.rac_out)
        },
        AttachPhase::RacList => match ev {
            EventView::Listed(r) => if listed_attached(s, r) {
                rac_done(s, success_out())
            } else {
                rac_done(s, s.rac_out)
            },
            _ => (s, ActionView::ListDevices),
        },
        AttachPhase::RetrySleep => (
            AttachView { phase: AttachPhase::RetryList, ..s },
            ActionView::ListDevices,
        ),
        AttachPhase::RetryList => match ev {
            EventView::Listed(r) => if listed_attached(s, r) {
                after_loop(AttachView { attached: true, ..s })
            } else {
                rac_begin(s, RacCtx::Retry)
            },
            _ => (s, ActionView::ListDevices),
        },
        AttachPhase::PollList => match ev {
            EventView::Listed(r) => if listed_attached(s, r) {
                final_decide(AttachView { attached: true, ..s })
            } else {
                poll_after_list(s)
            },
            _ => (s, ActionView::ListDevices),
        },
        AttachPhase::PollSleep => poll_enter(s, s.poll + 1),
        AttachPhase::Spawning => match ev {
            EventView::Spawned(Err(e)) => (
                AttachView { phase: AttachPhase::Done, ..s },
                ActionView::Finish(Err(e)),
            ),
            _ => (
                AttachView { phase: AttachPhase::Done, ..s },
                ActionView::Finish(Ok(msg_text(Msg::AutoAttachDaemonExit, s.zh))),
            ),
        },
        AttachPhase::Done => (s, ActionView::ListDevices),
    }
}


/// The state facts the progress measure of an attach flow relies on.
pub open spec fn attach_shape(s: AttachView) -> bool {
    &&& attach_wf(s)
    &&& s.phase == AttachPhase::Binding ==> s.bind.phase != BindPhase::Done
    &&& (s.phase == AttachPhase::PollList || s.phase == AttachPhase::PollSleep) ==> 1 <= s.poll
    &&& (s.phase == AttachPhase::RacRun || s.phase == AttachPhase::RacSleep || s.phase
        == AttachPhase::RacList) && s.ctx == RacCtx::Poll ==> 1 <= s.poll
    &&& (s.phase == AttachPhase::RetrySleep || s.phase == AttachPhase::RetryList) ==> 1 <= s.attempt
    &&& (s.phase == AttachPhase::RacSleep || s.phase == AttachPhase::RacList) ==> s.rac_out.code
        != ErrCode::Success
    &&& s.phase == AttachPhase::Spawning ==> s.attached
}

/// Events left for the retry loop entered with `a` attempts used.
pub open spec fn loop_fuel(a: nat) -> int {
    51 + 5 * (5 - a)
}

/// Events left at the top of polling round `i`.
pub open spec fn poll_fuel(i: nat) -> int {
    5 * (11 - i) + 1
}

/// Events left once the current `usbipd attach` run has been handled.
pub open spec fn rac_rest(s: AttachView) -> int {
    match s.ctx {
        RacCtx::First => loop_fuel(0),
        RacCtx::Retry => loop_fuel(s.attempt),
        RacCtx::Poll => poll_fuel(s.poll + 1) + 1,
    }
}

/// An upper bound on the events an attach flow can still take.
pub open spec fn attach_fuel(s: AttachView) -> int {
    let rac_rest = rac_rest(s);
    match s.phase {
        AttachPhase::Binding => 83 + bind_fuel(s.bind),
        AttachPhase::BindSettle => 83,
        AttachPhase::BoundList => 82,
        AttachPhase::FreshList => 81,
        AttachPhase::DaemonCheck => 80,
        AttachPhase::RacRun => rac_rest + 3,
        AttachPhase::RacSleep => rac_rest + 2,
        AttachPhase::RacList => rac_rest + 1,
        AttachPhase::RetrySleep => loop_fuel(s.attempt) + 5,
        AttachPhase::RetryList => loop_fuel(s.attempt) + 4,
        AttachPhase::PollList => poll_fuel(s.poll),
        AttachPhase::PollSleep => poll_fuel(s.poll + 1) + 1,
        AttachPhase::Spawning => 1,
        AttachPhase::Done => 0,
    }
}

/// An attach flow starts in shape, asks for more work exactly until it
/// finishes, and finishes at once with success only for a device that is
/// connected, bound and already attached.
pub proof fn law_attach_start(
    exe: Seq<char>,
    d: DeviceView,
    use_bus_id: bool,
    auto: bool,
    host_ip: Option<Seq<char>>,
    zh: bool,
)
    ensures
        ({
            let (s0, a0) = attach_start_spec(exe, d, use_bus_id, auto, host_ip, zh);
            &&& attach_shape(s0)
            &&& 0 <= attach_fuel(s0) <= 93
            &&& (a0 is Finish) == (s0.phase == AttachPhase::Done)
            &&& a0 matches ActionView::Finish(Ok(_)) ==> d.is_connected && d.is_bound && d.is_attached
        }),
{
    law_bind_start(exe, d, use_bus_id, d.is_forced);
}

/// What [`law_attach_step`] states of one step.
pub open spec fn attach_step_ok(s: AttachView, ev: EventView) -> bool {
    let (s1, a1) = attach_next(s, ev);
    &&& attach_shape(s1)
    &&& 0 <= attach_fuel(s1) < attach_fuel(s) <= 93
    &&& (a1 is Finish) == (s1.phase == AttachPhase::Done)
    &&& (!s.attached && s1.attached) ==> (s1.already_seen || (ev matches EventView::Ran(Ok(o))
        && o.code == ErrCode::Success) || (ev matches EventView::Listed(r) && listed_attached(
        s,
        r,
    )))
    &&& a1 matches ActionView::Finish(Ok(_)) ==> s1.attached || s1.cur.is_attached
}

proof fn lemma_attach_step_early(s: AttachView, ev: EventView)
    requires
        attach_shape(s),
        attach_awaits(s, ev),
        s.phase == AttachPhase::Binding || s.phase == AttachPhase::BindSettle || s.phase
            == AttachPhase::BoundList || s.phase == AttachPhase::FreshList || s.phase
            == AttachPhase::DaemonCheck || s.phase == AttachPhase::Spawning,
    ensures
        attach_step_ok(s, ev),
{
    if s.phase == AttachPhase::Binding {
        law_bind_step(s.bind, ev);
    }
    assert(loop_fuel(0) == 76);
}

/// What a helper of [`attach_next`] keeps: shape, a fuel bound, `Finish`
/// exactly at `Done`, no new "attached" mark but an "already attached" one,
/// and success only for an attached device.
spec fn attach_post(s: AttachView, r: (AttachView, ActionView), bound: int) -> bool {
    let (s1, a1) = r;
    &&& attach_shape(s1)
    &&& 0 <= attach_fuel(s1) <= bound
    &&& (a1 is Finish) == (s1.phase == AttachPhase::Done)
    &&& s1.attached ==> (s.attached || s1.already_seen)
    &&& a1 matches ActionView::Finish(Ok(_)) ==> s1.attached || s1.cur.is_attached
}

proof fn lemma_final_decide(s: AttachView)
    requires
        s.attempt <= 5,
        s.poll <= 10,
    ensures
        attach_post(s, final_decide(s), 1),
{
}

proof fn lemma_poll_enter(s: AttachView, i: nat)
    requires
        s.attempt <= 5,
        s.poll <= 10,
        1 <= i <= 11,
    ensures
        attach_post(s, poll_enter(s, i), poll_fuel(i)),
{
    if i > 10 || s.attached {
        lemma_final_decide(s);
    }
}

proof fn lemma_after_loop(s: AttachView)
    requires
        s.attempt <= 5,
        s.poll <= 10,
        s.out.code == ErrCode::Success ==> s.attached,
    ensures
        attach_post(s, after_loop(s), poll_fuel(1)),
{
    let s1 = AttachView { attached: s.attached || s.out.code == ErrCode::Success, ..s };
    lemma_poll_enter(AttachView { last_err: Some(s.out.stderr), ..s1 }, 1);
    lemma_poll_enter(s1, 1);
}

proof fn lemma_loop_check(s: AttachView)
    requires
        s.attempt <= 5,
        s.poll <= 10,
        s.out.code == ErrCode::Success ==> s.attached,
    ensures
        attach_post(s, loop_check(s), loop_fuel(s.attempt)),
{
    lemma_after_loop(s);
    lemma_after_loop(AttachView { already_seen: true, ..s });
}

proof fn lemma_rac_done(s: AttachView, o: OutView)
    requires
        attach_shape(s),
        s.phase == AttachPhase::RacRun || s.phase == AttachPhase::RacSleep || s.phase
            == AttachPhase::RacList,
    ensures
        ({
            let (s1, a1) = rac_done(s, o);
            &&& attach_shape(s1)
            &&& 0 <= attach_fuel(s1) <= rac_rest(s)
            &&& (a1 is Finish) == (s1.phase == AttachPhase::Done)
            &&& s1.attached ==> (s.attached || s1.already_seen || o.code == ErrCode::Success)
            &&& a1 matches ActionView::Finish(Ok(_)) ==> s1.attached || s1.cur.is_attached
        }),
{
    match s.ctx {
        RacCtx::First => {
            let t = AttachView {
                out: o,
                attached: s.attached || o.code == ErrCode::Success,
                attempt: 0,
                ..s
            };
            lemma_loop_check(t);
            assert(loop_fuel(0) == 76);
        },
        RacCtx::Retry => {
            let t = AttachView { out: o, attached: s.attached || o.code == ErrCode::Success, ..s };
            lemma_loop_check(t);
        },
        RacCtx::Poll => {},
    }
}

proof fn lemma_attach_step_rac(s: AttachView, ev: EventView)
    requires
        attach_shape(s),
        attach_awaits(s, ev),
        s.phase == AttachPhase::RacRun || s.phase == AttachPhase::RacSleep || s.phase
            == AttachPhase::RacList,
    ensures
        attach_step_ok(s, ev),
{
    match s.phase {
        AttachPhase::RacRun => {
            if let EventView::Ran(Ok(o)) = ev {
                lemma_rac_done(s, o);
            }
        },
        AttachPhase::RacSleep => {
            lemma_rac_done(s, s.rac_out);
        },
        _ => {
            lemma_rac_done(s, success_out());
            lemma_rac_done(s, s.rac_out);
        },
    }
}

#[verifier::rlimit(60)]
proof fn lemma_attach_step_loops(s: AttachView, ev: EventView)
    requires
        attach_shape(s),
        attach_awaits(s, ev),
        s.phase == AttachPhase::RetrySleep || s.phase == AttachPhase::RetryList || s.phase
            == AttachPhase::PollList || s.phase == AttachPhase::PollSleep,
    ensures
        attach_step_ok(s, ev),
{
}

/// In the polling rounds, a state read that shows the device attached ends
/// the wait at once: a manual attach finishes with success (the daemon
/// notice), an automatic one goes on to start its `--auto-attach` daemon.
pub proof fn law_poll_read_attached_ends(s: AttachView, list: Seq<DeviceView>)
    requires
        s.phase == AttachPhase::PollList,
        attached_in(list, s.cur.hardware_id, s.cur.instance_id),
    ensures
        ({
            let (s1, a1) = attach_next(s, EventView::Listed(Ok(list)));
            &&& s1.attached
            &&& if s.auto {
                s1.phase == AttachPhase::Spawning && a1 == ActionView::SpawnDaemon(
                    daemon_cmd_view(s),
                )
            } else {
                s1.phase == AttachPhase::Done && a1 == ActionView::Finish(
                    Ok(msg_text(Msg::AutoAttachDaemonExit, s.zh)),
                )
            }
        }),
{
}

/// The flow is for the same device, address and mode: `usbipd.exe`, the id,
/// the id flag, the host address and whether the attach is automatic.
pub open spec fn same_target(a: AttachView, b: AttachView) -> bool {
    &&& a.exe == b.exe
    &&& a.id == b.id
    &&& a.use_bus_id == b.use_bus_id
    &&& a.host_ip == b.host_ip
    &&& a.auto == b.auto
}

/// A transition from `s` keeps the target and asks for the daemon only for
/// an automatic attach, with the attach arguments plus `--auto-attach`.
pub open spec fn daemon_ok(s: AttachView, r: (AttachView, ActionView)) -> bool {
    &&& same_target(s, r.0)
    &&& r.1 matches ActionView::SpawnDaemon(inv) ==> s.auto && inv == daemon_cmd_view(s)
}

proof fn lemma_daemon_poll_enter(s: AttachView, i: nat)
    ensures
        daemon_ok(s, poll_enter(s, i)),
{
}

proof fn lemma_daemon_after_loop(s: AttachView)
    ensures
        daemon_ok(s, after_loop(s)),
{
    let s1 = AttachView { attached: s.attached || s.out.code == ErrCode::Success, ..s };
    lemma_daemon_poll_enter(AttachView { last_err: Some(s.out.stderr), ..s1 }, 1);
    lemma_daemon_poll_enter(s1, 1);
}

proof fn lemma_daemon_loop_check(s: AttachView)
    ensures
        daemon_ok(s, loop_check(s)),
{
    lemma_daemon_after_loop(s);
    lemma_daemon_after_loop(AttachView { already_seen: true, ..s });
}

proof fn lemma_daemon_rac_done(s: AttachView, o: OutView)
    ensures
        daemon_ok(s, rac_done(s, o)),
{
    lemma_daemon_loop_check(
        AttachView { out: o, attached: s.attached || o.code == ErrCode::Success, attempt: 0, ..s },
    );
    lemma_daemon_loop_check(
        AttachView { out: o, attached: s.attached || o.code == ErrCode::Success, ..s },
    );
}

/// The daemon of an attach flow: its start never asks for one and keeps the
/// target it was given; each step keeps the target, and asks for the
/// `--auto-attach` daemon only for an automatic attach, with the arguments of
/// the flow's own `usbipd attach` plus `--auto-attach`.
pub proof fn law_daemon_only_for_auto(
    exe: Seq<char>,
    d: DeviceView,
    use_bus_id: bool,
    auto: bool,
    host_ip: Option<Seq<char>>,
    zh: bool,
    s: AttachView,
    ev: EventView,
)
    ensures
        ({
            let (s0, a0) = attach_start_spec(exe, d, use_bus_id, auto, host_ip, zh);
            &&& !(a0 is SpawnDaemon)
            &&& s0.exe == exe && s0.id == id_spec(d, use_bus_id) && s0.use_bus_id == use_bus_id
            &&& s0.host_ip == host_ip && s0.auto == auto
        }),
        daemon_ok(s, attach_next(s, ev)),
{
    match s.phase {
        AttachPhase::RacRun => {
            if let EventView::Ran(Ok(o)) = ev {
                lemma_daemon_rac_done(s, o);
            }
        },
        AttachPhase::RacSleep => {
            lemma_daemon_rac_done(s, s.rac_out);
        },
        AttachPhase::RacList => {
            lemma_daemon_rac_done(s, success_out());
            lemma_daemon_rac_done(s, s.rac_out);
        },
        AttachPhase::RetryList => {
            lemma_daemon_after_loop(AttachView { attached: true, ..s });
        },
        AttachPhase::PollSleep => {
            lemma_daemon_poll_enter(s, s.poll + 1);
        },
        AttachPhase::DaemonCheck => {
            let s1 = AttachView { in_progress: true, attached: false, already_seen: false, last_err: None, ..s };
            lemma_daemon_poll_enter(s1, 1);
        },
        _ => {},
    }
}

/// Every event brings an attach flow closer to its end (so it takes at most
/// 93 events); it asks for more work exactly until it finishes; it marks
/// the device attached only on a successful `usbipd attach`, a state read
/// that shows it attached, or an "already attached" answer from usbipd; and
/// it finishes with success only when the device is marked attached or its
/// latest record says it is.
pub proof fn law_attach_step(s: AttachView, ev: EventView)
    requires
        attach_shape(s),
        attach_awaits(s, ev),
    ensures
        attach_step_ok(s, ev),
{
    match s.phase {
        AttachPhase::RacRun | AttachPhase::RacSleep | AttachPhase::RacList => {
            lemma_attach_step_rac(s, ev);
        },
        AttachPhase::RetrySleep | AttachPhase::RetryList | AttachPhase::PollList
        | AttachPhase::PollSleep => {
            lemma_attach_step_loops(s, ev);
        },
        _ => {
            lemma_attach_step_early(s, ev);
        },
    }
}

impl CmdOut {
    pub fn duplicate(&self) -> (r: CmdOut)
        ensures
            r@ == self@,
    {
        CmdOut { code: self.code, stdout: self.stdout.clone(), stderr: self.stderr.clone() }
    }
}

fn success_cmd_out() -> (r: CmdOut)
    ensures
        r@ == success_out(),
{
    let r = CmdOut { code: ErrCode::Success, stdout: String::new(), stderr: String::new() };
    assert(r@.stdout =~= Seq::<char>::empty());
    assert(r@.stderr =~= Seq::<char>::empty());
    r
}

impl AttachOp {
    fn attach_cmd(&self) -> (r: Invocation)
        ensures
            r@ == attach_cmd_view(self@),
    {
        let ip: Option<&str> = match &self.host_ip {
            Some(h) => Some(h.as_str()),
            None => None,
        };
        self.usbipd.attach(self.id.as_str(), self.use_bus_id, ip)
    }

    fn daemon_cmd(&self) -> (r: Invocation)
        ensures
            r@ == daemon_cmd_view(self@),
    {
        let mut c = self.attach_cmd();
        let ghost before = string_views(c.args@);
        c.args.push("--auto-attach".to_owned());
        assert(string_views(c.args@) =~= before.push("--auto-attach"@));
        c.timeout_ms = 0;
        c
    }

    fn final_decide(&mut self) -> (r: OpAction)
        ensures
            (final(self)@, r@) == final_decide(old(self)@),
    {
        self.attached = self.attached || self.already_seen;
        if self.attached {
            if self.auto {
                self.phase = AttachPhase::Spawning;
                OpAction::SpawnDaemon(self.daemon_cmd())
            } else {
                self.phase = AttachPhase::Done;
                OpAction::Finish(Ok(t(Msg::AutoAttachDaemonExit, self.zh)))
            }
        } else {
            self.phase = AttachPhase::Done;
            let detail: Option<&String> = match &self.last_err {
                Some(e) => if e.as_str().is_empty() {
                    None
                } else {
                    Some(e)
                },
                None => None,
            };
            let text = match detail {
                Some(e) => translate_attach_error(e.as_str(), self.zh),
                None => {
                    let m = t(Msg::ErrMsgAttachFail, self.zh);
                    translate_attach_error(m.as_str(), self.zh)
                },
            };
            OpAction::Finish(Err(text))
        }
    }

    fn poll_enter(&mut self, i: u8) -> (r: OpAction)
        requires
            i <= 11,
            old(self)@.attempt <= 5,
            old(self)@.poll <= 10,
        ensures
            (final(self)@, r@) == poll_enter(old(self)@, i as nat),
            final(self)@.attempt <= 5,
            final(self)@.poll <= 10,
    {
        if i > 10 || self.attached {
            self.final_decide()
        } else {
            self.phase = AttachPhase::PollList;
            self.poll = i;
            OpAction::ListDevices
        }
    }

    fn after_loop(&mut self) -> (r: OpAction)
        requires
            old(self)@.attempt <= 5,
            old(self)@.poll <= 10,
        ensures
            (final(self)@, r@) == after_loop(old(self)@),
            final(self)@.attempt <= 5,
            final(self)@.poll <= 10,
    {
        let att = self.attached || self.out.code == ErrCode::Success;
        self.attached = att;
        if !att && is_transient_attach_error(self.out.stderr.as_str()) {
            self.last_err = Some(self.out.stderr.clone());
            self.poll_enter(1)
        } else if !att && !is_already_attached_error(self.out.stderr.as_str()) {
            self.phase = AttachPhase::Done;
            OpAction::Finish(Err(translate_attach_error(self.out.stderr.as_str(), self.zh)))
        } else {
            self.poll_enter(1)
        }
    }

    fn loop_check(&mut self) -> (r: OpAction)
        requires
            old(self)@.attempt <= 5,
            old(self)@.poll <= 10,
        ensures
            (final(self)@, r@) == loop_check(old(self)@),
            final(self)@.attempt <= 5,
            final(self)@.poll <= 10,
    {
        if self.out.code == ErrCode::Success || self.attempt >= 5 {
            self.after_loop()
        } else if is_already_attached_error(self.out.stderr.as_str()) {
            self.already_seen = true;
            self.after_loop()
        } else if !is_transient_attach_error(self.out.stderr.as_str()) {
            self.phase = AttachPhase::Done;
            OpAction::Finish(Err(translate_attach_error(self.out.stderr.as_str(), self.zh)))
        } else {
            self.attempt = self.attempt + 1;
            self.last_err = Some(self.out.stderr.clone());
            self.phase = AttachPhase::RetrySleep;
            OpAction::Sleep(1000)
        }
    }

    fn rac_begin(&mut self, ctx: RacCtx) -> (r: OpAction)
        ensures
            (final(self)@, r@) == rac_begin(old(self)@, ctx),
    {
        self.phase = AttachPhase::RacRun;
        self.ctx = ctx;
        OpAction::Run(self.attach_cmd())
    }

    fn rac_done(&mut self, o: CmdOut) -> (r: OpAction)
        requires
            old(self)@.attempt <= 5,
            old(self)@.poll <= 10,
        ensures
            (final(self)@, r@) == rac_done(old(self)@, o@),
            final(self)@.attempt <= 5,
            final(self)@.poll <= 10,
    {
        match self.ctx {
            RacCtx::First => {
                self.attached = self.attached || o.code == ErrCode::Success;
                self.out = o;
                self.attempt = 0;
                self.loop_check()
            },
            RacCtx::Retry => {
                self.attached = self.attached || o.code == ErrCode::Success;
                self.out = o;
                self.loop_check()
            },
            RacCtx::Poll => {
                if o.code != ErrCode::Success {
                    self.already_seen = self.already_seen || is_already_attached_error(
                        o.stderr.as_str(),
                    );
                    self.last_err = Some(o.stderr);
                }
                self.phase = AttachPhase::PollSleep;
                OpAction::Sleep(500)
            },
        }
    }

    fn poll_after_list(&mut self) -> (r: OpAction)
        ensures
            (final(self)@, r@) == poll_after_list(old(self)@),
    {
        let stop = match &self.last_err {
            Some(e) => is_already_attached_error(e.as_str()),
            None => false,
        };
        if !self.in_progress && !stop && (self.last_err.is_some() || self.poll % 3 == 0) {
            self.rac_begin(RacCtx::Poll)
        } else {
            self.phase = AttachPhase::PollSleep;
            OpAction::Sleep(500)
        }
    }

    fn fresh_check(&mut self) -> (r: OpAction)
        ensures
            (final(self)@, r@) == fresh_check(old(self)@),
    {
        if self.cur.is_attached {
            self.phase = AttachPhase::Done;
            OpAction::Finish(Ok(String::new()))
        } else {
            self.phase = AttachPhase::FreshList;
            OpAction::ListDevices
        }
    }

    fn refresh_cur(&mut self, r: &Result<Vec<UsbDevice>, String>)
        ensures
            final(self)@ == (AttachView { cur: refreshed(old(self)@.cur, result_view(*r)), ..old(self)@ }),
    {
        match r {
            Ok(list) => {
                proof {
                    crate::usbipd::lemma_first_with_id(device_views(list@), self.cur.hardware_id@);
                }
                match find_device(list.as_slice(), self.cur.hardware_id.as_str()) {
                    Some(u) => {
                        self.cur = u.duplicate();
                    },
                    None => {},
                }
            },
            Err(_) => {},
        }
    }

    fn is_listed_attached(&self, r: &Result<Vec<UsbDevice>, String>) -> (b: bool)
        ensures
            b == listed_attached(self@, result_view(*r)),
    {
        match r {
            Ok(list) => is_attached_in(
                list.as_slice(),
                self.cur.hardware_id.as_str(),
                self.cur.instance_id.as_str(),
            ),
            Err(_) => false,
        }
    }

    /// `attach_device`: checks the device and starts the flow.
    pub fn start(
        usbipd: &Usbipd,
        dev: &UsbDevice,
        use_bus_id: bool,
        auto: bool,
        host_ip: Option<&str>,
        zh: bool,
    ) -> (r: (AttachOp, OpAction))
        ensures
            (r.0@, r.1@) == attach_start_spec(
                usbipd.exe@,
                dev@,
                use_bus_id,
                auto,
                match host_ip {
                    Some(h) => Some(h@),
                    None => None,
                },
                zh,
            ),
            attach_wf(r.0@),
    {
        let id = id_of(dev, use_bus_id);
        let (b, ba) = BindOp::start(usbipd, dev, use_bus_id, dev.is_forced);
        let host: Option<String> = match host_ip {
            Some(h) => Some(h.to_owned()),
            None => None,
        };
        let mut op = AttachOp {
            usbipd: Usbipd {
                exe: usbipd.exe.clone(),
                version: usbipd.version.clone(),
                install_dir: usbipd.install_dir.clone(),
            },
            id,
            use_bus_id,
            auto,
            host_ip: host,
            zh,
            cur: dev.duplicate(),
            bind: b,
            phase: AttachPhase::Done,
            ctx: RacCtx::First,
            in_progress: false,
            attached: false,
            already_seen: false,
            last_err: None,
            attempt: 0,
            poll: 0,
            out: success_cmd_out(),
            rac_out: success_cmd_out(),
        };
        proof {
            law_bind_start(usbipd.exe@, dev@, use_bus_id, dev.is_forced);
        }
        let idc = chars_of(op.id.as_str());
        if is_blank(&idc) {
            return (op, OpAction::Finish(Err(empty_id_text(use_bus_id))));
        }
        if !dev.is_connected {
            let m = framed("Device(", op.id.as_str(), ") is not connected.");
            return (op, OpAction::Finish(Err(m)));
        }
        if !dev.is_bound {
            if !auto {
                let m = framed("Device(", op.id.as_str(), ") is not bound.");
                return (op, OpAction::Finish(Err(m)));
            }
            match ba {
                OpAction::Finish(Err(e)) => {
                    return (op, OpAction::Finish(Err(e)));
                },
                OpAction::Finish(Ok(_)) => {
                    op.phase = AttachPhase::BindSettle;
                    return (op, OpAction::Sleep(1000));
                },
                other => {
                    op.phase = AttachPhase::Binding;
                    return (op, other);
                },
            }
        }
        let a = op.fresh_check();
        (op, a)
    }

    pub fn awaits(&self, ev: &OpEvent) -> (b: bool)
        ensures
            b == attach_awaits(self@, ev@),
    {
        match self.phase {
            AttachPhase::Binding => self.bind.awaits(ev),
            AttachPhase::BindSettle | AttachPhase::RacSleep | AttachPhase::RetrySleep
            | AttachPhase::PollSleep => matches!(ev, OpEvent::Slept),
            AttachPhase::BoundList | AttachPhase::FreshList | AttachPhase::RacList
            | AttachPhase::RetryList | AttachPhase::PollList => matches!(ev, OpEvent::Listed(_)),
            AttachPhase::DaemonCheck => matches!(ev, OpEvent::Attaching(_)),
            AttachPhase::RacRun => matches!(ev, OpEvent::Ran(_)),
            AttachPhase::Spawning => matches!(ev, OpEvent::Spawned(_)),
            AttachPhase::Done => false,
        }
    }

    fn on_binding(&mut self, ev: OpEvent) -> (r: OpAction)
        requires
            old(self)@.phase == AttachPhase::Binding,
            attach_awaits(old(self)@, ev@),
            attach_wf(old(self)@),
        ensures
            (final(self)@, r@) == attach_next(old(self)@, ev@),
            attach_wf(final(self)@),
    {
        proof {
            law_bind_step(self.bind@, ev@);
        }
        let a = self.bind.step(ev);
        match a {
            OpAction::Finish(Err(e)) => {
                self.phase = AttachPhase::Done;
                OpAction::Finish(Err(e))
            },
            OpAction::Finish(Ok(_)) => {
                self.phase = AttachPhase::BindSettle;
                OpAction::Sleep(1000)
            },
            other => other,
        }
    }

    fn on_state_list(&mut self, ev: OpEvent) -> (r: OpAction)
        requires
            old(self)@.phase == AttachPhase::BoundList || old(self)@.phase == AttachPhase::FreshList,
            attach_awaits(old(self)@, ev@),
            attach_wf(old(self)@),
        ensures
            (final(self)@, r@) == attach_next(old(self)@, ev@),
            attach_wf(final(self)@),
    {
        let bound_check = self.phase == AttachPhase::BoundList;
        match &ev {
            OpEvent::Listed(r) => {
                self.refresh_cur(r);
                if bound_check {
                    if !self.cur.is_bound {
                        self.phase = AttachPhase::Done;
                        let m = framed("Device(", self.id.as_str(), ") is not bound.");
                        OpAction::Finish(Err(m))
                    } else {
                        self.fresh_check()
                    }
                } else if self.cur.is_attached {
                    self.phase = AttachPhase::Done;
                    OpAction::Finish(Ok(String::new()))
                } else {
                    self.phase = AttachPhase::DaemonCheck;
                    OpAction::DaemonAttaching(self.id.clone())
                }
            },
            _ => OpAction::ListDevices,
        }
    }

    fn on_daemon_check(&mut self, ev: OpEvent) -> (r: OpAction)
        requires
            old(self)@.phase == AttachPhase::DaemonCheck,
            attach_awaits(old(self)@, ev@),
            attach_wf(old(self)@),
        ensures
            (final(self)@, r@) == attach_next(old(self)@, ev@),
            attach_wf(final(self)@),
    {
        match ev {
            OpEvent::Attaching(b) => {
                self.in_progress = b;
                self.attached = false;
                self.already_seen = false;
                self.last_err = None;
                if !b {
                    self.rac_begin(RacCtx::First)
                } else {
                    self.poll_enter(1)
                }
            },
            _ => OpAction::ListDevices,
        }
    }

    #[verifier::rlimit(40)]
    fn on_rac(&mut self, ev: OpEvent) -> (r: OpAction)
        requires
            old(self)@.phase == AttachPhase::RacRun || old(self)@.phase == AttachPhase::RacSleep
                || old(self)@.phase == AttachPhase::RacList,
            attach_awaits(old(self)@, ev@),
            attach_wf(old(self)@),
        ensures
            (final(self)@, r@) == attach_next(old(self)@, ev@),
            attach_wf(final(self)@),
    {
        match self.phase {
            AttachPhase::RacRun => match ev {
                OpEvent::Ran(Err(e)) => {
                    self.phase = AttachPhase::Done;
                    OpAction::Finish(Err(e))
                },
                OpEvent::Ran(Ok(o)) => {
                    if o.code == ErrCode::Success || !is_already_attached_error(o.stderr.as_str()) {
                        self.rac_done(o)
                    } else {
                        self.phase = AttachPhase::RacSleep;
                        self.rac_out = o;
                        OpAction::Sleep(50)
                    }
                },
                _ => OpAction::ListDevices,
            },
            AttachPhase::RacSleep => {
                if !self.cur.hardware_id.as_str().is_empty() {
                    self.phase = AttachPhase::RacList;
                    OpAction::ListDevices
                } else {
                    let o = self.rac_out.duplicate();
                    self.rac_done(o)
                }
            },
            _ => match &ev {
                OpEvent::Listed(r) => {
                    if self.is_listed_attached(r) {
                        self.rac_done(success_cmd_out())
                    } else {
                        let o = self.rac_out.duplicate();
                        self.rac_done(o)
                    }
                },
                _ => OpAction::ListDevices,
            },
        }
    }

    fn on_loops(&mut self, ev: OpEvent) -> (r: OpAction)
        requires
            old(self)@.phase == AttachPhase::RetrySleep || old(self)@.phase
                == AttachPhase::RetryList || old(self)@.phase == AttachPhase::PollList || old(
                self,
            )@.phase == AttachPhase::PollSleep,
            attach_awaits(old(self)@, ev@),
            attach_wf(old(self)@),
        ensures
            (final(self)@, r@) == attach_next(old(self)@, ev@),
            attach_wf(final(self)@),
    {
        match self.phase {
            AttachPhase::RetrySleep => {
                self.phase = AttachPhase::RetryList;
                OpAction::ListDevices
            },
            AttachPhase::RetryList => match &ev {
                OpEvent::Listed(r) => {
                    if self.is_listed_attached(r) {
                        self.attached = true;
                        self.after_loop()
                    } else {
                        self.rac_begin(RacCtx::Retry)
                    }
                },
                _ => OpAction::ListDevices,
            },
            AttachPhase::PollList => match &ev {
                OpEvent::Listed(r) => {
                    if self.is_listed_attached(r) {
                        self.attached = true;
                        self.final_decide()
                    } else {
                        self.poll_after_list()
                    }
                },
                _ => OpAction::ListDevices,
            },
            _ => {
                let next = self.poll + 1;
                self.poll_enter(next)
            },
        }
    }

    pub fn step(&mut self, ev: OpEvent) -> (r: OpAction)
        requires
            attach_awaits(old(self)@, ev@),
            attach_wf(old(self)@),
        ensures
            (final(self)@, r@) == attach_next(old(self)@, ev@),
            attach_wf(final(self)@),
    {
        match self.phase {
            AttachPhase::Binding => self.on_binding(ev),
            AttachPhase::BindSettle => {
                self.phase = AttachPhase::BoundList;
                OpAction::ListDevices
            },
            AttachPhase::BoundList | AttachPhase::FreshList => self.on_state_list(ev),
            AttachPhase::DaemonCheck => self.on_daemon_check(ev),
            AttachPhase::RacRun | AttachPhase::RacSleep | AttachPhase::RacList => self.on_rac(ev),
            AttachPhase::RetrySleep | AttachPhase::RetryList | AttachPhase::PollList
            | AttachPhase::PollSleep => self.on_loops(ev),
            AttachPhase::Spawning => match ev {
                OpEvent::Spawned(Err(e)) => {
                    self.phase = AttachPhase::Done;
                    OpAction::Finish(Err(e))
                },
                _ => {
                    self.phase = AttachPhase::Done;
                    OpAction::Finish(Ok(t(Msg::AutoAttachDaemonExit, self.zh)))
                },
            },
            AttachPhase::Done => OpAction::ListDevices,
        }
    }
}

} // verus!
