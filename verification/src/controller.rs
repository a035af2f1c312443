//! The window's state machine: what each message from the workers, each
//! widget action and each frame changes, and which outside work (saving the
//! configuration, reading the device state, running an operation, stopping
//! daemons, repainting) it asks for. Times are readings of a millisecond
//! clock that the caller supplies.

use vstd::prelude::*;
use crate::config::{
    AppConfig, AppConfigView, DeviceView, SystemConfig, SystemConfigView, UsbDevice,
    default_app_config, device_views, in_list, short_name_of, with_added, without,
};
use crate::lang::{Msg, msg_text, t};
use crate::model::{
    Action, device_with_hw, row_with_hw, row_index, device_index, CLOCK_LIMIT, DevRow, Dialog, RowView, Tab, Toast, ToastKind, UiMsg, auto_pick,
    auto_rows, auto_rows_of, book_pending, change_notices, change_texts, device_rows,
    hardware_ids, hws_of, opt_dev, opt_str, opt_u64, pending_insert, pending_time, pending_views,
    persisted_of, persisted_rows, pick_auto_attach, restore_selection, restored, row_views,
    rows_of, str_views, times_in_range, visible_hws, visible_ids, elapsed, lookup_pending,
    wants_attach,
};
use crate::snapshot::{by_instance, diff_snapshots, missing_from, same_snapshot};
use crate::text::{chars_of, eq_ignore_ascii_case, eq_ignore_case};
use crate::usbipd::{Usbipd, UsbipdView, id_of, id_spec};

verus! {

/// After a USB signal, the state is read no sooner than this after the
/// previous signal-driven read.
pub const USB_EVENT_COOLDOWN_MS: u64 = 900;

/// Spacing of the extra state reads after a signal.
pub const USB_RECHECK_INTERVAL_MS: u64 = 600;

/// Extra state reads after a signal, for a state that lags behind it.
pub const USB_RECHECK_LIMIT: u8 = 2;

/// A device that vanishes this soon after an automatic attach started keeps
/// its daemon.
pub const ATTACH_GUARD_WINDOW_MS: u64 = 15_000;

/// Spacing of the rounds of the auto-attach watchdog.
pub const AUTO_WATCH_INTERVAL_MS: u64 = 200;

/// Rounds of the auto-attach watchdog per arming.
pub const AUTO_WATCH_ROUNDS: u8 = 3;

// ---------------------------------------------------------------------------
// Outside work
// ---------------------------------------------------------------------------

/// A usbipd operation to run in the background; its end is reported with
/// [`UiMsg::OpDone`] as [`op_done`] words it.
pub enum OpRequest {
    Bind { dev: UsbDevice, use_bus_id: bool },
    Unbind { dev: UsbDevice, use_bus_id: bool },
    UnbindAll { devices: Vec<UsbDevice>, use_bus_id: bool },
    Attach { dev: UsbDevice, auto: bool, config: AppConfig },
    Detach { dev: UsbDevice, use_bus_id: bool },
}

pub ghost enum OpRequestView {
    Bind { dev: DeviceView, use_bus_id: bool },
    Unbind { dev: DeviceView, use_bus_id: bool },
    UnbindAll { devices: Seq<DeviceView>, use_bus_id: bool },
    Attach { dev: DeviceView, auto: bool, config: AppConfigView },
    Detach { dev: DeviceView, use_bus_id: bool },
}

impl View for OpRequest {
    type V = OpRequestView;

    open spec fn view(&self) -> OpRequestView {
        match self {
            OpRequest::Bind { dev, use_bus_id } => OpRequestView::Bind {
                dev: dev@,
                use_bus_id: *use_bus_id,
            },
            OpRequest::Unbind { dev, use_bus_id } => OpRequestView::Unbind {
                dev: dev@,
                use_bus_id: *use_bus_id,
            },
            OpRequest::UnbindAll { devices, use_bus_id } => OpRequestView::UnbindAll {
                devices: device_views(devices@),
                use_bus_id: *use_bus_id,
            },
            OpRequest::Attach { dev, auto, config } => OpRequestView::Attach {
                dev: dev@,
                auto: *auto,
                config: config@,
            },
            OpRequest::Detach { dev, use_bus_id } => OpRequestView::Detach {
                dev: dev@,
                use_bus_id: *use_bus_id,
            },
        }
    }
}

/// Outside work the window asks for.
pub enum Effect {
    /// Write [`App::cfg`] to `config.json`.
    SaveConfig,
    /// Apply the configured theme and language to the window.
    ApplyTheme,
    /// Relabel the tray menu in the current language.
    UpdateTrayLanguage,
    /// Read `usbipd state` in the background; answer with [`UiMsg::Lists`]
    /// or [`UiMsg::ListFailed`].
    Refresh,
    /// Run a usbipd operation in the background.
    RunOp(OpRequest),
    Repaint,
    RepaintAfter(u64),
    /// Make the window visible and focus it.
    ShowWindow,
    /// Let the window close.
    CloseWindow,
    /// Keep the window open although closing was asked for.
    CancelClose,
    /// Hide the window (it stays in the tray).
    HideWindow,
    SetTitle(String),
    /// When an `attach` daemon for `id` is alive although the device is not
    /// attached, stop the daemons mentioning [`stale_needles`] of them.
    StopStaleDaemons { id: String, hardware_id: String },
    /// Unless an `attach` daemon for `id` is alive, stop the daemons
    /// mentioning each of `needles`.
    StopRemovedDaemons { id: String, needles: Vec<String> },
    /// Read the network cards for the settings; answer with
    /// [`App::set_netcards`].
    LoadNetcards,
    ClearLogs,
    OpenConfigDir,
    /// Stop every daemon, the USB monitor and the tray icon.
    StopAll,
}

pub ghost enum EffectView {
    SaveConfig,
    ApplyTheme,
    UpdateTrayLanguage,
    Refresh,
    RunOp(OpRequestView),
    Repaint,
    RepaintAfter(u64),
    ShowWindow,
    CloseWindow,
    CancelClose,
    HideWindow,
    SetTitle(Seq<char>),
    StopStaleDaemons { id: Seq<char>, hardware_id: Seq<char> },
    StopRemovedDaemons { id: Seq<char>, needles: Seq<Seq<char>> },
    LoadNetcards,
    ClearLogs,
    OpenConfigDir,
    StopAll,
}

impl View for Effect {
    type V = EffectView;

    open spec fn view(&self) -> EffectView {
        match self {
            Effect::SaveConfig => EffectView::SaveConfig,
            Effect::ApplyTheme => EffectView::ApplyTheme,
            Effect::UpdateTrayLanguage => EffectView::UpdateTrayLanguage,
            Effect::Refresh => EffectView::Refresh,
            Effect::RunOp(r) => EffectView::RunOp(r@),
            Effect::Repaint => EffectView::Repaint,
            Effect::RepaintAfter(ms) => EffectView::RepaintAfter(*ms),
            Effect::ShowWindow => EffectView::ShowWindow,
            Effect::CloseWindow => EffectView::CloseWindow,
            Effect::CancelClose => EffectView::CancelClose,
            Effect::HideWindow => EffectView::HideWindow,
            Effect::SetTitle(s) => EffectView::SetTitle(s@),
            Effect::StopStaleDaemons { id, hardware_id } => EffectView::StopStaleDaemons {
                id: id@,
                hardware_id: hardware_id@,
            },
            Effect::StopRemovedDaemons { id, needles } => EffectView::StopRemovedDaemons {
                id: id@,
                needles: str_views(needles@),
            },
            Effect::LoadNetcards => EffectView::LoadNetcards,
            Effect::ClearLogs => EffectView::ClearLogs,
            Effect::OpenConfigDir => EffectView::OpenConfigDir,
            Effect::StopAll => EffectView::StopAll,
        }
    }
}

pub open spec fn effect_views(v: Seq<Effect>) -> Seq<EffectView> {
    v.map_values(|e: Effect| e@)
}

fn emit(fx: &mut Vec<Effect>, e: Effect)
    ensures
        effect_views(final(fx)@) == effect_views(old(fx)@).push(e@),
{
    let ghost before = effect_views(fx@);
    fx.push(e);
    assert(effect_views(fx@) =~= before.push(e@));
}

/// The daemons to stop when an `attach` daemon for `id` is alive while the
/// device is not attached: those for `id`, and those for the hardware id when
/// it is not empty and differs from `id`. None when no such daemon is alive.
pub open spec fn stale_needle_list(attaching: bool, id: Seq<char>, hw: Seq<char>) -> Seq<Seq<char>> {
    if !attaching {
        Seq::empty()
    } else if hw.len() > 0 && id != hw {
        seq![id, hw]
    } else {
        seq![id]
    }
}

pub fn stale_needles(attaching: bool, id: &String, hardware_id: &String) -> (r: Vec<String>)
    ensures
        str_views(r@) == stale_needle_list(attaching, id@, hardware_id@),
{
    let mut r: Vec<String> = Vec::new();
    if attaching {
        r.push(id.clone());
        let x = chars_of(id.as_str());
        let y = chars_of(hardware_id.as_str());
        if y.len() > 0 && !crate::usbipd::same_chars(&x, &y) {
            r.push(hardware_id.clone());
        }
    }
    assert(str_views(r@) =~= stale_needle_list(attaching, id@, hardware_id@));
    r
}

/// The daemons to stop for a device that left the state while attached:
/// nothing while an `attach` daemon for its id is alive (an attach is under
/// way); otherwise those mentioning its bus id and its hardware id, each when
/// not empty.
pub open spec fn removal_needle_list(attaching: bool, needles: Seq<Seq<char>>) -> Seq<Seq<char>> {
    if attaching {
        Seq::empty()
    } else {
        needles
    }
}

pub fn removal_needles(attaching: bool, needles: Vec<String>) -> (r: Vec<String>)
    ensures
        str_views(r@) == removal_needle_list(attaching, str_views(needles@)),
{
    if attaching {
        let r: Vec<String> = Vec::new();
        assert(str_views(r@) =~= Seq::<Seq<char>>::empty());
        r
    } else {
        needles
    }
}

// ---------------------------------------------------------------------------
// The state
// ---------------------------------------------------------------------------

pub ghost struct ToastView {
    pub kind: ToastKind,
    pub text: Seq<char>,
    pub expires: int,
}

impl View for Toast {
    type V = ToastView;

    open spec fn view(&self) -> ToastView {
        ToastView { kind: self.kind, text: self.text@, expires: self.expires as int }
    }
}

pub open spec fn toast_views(v: Seq<Toast>) -> Seq<ToastView> {
    v.map_values(|t: Toast| t@)
}

pub open spec fn card_views(v: Seq<(String, String)>) -> Seq<(Seq<char>, Seq<char>)> {
    v.map_values(|c: (String, String)| (c.0@, c.1@))
}

pub open spec fn dialog_view(d: Option<Dialog>) -> Option<(Seq<char>, Seq<char>)> {
    match d {
        Some(d) => Some((d.title@, d.message@)),
        None => None,
    }
}

pub open spec fn usbipd_view(u: Option<Usbipd>) -> Option<UsbipdView> {
    match u {
        Some(u) => Some(u@),
        None => None,
    }
}

pub open spec fn opt_time(o: Option<u64>) -> Option<int> {
    match o {
        Some(t) => Some(t as int),
        None => None,
    }
}

pub open spec fn opt_devices(o: Option<Vec<UsbDevice>>) -> Option<Seq<DeviceView>> {
    match o {
        Some(v) => Some(device_views(v@)),
        None => None,
    }
}

/// The on/off state of the window.
#[derive(Debug, Clone, Copy, PartialEq, Eq, Structural)]
pub struct Flags {
    /// A state read or an operation runs.
    pub busy: bool,
    /// The first state read was applied.
    pub initialized: bool,
    /// A state read is due once the window is no longer busy.
    pub need_refresh: bool,
    /// A quiet state read runs.
    pub quiet_inflight: bool,
    pub exiting: bool,
    pub hidden: bool,
    pub show_settings: bool,
    /// Texts are in Chinese.
    pub zh: bool,
}

/// What the window learned from outside: the usbipd installation, the
/// network cards, whether it has a tray icon.
pub struct Env {
    usbipd: Option<Usbipd>,
    netcards: Vec<(String, String)>,
    has_tray: bool,
}

pub ghost struct EnvView {
    pub usbipd: Option<UsbipdView>,
    pub netcards: Seq<(Seq<char>, Seq<char>)>,
    pub has_tray: bool,
}

impl View for Env {
    type V = EnvView;

    closed spec fn view(&self) -> EnvView {
        EnvView {
            usbipd: usbipd_view(self.usbipd),
            netcards: card_views(self.netcards@),
            has_tray: self.has_tray,
        }
    }
}

/// The three tabs: their rows and selections.
pub struct Lists {
    tab: Tab,
    device_rows: Vec<DevRow>,
    persisted_rows: Vec<UsbDevice>,
    auto_rows: Vec<UsbDevice>,
    sel_devices: Option<String>,
    sel_persisted: Option<String>,
    sel_auto: Option<String>,
    show_filtered: bool,
}

pub ghost struct ListsView {
    pub tab: Tab,
    pub rows: Seq<RowView>,
    pub persisted: Seq<DeviceView>,
    pub auto: Seq<DeviceView>,
    pub sel_devices: Option<Seq<char>>,
    pub sel_persisted: Option<Seq<char>>,
    pub sel_auto: Option<Seq<char>>,
    pub show_filtered: bool,
}

impl View for Lists {
    type V = ListsView;

    closed spec fn view(&self) -> ListsView {
        ListsView {
            tab: self.tab,
            rows: row_views(self.device_rows@),
            persisted: device_views(self.persisted_rows@),
            auto: device_views(self.auto_rows@),
            sel_devices: opt_str(self.sel_devices),
            sel_persisted: opt_str(self.sel_persisted),
            sel_auto: opt_str(self.sel_auto),
            show_filtered: self.show_filtered,
        }
    }
}

/// Following the USB signals and the state reads they cause.
pub struct UsbWatch {
    activity_pending: bool,
    rechecks: u8,
    last_refresh: Option<u64>,
    snapshot: Option<Vec<UsbDevice>>,
}

pub ghost struct UsbView {
    pub activity_pending: bool,
    pub rechecks: u8,
    pub last_refresh: Option<u64>,
    pub snapshot: Option<Seq<DeviceView>>,
}

impl View for UsbWatch {
    type V = UsbView;

    closed spec fn view(&self) -> UsbView {
        UsbView {
            activity_pending: self.activity_pending,
            rechecks: self.rechecks,
            last_refresh: self.last_refresh,
            snapshot: opt_devices(self.snapshot),
        }
    }
}

/// The automatic attach: when each device was last tried, when deferred
/// devices are due, and the watchdog rounds.
pub struct AutoState {
    pending: Vec<(String, u64)>,
    retry_at: Option<u64>,
    watch_rounds: u8,
    watch_exhausted: bool,
    watch_next: Option<u64>,
}

pub ghost struct AutoView {
    pub pending: Seq<(Seq<char>, u64)>,
    pub retry_at: Option<int>,
    pub watch_rounds: u8,
    pub watch_exhausted: bool,
    pub watch_next: Option<u64>,
}

impl View for AutoState {
    type V = AutoView;

    closed spec fn view(&self) -> AutoView {
        AutoView {
            pending: pending_views(self.pending@),
            retry_at: opt_time(self.retry_at),
            watch_rounds: self.watch_rounds,
            watch_exhausted: self.watch_exhausted,
            watch_next: self.watch_next,
        }
    }
}

/// The settings draft, the notices, the message box and the title shown.
pub struct Surface {
    draft: AppConfig,
    toasts: Vec<Toast>,
    dialog: Option<Dialog>,
    last_title: Option<String>,
}

pub ghost struct SurfaceView {
    pub draft: AppConfigView,
    pub toasts: Seq<ToastView>,
    pub dialog: Option<(Seq<char>, Seq<char>)>,
    pub last_title: Option<Seq<char>>,
}

impl View for Surface {
    type V = SurfaceView;

    closed spec fn view(&self) -> SurfaceView {
        SurfaceView {
            draft: self.draft@,
            toasts: toast_views(self.toasts@),
            dialog: dialog_view(self.dialog),
            last_title: opt_str(self.last_title),
        }
    }
}

/// The window's state, as the contracts see it.
pub ghost struct AppView {
    pub cfg: SystemConfigView,
    pub env: EnvView,
    pub lists: ListsView,
    pub flags: Flags,
    pub usb: UsbView,
    pub auto: AutoView,
    pub ui: SurfaceView,
}

/// The window's state.
pub struct App {
    cfg: SystemConfig,
    env: Env,
    lists: Lists,
    flags: Flags,
    usb: UsbWatch,
    auto: AutoState,
    ui: Surface,
}

impl View for App {
    type V = AppView;

    closed spec fn view(&self) -> AppView {
        AppView {
            cfg: self.cfg@,
            env: self.env@,
            lists: self.lists@,
            flags: self.flags,
            usb: self.usb@,
            auto: self.auto@,
            ui: self.ui@,
        }
    }
}

/// What every state keeps: the booked attach times are clock readings in
/// range, and the counters stay within their limits.
pub open spec fn app_wf(s: AppView) -> bool {
    &&& times_in_range(s.auto.pending)
    &&& s.usb.rechecks <= USB_RECHECK_LIMIT
    &&& s.auto.watch_rounds <= AUTO_WATCH_ROUNDS
}

/// The language `zh` is when the configuration names none.
pub open spec fn lang_zh(lang: Seq<char>, fallback: bool) -> bool {
    if lang.len() == 0 {
        fallback
    } else {
        eq_ignore_case(lang, "zh"@)
    }
}

pub open spec fn lang_word(zh: bool) -> Seq<char> {
    if zh {
        "zh"@
    } else {
        "en"@
    }
}

/// The state a window starts in.
pub open spec fn initial_view(cfg: SystemConfigView, system_zh: bool, has_tray: bool) -> AppView {
    AppView {
        cfg,
        env: EnvView { usbipd: None, netcards: Seq::empty(), has_tray },
        lists: ListsView {
            tab: Tab::Devices,
            rows: Seq::empty(),
            persisted: Seq::empty(),
            auto: Seq::empty(),
            sel_devices: None,
            sel_persisted: None,
            sel_auto: None,
            show_filtered: false,
        },
        flags: Flags {
            busy: true,
            initialized: false,
            need_refresh: false,
            quiet_inflight: false,
            exiting: false,
            hidden: false,
            show_settings: false,
            zh: lang_zh(cfg.app_config.lang, system_zh),
        },
        usb: UsbView { activity_pending: false, rechecks: 0, last_refresh: None, snapshot: None },
        auto: AutoView {
            pending: Seq::empty(),
            retry_at: None,
            watch_rounds: 0,
            watch_exhausted: false,
            watch_next: None,
        },
        ui: SurfaceView {
            draft: default_app_config(),
            toasts: Seq::empty(),
            dialog: None,
            last_title: None,
        },
    }
}

// ---------------------------------------------------------------------------
// Transitions, as the contracts state them
// ---------------------------------------------------------------------------

pub type Step = (AppView, Seq<EffectView>);

pub open spec fn with_flags(s: AppView, f: Flags) -> AppView {
    AppView { flags: f, ..s }
}

/// Ask for a state read unless one is running (then remember to ask later);
/// without a usbipd installation, just stop being busy.
pub open spec fn refresh_step(s: AppView) -> Step {
    if s.flags.busy {
        (with_flags(s, Flags { need_refresh: true, ..s.flags }), Seq::empty())
    } else if s.env.usbipd is None {
        (with_flags(s, Flags { busy: false, ..s.flags }), Seq::empty())
    } else {
        (with_flags(s, Flags { busy: true, ..s.flags }), seq![EffectView::Refresh])
    }
}

/// A state read that does not make the window busy.
pub open spec fn quiet_poll_step(s: AppView) -> Step {
    if s.flags.quiet_inflight || s.env.usbipd is None {
        (s, Seq::empty())
    } else {
        (with_flags(s, Flags { quiet_inflight: true, ..s.flags }), seq![EffectView::Refresh])
    }
}

/// Start an operation unless one is running.
pub open spec fn run_op_step(s: AppView, req: OpRequestView) -> Step {
    if s.flags.busy {
        (s, Seq::empty())
    } else {
        (with_flags(s, Flags { busy: true, ..s.flags }), seq![EffectView::RunOp(req)])
    }
}

pub open spec fn attach_step(s: AppView, dev: DeviceView, auto: bool) -> Step {
    if s.env.usbipd is None {
        (s, Seq::empty())
    } else {
        run_op_step(s, OpRequestView::Attach { dev, auto, config: s.cfg.app_config })
    }
}

/// The configuration is saved with a language filled in.
pub open spec fn save_step(s: AppView) -> Step {
    let s1 = if s.cfg.app_config.lang.len() == 0 {
        AppView {
            cfg: SystemConfigView {
                app_config: AppConfigView { lang: lang_word(s.flags.zh), ..s.cfg.app_config },
                ..s.cfg
            },
            ..s
        }
    } else {
        s
    };
    (s1, seq![EffectView::SaveConfig])
}

pub open spec fn theme_step(s: AppView) -> Step {
    (
        with_flags(s, Flags { zh: lang_zh(s.cfg.app_config.lang, s.flags.zh), ..s.flags }),
        seq![EffectView::ApplyTheme],
    )
}

/// Every tab's selection after its rows changed (see [`restored`]).
pub open spec fn restore_lists(l: ListsView) -> ListsView {
    ListsView {
        sel_devices: restored(l.sel_devices, visible_hws(l.rows, l.show_filtered)),
        sel_persisted: restored(l.sel_persisted, hws_of(l.persisted)),
        sel_auto: restored(l.sel_auto, hws_of(l.auto)),
        ..l
    }
}

/// One evaluation of the automatic attach: nothing before the first state
/// read or while busy; otherwise the first ready row (see [`auto_pick`]) has
/// stale daemons stopped, its attach time booked and an automatic attach
/// started, and the retry time of the deferred rows is remembered.
pub open spec fn auto_attach_step(s: AppView, forced: bool, now: u64) -> Step {
    if !s.flags.initialized || s.flags.busy {
        (s, Seq::empty())
    } else {
        let (cand, retry) = auto_pick(s.lists.rows, s.auto.pending, now, forced);
        match cand {
            Some(d) => {
                let s1 = AppView {
                    auto: AutoView {
                        pending: pending_insert(s.auto.pending, d.hardware_id, now),
                        ..s.auto
                    },
                    ..s
                };
                let (s2, e2) = attach_step(s1, d, true);
                (
                    AppView { auto: AutoView { retry_at: retry, ..s2.auto }, ..s2 },
                    seq![
                        EffectView::StopStaleDaemons {
                            id: id_spec(d, s.cfg.app_config.use_bus_id),
                            hardware_id: d.hardware_id,
                        },
                    ] + e2,
                )
            },
            None => (AppView { auto: AutoView { retry_at: retry, ..s.auto }, ..s }, Seq::empty()),
        }
    }
}

/// The lists rebuilt from a snapshot, selections restored, the window marked
/// initialized, and an automatic attach evaluated.
pub open spec fn lists_step(s: AppView, all: Seq<DeviceView>, now: u64) -> Step {
    let l1 = ListsView {
        rows: rows_of(all, s.cfg),
        persisted: persisted_of(all),
        auto: auto_rows_of(s.cfg.auto_list, all),
        ..s.lists
    };
    let s1 = AppView {
        lists: restore_lists(l1),
        flags: Flags { initialized: true, ..s.flags },
        ..s
    };
    auto_attach_step(s1, false, now)
}


// ---------------------------------------------------------------------------
// State reads and USB signals
// ---------------------------------------------------------------------------

/// The notices for `texts`, all of one kind and expiry.
pub open spec fn toasts_of(texts: Seq<Seq<char>>, kind: ToastKind, expires: int) -> Seq<ToastView> {
    texts.map_values(|t: Seq<char>| ToastView { kind, text: t, expires })
}

/// An automatic attach of this device started less than the guard window ago.
pub open spec fn attach_guarded(p: Seq<(Seq<char>, u64)>, d: DeviceView, now: u64) -> bool {
    pending_time(p, d.hardware_id) matches Some(t) && elapsed(now, t) < ATTACH_GUARD_WINDOW_MS
}

/// The texts whose daemons a vanished device loses: its bus id and its
/// hardware id, each when not empty.
pub open spec fn removal_needles_of(d: DeviceView) -> Seq<Seq<char>> {
    (if d.bus_id.len() > 0 {
        seq![d.bus_id]
    } else {
        Seq::empty()
    }) + (if d.hardware_id.len() > 0 {
        seq![d.hardware_id]
    } else {
        Seq::empty()
    })
}

/// A device that left the state while attached loses its daemons, unless an
/// automatic attach of it started within the guard window.
pub open spec fn stops_removal(s: AppView, d: DeviceView, now: u64) -> bool {
    d.is_attached && !attach_guarded(s.auto.pending, d, now)
}

pub open spec fn removal_effect(s: AppView, d: DeviceView) -> EffectView {
    EffectView::StopRemovedDaemons {
        id: id_spec(d, s.cfg.app_config.use_bus_id),
        needles: removal_needles_of(d),
    }
}

/// The vanished devices that lose their daemons, in order.
pub open spec fn removal_targets(s: AppView, removed: Seq<DeviceView>, now: u64) -> Seq<DeviceView> {
    removed.filter(|d: DeviceView| stops_removal(s, d, now))
}

pub open spec fn removal_effects(s: AppView, removed: Seq<DeviceView>, now: u64) -> Seq<EffectView> {
    removal_targets(s, removed, now).map_values(|d: DeviceView| removal_effect(s, d))
}

/// A state read that shows no change: while a USB signal waits, look again
/// after the cool-down; while extra reads are left, use one up and schedule
/// the next; otherwise nothing.
pub open spec fn unchanged_step(s: AppView) -> Step {
    if s.usb.activity_pending {
        (s, seq![EffectView::RepaintAfter(USB_EVENT_COOLDOWN_MS)])
    } else if s.usb.rechecks > 0 {
        let r = (s.usb.rechecks - 1) as u8;
        (
            AppView { usb: UsbView { rechecks: r, ..s.usb }, ..s },
            if r > 0 {
                seq![EffectView::RepaintAfter(USB_RECHECK_INTERVAL_MS)]
            } else {
                Seq::empty()
            },
        )
    } else {
        (s, Seq::empty())
    }
}

/// A state read applied: unchanged (same records sorted by instance id) is
/// handled by [`unchanged_step`]; otherwise the devices that vanished lose
/// their daemons, every change gets a notice, the extra reads stop, the
/// watchdog may arm again, the snapshot is kept and the lists are rebuilt.
pub open spec fn snapshot_step(s: AppView, devs: Seq<DeviceView>, now: u64) -> Step {
    if same_state(s, devs) {
        unchanged_step(s)
    } else {
        changed_step(s, devs, now)
    }
}

/// The read shows the same records as the kept snapshot, sorted by
/// instance id.
pub open spec fn same_state(s: AppView, devs: Seq<DeviceView>) -> bool {
    s.usb.snapshot matches Some(prev) && by_instance(prev) == by_instance(devs)
}

/// The devices of the kept snapshot that the read lacks, and the new ones
/// (nothing before the first read).
pub open spec fn removed_of(s: AppView, devs: Seq<DeviceView>) -> Seq<DeviceView> {
    match s.usb.snapshot {
        Some(prev) => missing_from(prev, devs),
        None => Seq::empty(),
    }
}

pub open spec fn added_of(s: AppView, devs: Seq<DeviceView>) -> Seq<DeviceView> {
    match s.usb.snapshot {
        Some(prev) => missing_from(devs, prev),
        None => Seq::empty(),
    }
}

/// A read that changed the state (or the first one).
pub open spec fn changed_step(s: AppView, devs: Seq<DeviceView>, now: u64) -> Step {
    let toasts = if s.usb.snapshot is Some {
        s.ui.toasts + toasts_of(
            change_texts(removed_of(s, devs), added_of(s, devs), s.flags.zh),
            ToastKind::Info,
            now + 5_000,
        )
    } else {
        s.ui.toasts
    };
    let s1 = AppView {
        ui: SurfaceView { toasts, ..s.ui },
        usb: UsbView { rechecks: 0, snapshot: Some(devs), ..s.usb },
        auto: AutoView { watch_exhausted: false, ..s.auto },
        ..s
    };
    let (s2, e2) = lists_step(s1, devs, now);
    (s2, removal_effects(s, removed_of(s, devs), now) + e2 + seq![EffectView::Repaint])
}

/// A USB signal: read the state soon, with the extra reads armed.
pub open spec fn activity_step(s: AppView) -> Step {
    (
        AppView {
            usb: UsbView { activity_pending: true, rechecks: USB_RECHECK_LIMIT, ..s.usb },
            ..s
        },
        seq![EffectView::RepaintAfter(120)],
    )
}

/// Once per frame: while busy, come back soon if a read is wanted; a waiting
/// USB signal reads the state unless the previous signal-driven read is
/// younger than the cool-down; an extra read waits for its interval.
pub open spec fn flush_step(s: AppView, now: u64) -> Step {
    if s.flags.busy {
        (
            s,
            if s.usb.activity_pending || s.usb.rechecks > 0 {
                seq![EffectView::RepaintAfter(100)]
            } else {
                Seq::empty()
            },
        )
    } else if s.usb.activity_pending {
        if s.usb.last_refresh matches Some(t) && elapsed(now, t) < USB_EVENT_COOLDOWN_MS {
            (s, seq![EffectView::RepaintAfter(USB_EVENT_COOLDOWN_MS)])
        } else {
            refresh_step(
                AppView {
                    usb: UsbView { activity_pending: false, last_refresh: Some(now), ..s.usb },
                    ..s
                },
            )
        }
    } else if s.usb.rechecks > 0 {
        if s.usb.last_refresh matches Some(t) && elapsed(now, t) < USB_RECHECK_INTERVAL_MS {
            (s, seq![EffectView::RepaintAfter(USB_RECHECK_INTERVAL_MS)])
        } else {
            refresh_step(AppView { usb: UsbView { last_refresh: Some(now), ..s.usb }, ..s })
        }
    } else {
        (s, Seq::empty())
    }
}

/// When the deferred automatic attaches are due, ask for a state read
/// (which evaluates them again); before that, come back when they are due.
pub open spec fn retry_check_step(s: AppView, now: u64) -> Step {
    match s.auto.retry_at {
        None => (s, Seq::empty()),
        Some(d) => if now >= d {
            (
                AppView {
                    auto: AutoView { retry_at: None, ..s.auto },
                    flags: Flags { need_refresh: true, ..s.flags },
                    ..s
                },
                seq![EffectView::Repaint],
            )
        } else {
            (s, seq![EffectView::RepaintAfter((d - now) as u64)])
        },
    }
}

pub open spec fn any_wants_attach(rows: Seq<RowView>) -> bool {
    exists|i: int| 0 <= i < rows.len() && wants_attach(#[trigger] rows[i])
}

/// The auto-attach watchdog: while an auto-attach device is connected but
/// not attached, up to three rounds 200 ms apart each read the state
/// quietly and attach regardless of the debounce; then it rests until the
/// state changes. With no such device it disarms.
pub open spec fn watch_step(s: AppView, now: u64) -> Step {
    if !s.flags.initialized || s.flags.busy {
        (s, Seq::empty())
    } else if !any_wants_attach(s.lists.rows) {
        (
            AppView {
                auto: AutoView { watch_rounds: 0, watch_next: None, watch_exhausted: false, ..s.auto },
                ..s
            },
            Seq::empty(),
        )
    } else if s.auto.watch_exhausted {
        (s, Seq::empty())
    } else {
        let s1 = if s.auto.watch_rounds == 0 {
            AppView {
                auto: AutoView { watch_rounds: AUTO_WATCH_ROUNDS, watch_next: None, ..s.auto },
                ..s
            }
        } else {
            s
        };
        if s1.auto.watch_next matches Some(t) && now < t {
            (s1, seq![EffectView::RepaintAfter(AUTO_WATCH_INTERVAL_MS)])
        } else {
            let rounds = (s1.auto.watch_rounds - 1) as u8;
            let s2 = AppView {
                auto: AutoView {
                    watch_next: Some((now + AUTO_WATCH_INTERVAL_MS) as u64),
                    watch_rounds: rounds,
                    ..s1.auto
                },
                ..s1
            };
            let (s3, e3) = quiet_poll_step(s2);
            let (s4, e4) = auto_attach_step(s3, true, now);
            let s5 = if rounds == 0 {
                AppView { auto: AutoView { watch_exhausted: true, ..s4.auto }, ..s4 }
            } else {
                s4
            };
            (s5, seq![EffectView::RepaintAfter(AUTO_WATCH_INTERVAL_MS)] + e3 + e4)
        }
    }
}


// ---------------------------------------------------------------------------
// Messages from the workers and the tray
// ---------------------------------------------------------------------------

pub ghost enum MsgView {
    Error(Seq<char>),
    Lists(Seq<DeviceView>),
    ListFailed(Seq<char>),
    OpDone { ok: bool, message: Seq<char> },
    UsbActivity,
    ShowWindow,
    ExitApp,
    UsbipdReady(Result<(UsbipdView, Option<Seq<char>>), Seq<char>>),
}

impl View for UiMsg {
    type V = MsgView;

    open spec fn view(&self) -> MsgView {
        match self {
            UiMsg::Error(t) => MsgView::Error(t@),
            UiMsg::Lists(v) => MsgView::Lists(device_views(v@)),
            UiMsg::ListFailed(e) => MsgView::ListFailed(e@),
            UiMsg::OpDone { ok, message } => MsgView::OpDone { ok: *ok, message: message@ },
            UiMsg::UsbActivity => MsgView::UsbActivity,
            UiMsg::ShowWindow => MsgView::ShowWindow,
            UiMsg::ExitApp => MsgView::ExitApp,
            UiMsg::UsbipdReady(r) => MsgView::UsbipdReady(
                match r {
                    Ok((u, w)) => Ok((u@, opt_str(*w))),
                    Err(e) => Err(e@),
                },
            ),
        }
    }
}

pub open spec fn msg_views(v: Seq<UiMsg>) -> Seq<MsgView> {
    v.map_values(|m: UiMsg| m@)
}

pub open spec fn with_toast(s: AppView, kind: ToastKind, text: Seq<char>, expires: int) -> AppView {
    AppView {
        ui: SurfaceView {
            toasts: s.ui.toasts.push(ToastView { kind, text, expires }),
            ..s.ui
        },
        ..s
    }
}

pub open spec fn with_dialog(s: AppView, title: Seq<char>, message: Seq<char>) -> AppView {
    AppView { ui: SurfaceView { dialog: Some((title, message)), ..s.ui }, ..s }
}

/// One message: an error opens a message box; a state read is applied; a
/// failed read only gives a notice once the lists are up (it never clears
/// them), a message box before; a finished operation gives a notice on
/// success, a message box on a failure with a text, and asks for a state
/// read; the usbipd check either enables state reads (with its warning as a
/// notice) or opens a message box.
pub open spec fn message_step(s: AppView, m: MsgView, now: u64) -> Step {
    let zh = s.flags.zh;
    match m {
        MsgView::Error(text) => (with_dialog(s, msg_text(Msg::Error, zh), text), Seq::empty()),
        MsgView::Lists(devs) => snapshot_step(
            with_flags(s, Flags { busy: false, quiet_inflight: false, ..s.flags }),
            devs,
            now,
        ),
        MsgView::ListFailed(e) => {
            let s1 = with_flags(s, Flags { busy: false, quiet_inflight: false, ..s.flags });
            let s2 = if s.flags.initialized {
                with_toast(s1, ToastKind::Error, e, now + 6_000)
            } else {
                with_dialog(s1, msg_text(Msg::Error, zh), e)
            };
            (s2, seq![EffectView::Repaint])
        },
        MsgView::UsbActivity => activity_step(s),
        MsgView::OpDone { ok, message } => {
            let s1 = with_flags(s, Flags { busy: false, ..s.flags });
            let s2 = if ok {
                with_toast(s1, ToastKind::Success, message, now + 4_000)
            } else if message.len() > 0 {
                with_dialog(s1, msg_text(Msg::Error, zh), message)
            } else {
                s1
            };
            (with_flags(s2, Flags { need_refresh: true, ..s2.flags }), seq![EffectView::Repaint])
        },
        MsgView::ShowWindow => (
            with_flags(s, Flags { hidden: false, ..s.flags }),
            seq![EffectView::ShowWindow, EffectView::Repaint],
        ),
        MsgView::ExitApp => (
            with_flags(s, Flags { exiting: true, ..s.flags }),
            seq![EffectView::CloseWindow],
        ),
        MsgView::UsbipdReady(Ok((u, w))) => ready_step(s, u, w, now),
        MsgView::UsbipdReady(Err(e)) => (
            with_dialog(
                with_flags(s, Flags { busy: false, ..s.flags }),
                msg_text(Msg::UsbipdCheckFailed, zh),
                e,
            ),
            Seq::empty(),
        ),
    }
}

/// usbipd-win passed its check: state reads are enabled (the first one
/// starts) and a warning becomes a notice.
pub open spec fn ready_step(s: AppView, u: UsbipdView, w: Option<Seq<char>>, now: u64) -> Step {
    let s1 = AppView {
        env: EnvView { usbipd: Some(u), ..s.env },
        flags: Flags { busy: false, ..s.flags },
        ..s
    };
    let s2 = match w {
        Some(w) => with_toast(s1, ToastKind::Info, w, now + 8_000),
        None => s1,
    };
    refresh_step(s2)
}

/// The messages handled in order.
pub open spec fn messages_step(s: AppView, ms: Seq<MsgView>, now: u64) -> Step
    decreases ms.len(),
{
    if ms.len() == 0 {
        (s, Seq::empty())
    } else {
        let (s1, e1) = messages_step(s, ms.drop_last(), now);
        let (s2, e2) = message_step(s1, ms.last(), now);
        (s2, e1 + e2)
    }
}

/// The notices still due at `now`.
pub open spec fn live_toasts(ts: Seq<ToastView>, now: u64) -> Seq<ToastView> {
    ts.filter(|t: ToastView| t.expires > now)
}

/// A batch of messages, then the notices that ran out dropped.
pub open spec fn process_step(s: AppView, ms: Seq<MsgView>, now: u64) -> Step {
    let (s1, e1) = messages_step(s, ms, now);
    (AppView { ui: SurfaceView { toasts: live_toasts(s1.ui.toasts, now), ..s1.ui }, ..s1 }, e1)
}


// ---------------------------------------------------------------------------
// Widget actions
// ---------------------------------------------------------------------------

pub ghost enum ActionView {
    Select(Tab, Seq<char>),
    ToggleFilter,
    ToggleDark,
    SetLang(bool),
    OpenSettings,
    Quit,
    Bind(Seq<char>),
    Unbind(Seq<char>),
    Attach(Seq<char>),
    Detach(Seq<char>),
    AddAuto(Seq<char>),
    RemoveAuto(Seq<char>),
    Hide(Seq<char>),
    Show(Seq<char>),
    UnbindPersisted(Seq<char>),
    UnbindAllPersisted,
    RemoveAutoDevice(Seq<char>),
    RemoveAllAuto,
    Refresh,
}

impl View for Action {
    type V = ActionView;

    open spec fn view(&self) -> ActionView {
        match self {
            Action::Select(t, h) => ActionView::Select(*t, h@),
            Action::ToggleFilter => ActionView::ToggleFilter,
            Action::ToggleDark => ActionView::ToggleDark,
            Action::SetLang(z) => ActionView::SetLang(*z),
            Action::OpenSettings => ActionView::OpenSettings,
            Action::Quit => ActionView::Quit,
            Action::Bind(h) => ActionView::Bind(h@),
            Action::Unbind(h) => ActionView::Unbind(h@),
            Action::Attach(h) => ActionView::Attach(h@),
            Action::Detach(h) => ActionView::Detach(h@),
            Action::AddAuto(h) => ActionView::AddAuto(h@),
            Action::RemoveAuto(h) => ActionView::RemoveAuto(h@),
            Action::Hide(h) => ActionView::Hide(h@),
            Action::Show(h) => ActionView::Show(h@),
            Action::UnbindPersisted(h) => ActionView::UnbindPersisted(h@),
            Action::UnbindAllPersisted => ActionView::UnbindAllPersisted,
            Action::RemoveAutoDevice(h) => ActionView::RemoveAutoDevice(h@),
            Action::RemoveAllAuto => ActionView::RemoveAllAuto,
            Action::Refresh => ActionView::Refresh,
        }
    }
}

pub open spec fn action_views(v: Seq<Action>) -> Seq<ActionView> {
    v.map_values(|a: Action| a@)
}

/// The device a row action is for: on the Devices tab, the first row with
/// exactly this hardware id; nothing on the other tabs.
pub open spec fn found_dev(s: AppView, hw: Seq<char>) -> Option<DeviceView> {
    if s.lists.tab == Tab::Devices {
        match row_with_hw(s.lists.rows, hw) {
            Some(k) => Some(s.lists.rows[k].dev),
            None => None,
        }
    } else {
        None
    }
}

pub open spec fn with_selection(l: ListsView, tab: Tab, hw: Seq<char>) -> ListsView {
    match tab {
        Tab::Devices => ListsView { sel_devices: Some(hw), ..l },
        Tab::Persisted => ListsView { sel_persisted: Some(hw), ..l },
        Tab::AutoAttach => ListsView { sel_auto: Some(hw), ..l },
    }
}

/// The first row with exactly this hardware id, with its auto-attach mark set.
pub open spec fn rows_with_auto(rows: Seq<RowView>, hw: Seq<char>, v: bool) -> Seq<RowView> {
    match row_with_hw(rows, hw) {
        Some(k) => rows.update(k, RowView { is_auto: v, ..rows[k] }),
        None => rows,
    }
}

/// The first row with exactly this hardware id, with its hidden mark set.
pub open spec fn rows_with_hidden(rows: Seq<RowView>, hw: Seq<char>, v: bool) -> Seq<RowView> {
    match row_with_hw(rows, hw) {
        Some(k) => rows.update(k, RowView { is_filtered: v, ..rows[k] }),
        None => rows,
    }
}

/// The entries whose hardware id is not exactly `hw`.
pub open spec fn without_exact(list: Seq<DeviceView>, hw: Seq<char>) -> Seq<DeviceView> {
    list.filter(|d: DeviceView| d.hardware_id != hw)
}

pub open spec fn with_cfg(s: AppView, cfg: SystemConfigView) -> AppView {
    AppView { cfg, ..s }
}

pub open spec fn with_lists(s: AppView, l: ListsView) -> AppView {
    AppView { lists: l, ..s }
}

/// A configuration change saved.
pub open spec fn cfg_saved(s: AppView, cfg: SystemConfigView) -> Step {
    save_step(with_cfg(s, cfg))
}

pub open spec fn device_op_step(s: AppView, req: OpRequestView) -> Step {
    if s.env.usbipd is None {
        (s, Seq::empty())
    } else {
        run_op_step(s, req)
    }
}

pub open spec fn tray_step(s: AppView) -> Seq<EffectView> {
    if s.env.has_tray {
        seq![EffectView::UpdateTrayLanguage]
    } else {
        Seq::empty()
    }
}

pub open spec fn added_text(name: Seq<char>) -> Seq<char> {
    seq!['\''] + name + "' added."@
}

pub open spec fn removed_text(name: Seq<char>) -> Seq<char> {
    seq!['\''] + name + "' removed."@
}

pub open spec fn hidden_text(d: DeviceView) -> Seq<char> {
    short_name_of(d) + seq![' ', '('] + d.hardware_id + seq![')']
}

/// Mark a device for automatic attach: once, saved, its row marked, a
/// notice, and an automatic attach at once when it is connected.
pub open spec fn add_auto_step(s: AppView, d: DeviceView, now: u64) -> Step {
    if in_list(s.cfg.auto_list, d.hardware_id) {
        (s, Seq::empty())
    } else {
        let (s1, e1) = cfg_saved(
            s,
            SystemConfigView { auto_list: with_added(s.cfg.auto_list, d), ..s.cfg },
        );
        let s2 = with_toast(
            with_lists(
                s1,
                ListsView { rows: rows_with_auto(s1.lists.rows, d.hardware_id, true), ..s1.lists },
            ),
            ToastKind::Info,
            added_text(short_name_of(d)),
            now + 3_000,
        );
        if d.is_connected {
            let (s3, e3) = attach_step(s2, d, true);
            (s3, e1 + e3)
        } else {
            (s2, e1)
        }
    }
}

/// Unmark a device for automatic attach: saved, its row unmarked, its entry
/// gone from the Auto Attach tab, and a notice.
pub open spec fn remove_auto_step(s: AppView, hw: Seq<char>, now: u64) -> Step {
    if !in_list(s.cfg.auto_list, hw) {
        (s, Seq::empty())
    } else {
        let name = match found_dev(s, hw) {
            Some(d) => short_name_of(d),
            None => hw,
        };
        let (s1, e1) = cfg_saved(
            s,
            SystemConfigView { auto_list: without(s.cfg.auto_list, hw), ..s.cfg },
        );
        let s2 = with_lists(
            s1,
            ListsView {
                rows: rows_with_auto(s1.lists.rows, hw, false),
                auto: without_exact(s1.lists.auto, hw),
                ..s1.lists
            },
        );
        (with_toast(s2, ToastKind::Info, removed_text(name), now + 3_000), e1)
    }
}

pub open spec fn toggle_dark_step(s: AppView) -> Step {
    let (s1, e1) = cfg_saved(
        s,
        SystemConfigView {
            app_config: AppConfigView { dark_mode: !s.cfg.app_config.dark_mode, ..s.cfg.app_config },
            ..s.cfg
        },
    );
    let (s2, e2) = theme_step(s1);
    (s2, e1 + e2)
}

pub open spec fn set_lang_step(s: AppView, zh: bool) -> Step {
    let (s1, e1) = cfg_saved(
        s,
        SystemConfigView {
            app_config: AppConfigView { lang: lang_word(zh), ..s.cfg.app_config },
            ..s.cfg
        },
    );
    let (s2, e2) = theme_step(s1);
    (s2, e1 + e2 + tray_step(s2))
}

pub open spec fn open_settings_step(s: AppView) -> Step {
    (
        AppView {
            ui: SurfaceView { draft: s.cfg.app_config, ..s.ui },
            flags: Flags { show_settings: true, ..s.flags },
            ..s
        },
        seq![EffectView::LoadNetcards],
    )
}

pub open spec fn bind_step(s: AppView, hw: Seq<char>) -> Step {
    match found_dev(s, hw) {
        Some(d) => device_op_step(
            s,
            OpRequestView::Bind { dev: d, use_bus_id: s.cfg.app_config.use_bus_id },
        ),
        None => (s, Seq::empty()),
    }
}

pub open spec fn unbind_step(s: AppView, hw: Seq<char>) -> Step {
    match found_dev(s, hw) {
        Some(d) => device_op_step(
            s,
            OpRequestView::Unbind { dev: d, use_bus_id: s.cfg.app_config.use_bus_id },
        ),
        None => (s, Seq::empty()),
    }
}

pub open spec fn attach_action_step(s: AppView, hw: Seq<char>) -> Step {
    match found_dev(s, hw) {
        Some(d) => attach_step(s, d, false),
        None => (s, Seq::empty()),
    }
}

pub open spec fn detach_step(s: AppView, hw: Seq<char>) -> Step {
    match found_dev(s, hw) {
        Some(d) => device_op_step(
            s,
            OpRequestView::Detach { dev: d, use_bus_id: s.cfg.app_config.use_bus_id },
        ),
        None => (s, Seq::empty()),
    }
}

pub open spec fn add_auto_action_step(s: AppView, hw: Seq<char>, now: u64) -> Step {
    match found_dev(s, hw) {
        Some(d) => add_auto_step(s, d, now),
        None => (s, Seq::empty()),
    }
}

pub open spec fn hide_step(s: AppView, hw: Seq<char>, now: u64) -> Step {
    match found_dev(s, hw) {
        Some(d) => {
            let (s1, e1) = cfg_saved(
                s,
                SystemConfigView { filter_list: with_added(s.cfg.filter_list, d), ..s.cfg },
            );
            let s2 = with_lists(
                s1,
                ListsView { rows: rows_with_hidden(s1.lists.rows, hw, true), ..s1.lists },
            );
            (with_toast(s2, ToastKind::Info, hidden_text(d), now + 3_000), e1)
        },
        None => (s, Seq::empty()),
    }
}

pub open spec fn show_step(s: AppView, hw: Seq<char>) -> Step {
    let (s1, e1) = if in_list(s.cfg.filter_list, hw) {
        cfg_saved(s, SystemConfigView { filter_list: without(s.cfg.filter_list, hw), ..s.cfg })
    } else {
        (s, Seq::empty())
    };
    (
        with_lists(s1, ListsView { rows: rows_with_hidden(s1.lists.rows, hw, false), ..s1.lists }),
        e1,
    )
}

pub open spec fn unbind_persisted_step(s: AppView, hw: Seq<char>) -> Step {
    match device_with_hw(s.lists.persisted, hw) {
        Some(k) => device_op_step(
            s,
            OpRequestView::Unbind {
                dev: s.lists.persisted[k],
                use_bus_id: s.cfg.app_config.use_bus_id,
            },
        ),
        None => (s, Seq::empty()),
    }
}

pub open spec fn unbind_all_step(s: AppView) -> Step {
    if s.lists.persisted.len() == 0 {
        (s, Seq::empty())
    } else {
        device_op_step(
            s,
            OpRequestView::UnbindAll {
                devices: s.lists.persisted,
                use_bus_id: s.cfg.app_config.use_bus_id,
            },
        )
    }
}

pub open spec fn remove_auto_device_step(s: AppView, hw: Seq<char>) -> Step {
    let (s1, e1) = cfg_saved(s, SystemConfigView { auto_list: without(s.cfg.auto_list, hw), ..s.cfg });
    (
        with_lists(s1, restore_lists(ListsView { auto: without_exact(s1.lists.auto, hw), ..s1.lists })),
        e1,
    )
}

pub open spec fn remove_all_auto_step(s: AppView) -> Step {
    let (s1, e1) = cfg_saved(s, SystemConfigView { auto_list: Seq::empty(), ..s.cfg });
    (with_lists(s1, restore_lists(ListsView { auto: Seq::empty(), ..s1.lists })), e1)
}

/// One widget action.
pub open spec fn action_step(s: AppView, a: ActionView, now: u64) -> Step {
    match a {
        ActionView::Select(tab, hw) => (with_lists(s, with_selection(s.lists, tab, hw)), Seq::empty()),
        ActionView::ToggleFilter => (
            with_lists(
                s,
                restore_lists(ListsView { show_filtered: !s.lists.show_filtered, ..s.lists }),
            ),
            Seq::empty(),
        ),
        ActionView::ToggleDark => toggle_dark_step(s),
        ActionView::SetLang(zh) => set_lang_step(s, zh),
        ActionView::OpenSettings => open_settings_step(s),
        ActionView::Quit => (with_flags(s, Flags { exiting: true, ..s.flags }), Seq::empty()),
        ActionView::Refresh => refresh_step(
            with_lists(s, ListsView { show_filtered: false, ..s.lists }),
        ),
        ActionView::Bind(hw) => bind_step(s, hw),
        ActionView::Unbind(hw) => unbind_step(s, hw),
        ActionView::Attach(hw) => attach_action_step(s, hw),
        ActionView::Detach(hw) => detach_step(s, hw),
        ActionView::AddAuto(hw) => add_auto_action_step(s, hw, now),
        ActionView::RemoveAuto(hw) => remove_auto_step(s, hw, now),
        ActionView::Hide(hw) => hide_step(s, hw, now),
        ActionView::Show(hw) => show_step(s, hw),
        ActionView::UnbindPersisted(hw) => unbind_persisted_step(s, hw),
        ActionView::UnbindAllPersisted => unbind_all_step(s),
        ActionView::RemoveAutoDevice(hw) => remove_auto_device_step(s, hw),
        ActionView::RemoveAllAuto => remove_all_auto_step(s),
    }
}

pub open spec fn actions_step(s: AppView, acts: Seq<ActionView>, now: u64) -> Step
    decreases acts.len(),
{
    if acts.len() == 0 {
        (s, Seq::empty())
    } else {
        let (s1, e1) = actions_step(s, acts.drop_last(), now);
        let (s2, e2) = action_step(s1, acts.last(), now);
        (s2, e1 + e2)
    }
}

/// `<window title> <version>`.
pub open spec fn title_text(zh: bool, version: Seq<char>) -> Seq<char> {
    msg_text(Msg::WindowTitle, zh) + seq![' '] + version
}

/// The title is set when it differs from the one last set.
pub open spec fn title_step(s: AppView, version: Seq<char>) -> Step {
    let title = title_text(s.flags.zh, version);
    if s.ui.last_title == Some(title) {
        (s, Seq::empty())
    } else {
        (
            AppView { ui: SurfaceView { last_title: Some(title), ..s.ui }, ..s },
            seq![EffectView::SetTitle(title)],
        )
    }
}

/// The frame's actions in order, then the title brought up to date.
pub open spec fn run_actions_step(s: AppView, acts: Seq<ActionView>, now: u64, version: Seq<char>) -> Step {
    let (s1, e1) = actions_step(s, acts, now);
    let (s2, e2) = title_step(s1, version);
    (s2, e1 + e2)
}


/// The settings confirmed: the draft becomes the settings (with the
/// language in use filled in when it names none), saved, and the settings
/// close.
pub open spec fn settings_ok_step(s: AppView) -> Step {
    let d = s.ui.draft;
    let c = if d.lang.len() == 0 {
        AppConfigView { lang: lang_word(s.flags.zh), ..d }
    } else {
        d
    };
    let (s1, e1) = cfg_saved(s, SystemConfigView { app_config: c, ..s.cfg });
    (with_flags(s1, Flags { show_settings: false, ..s1.flags }), e1)
}

/// The settings reset to those of a fresh installation, saved, the draft
/// following them, and a notice.
pub open spec fn reset_config_step(s: AppView, now: u64) -> Step {
    let (s1, e1) = cfg_saved(s, crate::config::default_system_config());
    let s2 = AppView { ui: SurfaceView { draft: s1.cfg.app_config, ..s1.ui }, ..s1 };
    (with_toast(s2, ToastKind::Info, msg_text(Msg::ConfigReset, s.flags.zh), now + 3_000), e1)
}

/// The frame's bookkeeping before drawing: USB signals, closing, a pending
/// state read, and a quick repaint while busy.
pub open spec fn tick_step(s: AppView, now: u64) -> Step {
    let (s1, e1) = flush_step(s, now);
    let (s2, e2) = tick_rest_step(s1);
    (s2, e1 + e2)
}

/// After the USB bookkeeping: an exiting window closes; otherwise a due
/// state read starts once not busy, and a busy window repaints soon.
pub open spec fn tick_rest_step(s1: AppView) -> Step {
    if s1.flags.exiting {
        (s1, seq![EffectView::CloseWindow])
    } else {
        let (s2, e2) = if s1.flags.need_refresh && !s1.flags.busy {
            refresh_step(with_flags(s1, Flags { need_refresh: false, ..s1.flags }))
        } else {
            (s1, Seq::empty())
        };
        (
            s2,
            e2 + if s2.flags.busy {
                seq![EffectView::RepaintAfter(120)]
            } else {
                Seq::empty()
            },
        )
    }
}

/// Closing the window hides it in the tray when that is configured, a tray
/// exists, the window is not exiting and not hidden yet; otherwise the
/// program exits.
pub open spec fn close_step(s: AppView) -> Step {
    if s.cfg.app_config.close_to_tray && !s.flags.exiting && s.env.has_tray && !s.flags.hidden {
        (
            with_flags(s, Flags { hidden: true, ..s.flags }),
            seq![EffectView::CancelClose, EffectView::HideWindow],
        )
    } else {
        (with_flags(s, Flags { exiting: true, ..s.flags }), seq![EffectView::CloseWindow])
    }
}

/// The device whose details the current tab shows: the first row with the
/// tab's selected hardware id (exactly).
pub open spec fn current_of(s: AppView) -> Option<DeviceView> {
    let sel = match s.lists.tab {
        Tab::Devices => s.lists.sel_devices,
        Tab::Persisted => s.lists.sel_persisted,
        Tab::AutoAttach => s.lists.sel_auto,
    };
    let hw = match sel {
        Some(h) => h,
        None => Seq::empty(),
    };
    match s.lists.tab {
        Tab::Devices => match row_with_hw(s.lists.rows, hw) {
            Some(k) => Some(s.lists.rows[k].dev),
            None => None,
        },
        Tab::Persisted => match device_with_hw(s.lists.persisted, hw) {
            Some(k) => Some(s.lists.persisted[k]),
            None => None,
        },
        Tab::AutoAttach => match device_with_hw(s.lists.auto, hw) {
            Some(k) => Some(s.lists.auto[k]),
            None => None,
        },
    }
}

// ---------------------------------------------------------------------------
// The methods
// ---------------------------------------------------------------------------

/// `last` is less than `limit` ago.
fn recent(last: Option<u64>, now: u64, limit: u64) -> (b: bool)
    requires
        limit > 0,
    ensures
        b == (last matches Some(t) && elapsed(now, t) < limit),
{
    match last {
        Some(t) => now < t || now - t < limit,
        None => false,
    }
}

fn any_unattached(rows: &Vec<DevRow>) -> (b: bool)
    ensures
        b == any_wants_attach(row_views(rows@)),
{
    let ghost l = row_views(rows@);
    let mut i: usize = 0;
    while i < rows.len()
        invariant
            i <= rows.len(),
            l == row_views(rows@),
            forall|j: int| 0 <= j < i ==> !wants_attach(#[trigger] l[j]),
        decreases rows.len() - i,
    {
        let r = &rows[i];
        assert(l[i as int] == r@);
        if r.is_auto && r.dev.is_connected && !r.dev.is_attached {
            return true;
        }
        i += 1;
    }
    false
}

impl Lists {
    fn restore_selections(&mut self)
        ensures
            final(self)@ == restore_lists(old(self)@),
    {
        let ids = visible_ids(&self.device_rows, self.show_filtered);
        let cur = self.sel_devices.take();
        self.sel_devices = restore_selection(cur, &ids);
        let ids = hardware_ids(&self.persisted_rows);
        let cur = self.sel_persisted.take();
        self.sel_persisted = restore_selection(cur, &ids);
        let ids = hardware_ids(&self.auto_rows);
        let cur = self.sel_auto.take();
        self.sel_auto = restore_selection(cur, &ids);
    }
}

impl App {
    /// A window for this configuration: busy until usbipd-win was checked;
    /// Chinese when the configuration says so, or when it names no language
    /// and the system is Chinese.
    pub fn new(cfg: SystemConfig, system_zh: bool, has_tray: bool) -> (r: App)
        ensures
            r@ == initial_view(cfg@, system_zh, has_tray),
            r.wf(),
    {
        let lang = chars_of(cfg.app_config.lang.as_str());
        let zh = if lang.len() == 0 {
            system_zh
        } else {
            let word = chars_of("zh");
            eq_ignore_ascii_case(&lang, &word)
        };
        let env = Env { usbipd: None, netcards: Vec::new(), has_tray };
        assert(env@ == EnvView { usbipd: None, netcards: Seq::empty(), has_tray }) by {
            assert(card_views(env.netcards@) =~= Seq::empty());
        }
        let lists = Lists {
            tab: Tab::Devices,
            device_rows: Vec::new(),
            persisted_rows: Vec::new(),
            auto_rows: Vec::new(),
            sel_devices: None,
            sel_persisted: None,
            sel_auto: None,
            show_filtered: false,
        };
        assert(row_views(lists.device_rows@) =~= Seq::empty());
        assert(device_views(lists.persisted_rows@) =~= Seq::empty());
        assert(device_views(lists.auto_rows@) =~= Seq::empty());
        let auto = AutoState {
            pending: Vec::new(),
            retry_at: None,
            watch_rounds: 0,
            watch_exhausted: false,
            watch_next: None,
        };
        assert(pending_views(auto.pending@) =~= Seq::empty());
        let ui = Surface {
            draft: AppConfig::default(),
            toasts: Vec::new(),
            dialog: None,
            last_title: None,
        };
        assert(toast_views(ui.toasts@) =~= Seq::empty());
        App {
            cfg,
            env,
            lists,
            flags: Flags {
                busy: true,
                initialized: false,
                need_refresh: false,
                quiet_inflight: false,
                exiting: false,
                hidden: false,
                show_settings: false,
                zh,
            },
            usb: UsbWatch { activity_pending: false, rechecks: 0, last_refresh: None, snapshot: None },
            auto,
            ui,
        }
    }

    pub closed spec fn wf(&self) -> bool {
        app_wf(self@)
    }

    pub fn is_busy(&self) -> (r: bool)
        ensures
            r == self@.flags.busy,
    {
        self.flags.busy
    }

    /// Language of the texts: Chinese or English.
    pub fn is_zh(&self) -> (r: bool)
        ensures
            r == self@.flags.zh,
    {
        self.flags.zh
    }

    pub fn start_refresh(&mut self, fx: &mut Vec<Effect>)
        ensures
            final(self)@ == refresh_step(old(self)@).0,
            effect_views(final(fx)@) == effect_views(old(fx)@) + refresh_step(old(self)@).1,
    {
        if self.flags.busy {
            self.flags.need_refresh = true;
            assert(effect_views(fx@) =~= effect_views(fx@) + Seq::<EffectView>::empty());
            return;
        }
        if self.env.usbipd.is_none() {
            self.flags.busy = false;
            assert(effect_views(fx@) =~= effect_views(fx@) + Seq::<EffectView>::empty());
            return;
        }
        self.flags.busy = true;
        emit(fx, Effect::Refresh);
        assert(effect_views(fx@) =~= effect_views(old(fx)@) + seq![EffectView::Refresh]);
    }

    fn start_quiet_state_poll(&mut self, fx: &mut Vec<Effect>)
        ensures
            final(self)@ == quiet_poll_step(old(self)@).0,
            effect_views(final(fx)@) == effect_views(old(fx)@) + quiet_poll_step(old(self)@).1,
    {
        if self.flags.quiet_inflight || self.env.usbipd.is_none() {
            assert(effect_views(fx@) =~= effect_views(fx@) + Seq::<EffectView>::empty());
            return;
        }
        self.flags.quiet_inflight = true;
        emit(fx, Effect::Refresh);
        assert(effect_views(fx@) =~= effect_views(old(fx)@) + seq![EffectView::Refresh]);
    }

    fn run_op(&mut self, req: OpRequest, fx: &mut Vec<Effect>)
        ensures
            final(self)@ == run_op_step(old(self)@, req@).0,
            effect_views(final(fx)@) == effect_views(old(fx)@) + run_op_step(old(self)@, req@).1,
    {
        if self.flags.busy {
            assert(effect_views(fx@) =~= effect_views(fx@) + Seq::<EffectView>::empty());
            return;
        }
        self.flags.busy = true;
        let ghost r = req@;
        emit(fx, Effect::RunOp(req));
        assert(effect_views(fx@) =~= effect_views(old(fx)@) + seq![EffectView::RunOp(r)]);
    }

    /// Start an attach of `dev` (automatic or by hand) with the current
    /// settings, once usbipd-win is known and no operation runs.
    pub fn attach(&mut self, dev: UsbDevice, auto: bool, fx: &mut Vec<Effect>)
        ensures
            final(self)@ == attach_step(old(self)@, dev@, auto).0,
            effect_views(final(fx)@) == effect_views(old(fx)@) + attach_step(old(self)@, dev@, auto).1,
    {
        if self.env.usbipd.is_none() {
            assert(effect_views(fx@) =~= effect_views(fx@) + Seq::<EffectView>::empty());
            return;
        }
        let config = self.cfg.app_config.duplicate();
        self.run_op(OpRequest::Attach { dev, auto, config }, fx);
    }

    /// Save the configuration, filling in the language in use when it names
    /// none.
    pub fn save_cfg(&mut self, fx: &mut Vec<Effect>)
        ensures
            final(self)@ == save_step(old(self)@).0,
            effect_views(final(fx)@) == effect_views(old(fx)@) + save_step(old(self)@).1,
    {
        if self.cfg.app_config.lang.as_str().is_empty() {
            self.cfg.app_config.lang = if self.flags.zh {
                "zh".to_owned()
            } else {
                "en".to_owned()
            };
        }
        emit(fx, Effect::SaveConfig);
        assert(effect_views(fx@) =~= effect_views(old(fx)@) + seq![EffectView::SaveConfig]);
    }

    /// Follow the configured language (or keep the current one when none is
    /// configured) and apply the theme.
    pub fn apply_theme(&mut self, fx: &mut Vec<Effect>)
        ensures
            final(self)@ == theme_step(old(self)@).0,
            effect_views(final(fx)@) == effect_views(old(fx)@) + theme_step(old(self)@).1,
    {
        let lang = chars_of(self.cfg.app_config.lang.as_str());
        if lang.len() > 0 {
            let word = chars_of("zh");
            self.flags.zh = eq_ignore_ascii_case(&lang, &word);
        }
        emit(fx, Effect::ApplyTheme);
        assert(effect_views(fx@) =~= effect_views(old(fx)@) + seq![EffectView::ApplyTheme]);
    }

    fn maybe_auto_attach_inner(&mut self, forced: bool, now: u64, fx: &mut Vec<Effect>)
        requires
            old(self).wf(),
            now <= CLOCK_LIMIT,
        ensures
            final(self)@ == auto_attach_step(old(self)@, forced, now).0,
            effect_views(final(fx)@) == effect_views(old(fx)@) + auto_attach_step(
                old(self)@,
                forced,
                now,
            ).1,
            final(self).wf(),
    {
        if !self.flags.initialized || self.flags.busy {
            assert(effect_views(fx@) =~= effect_views(fx@) + Seq::<EffectView>::empty());
            return;
        }
        let (cand, retry) = pick_auto_attach(
            &self.lists.device_rows,
            &self.auto.pending,
            now,
            forced,
        );
        match cand {
            Some(dev) => {
                let id = id_of(&dev, self.cfg.app_config.use_bus_id);
                let ghost f0 = effect_views(fx@);
                let stop = Effect::StopStaleDaemons { id, hardware_id: dev.hardware_id.clone() };
                let ghost e0 = stop@;
                emit(fx, stop);
                let ghost f1 = effect_views(fx@);
                book_pending(&mut self.auto.pending, &dev.hardware_id, now);
                proof {
                    lemma_insert_keeps_range(
                        pending_views(old(self).auto.pending@),
                        dev@.hardware_id,
                        now,
                    );
                }
                self.attach(dev, true, fx);
                self.auto.retry_at = retry;
                proof {
                    let rest = effect_views(fx@).subrange(f1.len() as int, effect_views(fx@).len() as int);
                    assert(effect_views(fx@) =~= f1 + rest);
                    assert(f1 =~= f0 + seq![e0]);
                    assert(effect_views(fx@) =~= f0 + (seq![e0] + rest));
                }
            },
            None => {
                self.auto.retry_at = retry;
                assert(effect_views(fx@) =~= effect_views(fx@) + Seq::<EffectView>::empty());
            },
        }
    }

    fn push_toasts(&mut self, texts: Vec<String>, kind: ToastKind, expires: u64)
        ensures
            final(self)@ == (AppView {
                ui: SurfaceView {
                    toasts: old(self)@.ui.toasts + toasts_of(str_views(texts@), kind, expires as int),
                    ..old(self)@.ui
                },
                ..old(self)@
            }),
    {
        let ghost start = toast_views(self.ui.toasts@);
        let mut i: usize = 0;
        while i < texts.len()
            invariant
                i <= texts.len(),
                toast_views(self.ui.toasts@) == start + toasts_of(
                    str_views(texts@.take(i as int)),
                    kind,
                    expires as int,
                ),
                self.cfg == old(self).cfg,
                self.env == old(self).env,
                self.lists == old(self).lists,
                self.flags == old(self).flags,
                self.usb == old(self).usb,
                self.auto == old(self).auto,
                self.ui.draft == old(self).ui.draft,
                self.ui.dialog == old(self).ui.dialog,
                self.ui.last_title == old(self).ui.last_title,
            decreases texts.len() - i,
        {
            let ghost before = toast_views(self.ui.toasts@);
            self.ui.toasts.push(Toast { kind, text: texts[i].clone(), expires });
            assert(toast_views(self.ui.toasts@) =~= before.push(
                ToastView { kind, text: texts@[i as int]@, expires: expires as int },
            ));
            assert(texts@.take(i + 1) == texts@.take(i as int).push(texts@[i as int]));
            assert(toasts_of(str_views(texts@.take(i + 1)), kind, expires as int) =~= toasts_of(
                str_views(texts@.take(i as int)),
                kind,
                expires as int,
            ).push(ToastView { kind, text: texts@[i as int]@, expires: expires as int }));
            i += 1;
        }
        assert(texts@.take(texts.len() as int) == texts@);
    }

    fn stop_daemons_for_removed(&self, removed: &Vec<UsbDevice>, now: u64, fx: &mut Vec<Effect>)
        ensures
            effect_views(final(fx)@) == effect_views(old(fx)@) + removal_effects(
                self@,
                device_views(removed@),
                now,
            ),
    {
        let ghost s = self@;
        let ghost l = device_views(removed@);
        let ghost pred = |d: DeviceView| stops_removal(s, d, now);
        let ghost f = |d: DeviceView| removal_effect(s, d);
        let ghost start = effect_views(fx@);
        let mut i: usize = 0;
        while i < removed.len()
            invariant
                i <= removed.len(),
                s == self@,
                l == device_views(removed@),
                pred == (|d: DeviceView| stops_removal(s, d, now)),
                f == (|d: DeviceView| removal_effect(s, d)),
                effect_views(fx@) == start + l.take(i as int).filter(pred).map_values(f),
            decreases removed.len() - i,
        {
            let d = &removed[i];
            assert(l[i as int] == d@);
            proof {
                assert(l.take(i + 1) == l.take(i as int).push(l[i as int]));
                l.take(i as int).lemma_filter_push(l[i as int], pred);
            }
            let ghost fs = l.take(i as int).filter(pred);
            let mut guarded = false;
            match lookup_pending(&self.auto.pending, &d.hardware_id) {
                Some(t) => {
                    guarded = now < t || now - t < ATTACH_GUARD_WINDOW_MS;
                },
                None => {},
            }
            if d.is_attached && !guarded {
                let id = id_of(d, self.cfg.app_config.use_bus_id);
                let mut needles: Vec<String> = Vec::new();
                if !d.bus_id.as_str().is_empty() {
                    needles.push(d.bus_id.clone());
                }
                if !d.hardware_id.as_str().is_empty() {
                    needles.push(d.hardware_id.clone());
                }
                assert(str_views(needles@) =~= removal_needles_of(d@));
                let e = Effect::StopRemovedDaemons { id, needles };
                assert(e@ == f(d@));
                emit(fx, e);
                assert(fs.push(d@).map_values(f) =~= fs.map_values(f).push(f(d@)));
            }
            i += 1;
        }
        assert(l.take(l.len() as int) == l);
    }

    /// The daemon stops and notices for a change from `prev` to `devices`.
    fn note_changes(&mut self, prev: &Vec<UsbDevice>, devices: &Vec<UsbDevice>, now: u64, fx: &mut Vec<Effect>)
        requires
            now <= CLOCK_LIMIT,
        ensures
            ({
                let s = old(self)@;
                let removed = missing_from(device_views(prev@), device_views(devices@));
                let added = missing_from(device_views(devices@), device_views(prev@));
                &&& final(self)@ == (AppView {
                    ui: SurfaceView {
                        toasts: s.ui.toasts + toasts_of(
                            change_texts(removed, added, s.flags.zh),
                            ToastKind::Info,
                            now + 5_000,
                        ),
                        ..s.ui
                    },
                    ..s
                })
                &&& effect_views(final(fx)@) == effect_views(old(fx)@) + removal_effects(
                    s,
                    removed,
                    now,
                )
            }),
    {
        let (removed, added) = diff_snapshots(prev.as_slice(), devices.as_slice());
        self.stop_daemons_for_removed(&removed, now, fx);
        let texts = change_notices(&removed, &added, self.flags.zh);
        self.push_toasts(texts, ToastKind::Info, now + 5_000);
    }

    fn on_unchanged(&mut self, fx: &mut Vec<Effect>)
        requires
            old(self).wf(),
        ensures
            final(self)@ == unchanged_step(old(self)@).0,
            effect_views(final(fx)@) == effect_views(old(fx)@) + unchanged_step(old(self)@).1,
            final(self).wf(),
    {
        if self.usb.activity_pending {
            emit(fx, Effect::RepaintAfter(USB_EVENT_COOLDOWN_MS));
            assert(effect_views(fx@) =~= effect_views(old(fx)@) + seq![
                EffectView::RepaintAfter(USB_EVENT_COOLDOWN_MS),
            ]);
        } else if self.usb.rechecks > 0 {
            self.usb.rechecks = self.usb.rechecks - 1;
            if self.usb.rechecks > 0 {
                emit(fx, Effect::RepaintAfter(USB_RECHECK_INTERVAL_MS));
                assert(effect_views(fx@) =~= effect_views(old(fx)@) + seq![
                    EffectView::RepaintAfter(USB_RECHECK_INTERVAL_MS),
                ]);
            } else {
                assert(effect_views(fx@) =~= effect_views(old(fx)@) + Seq::<EffectView>::empty());
            }
        } else {
            assert(effect_views(fx@) =~= effect_views(old(fx)@) + Seq::<EffectView>::empty());
        }
    }

    /// Apply a state read (see [`snapshot_step`]).
    fn apply_state_snapshot(&mut self, devices: Vec<UsbDevice>, now: u64, fx: &mut Vec<Effect>)
        requires
            old(self).wf(),
            now <= CLOCK_LIMIT,
        ensures
            final(self)@ == snapshot_step(old(self)@, device_views(devices@), now).0,
            effect_views(final(fx)@) == effect_views(old(fx)@) + snapshot_step(
                old(self)@,
                device_views(devices@),
                now,
            ).1,
            final(self).wf(),
    {
        let unchanged = match &self.usb.snapshot {
            Some(prev) => same_snapshot(prev, &devices),
            None => false,
        };
        if unchanged {
            self.on_unchanged(fx);
        } else {
            self.on_changed(devices, now, fx);
        }
    }

    fn on_changed(&mut self, devices: Vec<UsbDevice>, now: u64, fx: &mut Vec<Effect>)
        requires
            old(self).wf(),
            now <= CLOCK_LIMIT,
        ensures
            final(self)@ == changed_step(old(self)@, device_views(devices@), now).0,
            effect_views(final(fx)@) == effect_views(old(fx)@) + changed_step(
                old(self)@,
                device_views(devices@),
                now,
            ).1,
            final(self).wf(),
    {
        let ghost f0 = effect_views(fx@);
        let ghost s0 = self@;
        let prev = self.usb.snapshot.take();
        match prev {
            Some(prev) => {
                self.usb.snapshot = Some(crate::snapshot::copy_list(&prev));
                assert(self@ == s0);
                self.note_changes(&prev, &devices, now, fx);
            },
            None => {
                assert(self@ == s0);
                assert(effect_views(fx@) =~= f0 + removal_effects(
                    s0,
                    removed_of(s0, device_views(devices@)),
                    now,
                )) by {
                    assert(removed_of(s0, device_views(devices@)) =~= Seq::<DeviceView>::empty());
                    assert(removed_of(s0, device_views(devices@)).filter(
                        |d: DeviceView| stops_removal(s0, d, now),
                    ) =~= Seq::<DeviceView>::empty()) by {
                        reveal(Seq::filter);
                    }
                }
            },
        }
        let ghost f1 = effect_views(fx@);
        self.usb.rechecks = 0;
        self.auto.watch_exhausted = false;
        self.usb.snapshot = Some(crate::snapshot::copy_list(&devices));
        self.apply_lists(devices, now, fx);
        let ghost f2 = effect_views(fx@);
        emit(fx, Effect::Repaint);
        proof {
            let mid = f2.subrange(f1.len() as int, f2.len() as int);
            assert(f2 =~= f1 + mid);
            let head = f1.subrange(f0.len() as int, f1.len() as int);
            assert(f1 =~= f0 + head);
            assert(effect_views(fx@) =~= f0 + (head + mid + seq![EffectView::Repaint]));
        }
    }

    /// A USB signal arrived.
    pub fn queue_usb_activity(&mut self, fx: &mut Vec<Effect>)
        requires
            old(self).wf(),
        ensures
            final(self)@ == activity_step(old(self)@).0,
            effect_views(final(fx)@) == effect_views(old(fx)@) + activity_step(old(self)@).1,
            final(self).wf(),
    {
        self.usb.activity_pending = true;
        self.usb.rechecks = USB_RECHECK_LIMIT;
        emit(fx, Effect::RepaintAfter(120));
        assert(effect_views(fx@) =~= effect_views(old(fx)@) + seq![EffectView::RepaintAfter(120)]);
    }

    /// Once per frame: turn a waiting USB signal or extra read into a state
    /// read when its time has come (see [`flush_step`]).
    pub fn flush_usb_activity(&mut self, now: u64, fx: &mut Vec<Effect>)
        requires
            old(self).wf(),
        ensures
            final(self)@ == flush_step(old(self)@, now).0,
            effect_views(final(fx)@) == effect_views(old(fx)@) + flush_step(old(self)@, now).1,
            final(self).wf(),
    {
        if self.flags.busy {
            if self.usb.activity_pending || self.usb.rechecks > 0 {
                emit(fx, Effect::RepaintAfter(100));
                assert(effect_views(fx@) =~= effect_views(old(fx)@) + seq![EffectView::RepaintAfter(100)]);
            } else {
                assert(effect_views(fx@) =~= effect_views(old(fx)@) + Seq::<EffectView>::empty());
            }
            return;
        }
        if self.usb.activity_pending {
            if recent(self.usb.last_refresh, now, USB_EVENT_COOLDOWN_MS) {
                emit(fx, Effect::RepaintAfter(USB_EVENT_COOLDOWN_MS));
                assert(effect_views(fx@) =~= effect_views(old(fx)@) + seq![
                    EffectView::RepaintAfter(USB_EVENT_COOLDOWN_MS),
                ]);
                return;
            }
            self.usb.activity_pending = false;
            self.usb.last_refresh = Some(now);
            self.start_refresh(fx);
            return;
        }
        if self.usb.rechecks > 0 {
            if recent(self.usb.last_refresh, now, USB_RECHECK_INTERVAL_MS) {
                emit(fx, Effect::RepaintAfter(USB_RECHECK_INTERVAL_MS));
                assert(effect_views(fx@) =~= effect_views(old(fx)@) + seq![
                    EffectView::RepaintAfter(USB_RECHECK_INTERVAL_MS),
                ]);
                return;
            }
            self.usb.last_refresh = Some(now);
            self.start_refresh(fx);
            return;
        }
        assert(effect_views(fx@) =~= effect_views(old(fx)@) + Seq::<EffectView>::empty());
    }

    /// Deferred automatic attaches: ask for a state read once they are due.
    pub fn check_auto_retry(&mut self, now: u64, fx: &mut Vec<Effect>)
        requires
            old(self).wf(),
        ensures
            final(self)@ == retry_check_step(old(self)@, now).0,
            effect_views(final(fx)@) == effect_views(old(fx)@) + retry_check_step(old(self)@, now).1,
            final(self).wf(),
    {
        match self.auto.retry_at {
            None => {
                assert(effect_views(fx@) =~= effect_views(old(fx)@) + Seq::<EffectView>::empty());
            },
            Some(deadline) => {
                if now >= deadline {
                    self.auto.retry_at = None;
                    self.flags.need_refresh = true;
                    emit(fx, Effect::Repaint);
                    assert(effect_views(fx@) =~= effect_views(old(fx)@) + seq![EffectView::Repaint]);
                } else {
                    emit(fx, Effect::RepaintAfter(deadline - now));
                    assert(effect_views(fx@) =~= effect_views(old(fx)@) + seq![
                        EffectView::RepaintAfter((deadline - now) as u64),
                    ]);
                }
            },
        }
    }

    /// The auto-attach watchdog (see [`watch_step`]).
    pub fn watch_auto_attach(&mut self, now: u64, fx: &mut Vec<Effect>)
        requires
            old(self).wf(),
            now <= CLOCK_LIMIT,
        ensures
            final(self)@ == watch_step(old(self)@, now).0,
            effect_views(final(fx)@) == effect_views(old(fx)@) + watch_step(old(self)@, now).1,
            final(self).wf(),
    {
        if !self.flags.initialized || self.flags.busy {
            assert(effect_views(fx@) =~= effect_views(old(fx)@) + Seq::<EffectView>::empty());
            return;
        }
        let any = any_unattached(&self.lists.device_rows);
        if !any {
            self.auto.watch_rounds = 0;
            self.auto.watch_next = None;
            self.auto.watch_exhausted = false;
            assert(effect_views(fx@) =~= effect_views(old(fx)@) + Seq::<EffectView>::empty());
            return;
        }
        if self.auto.watch_exhausted {
            assert(effect_views(fx@) =~= effect_views(old(fx)@) + Seq::<EffectView>::empty());
            return;
        }
        if self.auto.watch_rounds == 0 {
            self.auto.watch_rounds = AUTO_WATCH_ROUNDS;
            self.auto.watch_next = None;
        }
        let ghost f0 = effect_views(old(fx)@);
        emit(fx, Effect::RepaintAfter(AUTO_WATCH_INTERVAL_MS));
        match self.auto.watch_next {
            Some(t) => {
                if now < t {
                    assert(effect_views(fx@) =~= f0 + seq![
                        EffectView::RepaintAfter(AUTO_WATCH_INTERVAL_MS),
                    ]);
                    return;
                }
            },
            None => {},
        }
        self.watch_round(now, fx);
        proof {
            let tail = effect_views(fx@).subrange(f0.len() as int + 1, effect_views(fx@).len() as int);
            assert(effect_views(fx@) =~= f0 + (seq![EffectView::RepaintAfter(AUTO_WATCH_INTERVAL_MS)] + tail));
        }
    }

    /// One watchdog round: read the state quietly and attach regardless of
    /// the debounce.
    fn watch_round(&mut self, now: u64, fx: &mut Vec<Effect>)
        requires
            old(self).wf(),
            now <= CLOCK_LIMIT,
            old(self)@.auto.watch_rounds > 0,
        ensures
            ({
                let s = old(self)@;
                let rounds = (s.auto.watch_rounds - 1) as u8;
                let s2 = AppView {
                    auto: AutoView {
                        watch_next: Some((now + AUTO_WATCH_INTERVAL_MS) as u64),
                        watch_rounds: rounds,
                        ..s.auto
                    },
                    ..s
                };
                let (s3, e3) = quiet_poll_step(s2);
                let (s4, e4) = auto_attach_step(s3, true, now);
                let s5 = if rounds == 0 {
                    AppView { auto: AutoView { watch_exhausted: true, ..s4.auto }, ..s4 }
                } else {
                    s4
                };
                &&& final(self)@ == s5
                &&& effect_views(final(fx)@) == effect_views(old(fx)@) + (e3 + e4)
            }),
            final(self).wf(),
    {
        self.auto.watch_next = Some(now + AUTO_WATCH_INTERVAL_MS);
        self.auto.watch_rounds = self.auto.watch_rounds - 1;
        let ghost f1 = effect_views(fx@);
        self.start_quiet_state_poll(fx);
        let ghost f2 = effect_views(fx@);
        self.maybe_auto_attach_inner(true, now, fx);
        let ghost f3 = effect_views(fx@);
        if self.auto.watch_rounds == 0 {
            self.auto.watch_exhausted = true;
        }
        proof {
            let a = f2.subrange(f1.len() as int, f2.len() as int);
            let b = f3.subrange(f2.len() as int, f3.len() as int);
            assert(f2 =~= f1 + a);
            assert(f3 =~= f2 + b);
            assert(f3 =~= f1 + (a + b));
        }
    }

    fn push_toast(&mut self, kind: ToastKind, text: String, expires: u64)
        ensures
            final(self)@ == with_toast(old(self)@, kind, text@, expires as int),
    {
        let ghost before = toast_views(self.ui.toasts@);
        let ghost t = text@;
        self.ui.toasts.push(Toast { kind, text, expires });
        assert(toast_views(self.ui.toasts@) =~= before.push(
            ToastView { kind, text: t, expires: expires as int },
        ));
    }

    fn set_dialog(&mut self, title: String, message: String)
        ensures
            final(self)@ == with_dialog(old(self)@, title@, message@),
    {
        self.ui.dialog = Some(Dialog { title, message });
    }

    fn on_list_failed(&mut self, e: String, now: u64, fx: &mut Vec<Effect>)
        requires
            old(self).wf(),
            now <= CLOCK_LIMIT,
        ensures
            final(self)@ == message_step(old(self)@, MsgView::ListFailed(e@), now).0,
            effect_views(final(fx)@) == effect_views(old(fx)@) + message_step(
                old(self)@,
                MsgView::ListFailed(e@),
                now,
            ).1,
            final(self).wf(),
    {
        let zh = self.flags.zh;
        self.flags.busy = false;
        self.flags.quiet_inflight = false;
        if self.flags.initialized {
            self.push_toast(ToastKind::Error, e, now + 6_000);
        } else {
            self.set_dialog(t(Msg::Error, zh), e);
        }
        emit(fx, Effect::Repaint);
        assert(effect_views(fx@) =~= effect_views(old(fx)@) + seq![EffectView::Repaint]);
    }

    fn on_op_done(&mut self, ok: bool, message: String, now: u64, fx: &mut Vec<Effect>)
        requires
            old(self).wf(),
            now <= CLOCK_LIMIT,
        ensures
            final(self)@ == message_step(old(self)@, MsgView::OpDone { ok, message: message@ }, now).0,
            effect_views(final(fx)@) == effect_views(old(fx)@) + message_step(
                old(self)@,
                MsgView::OpDone { ok, message: message@ },
                now,
            ).1,
            final(self).wf(),
    {
        let zh = self.flags.zh;
        self.flags.busy = false;
        if ok {
            self.push_toast(ToastKind::Success, message, now + 4_000);
        } else if !message.as_str().is_empty() {
            self.set_dialog(t(Msg::Error, zh), message);
        }
        self.flags.need_refresh = true;
        emit(fx, Effect::Repaint);
        assert(effect_views(fx@) =~= effect_views(old(fx)@) + seq![EffectView::Repaint]);
    }

    fn on_usbipd_ok(&mut self, client: Usbipd, warning: Option<String>, now: u64, fx: &mut Vec<Effect>)
        requires
            old(self).wf(),
            now <= CLOCK_LIMIT,
        ensures
            final(self)@ == ready_step(old(self)@, client@, opt_str(warning), now).0,
            effect_views(final(fx)@) == effect_views(old(fx)@) + ready_step(
                old(self)@,
                client@,
                opt_str(warning),
                now,
            ).1,
            final(self).wf(),
    {
        self.env.usbipd = Some(client);
        self.flags.busy = false;
        match warning {
            Some(w) => {
                self.push_toast(ToastKind::Info, w, now + 8_000);
            },
            None => {},
        }
        self.start_refresh(fx);
    }

    fn on_simple_message(&mut self, msg: UiMsg, fx: &mut Vec<Effect>)
        requires
            old(self).wf(),
            msg is Error || msg is UsbActivity || msg is ShowWindow || msg is ExitApp,
        ensures
            forall|now: u64| final(self)@ == #[trigger] message_step(old(self)@, msg@, now).0,
            forall|now: u64|
                effect_views(final(fx)@) == effect_views(old(fx)@) + #[trigger] message_step(
                    old(self)@,
                    msg@,
                    now,
                ).1,
            final(self).wf(),
    {
        let zh = self.flags.zh;
        match msg {
            UiMsg::Error(text) => {
                self.set_dialog(t(Msg::Error, zh), text);
                assert(effect_views(fx@) =~= effect_views(old(fx)@) + Seq::<EffectView>::empty());
            },
            UiMsg::UsbActivity => {
                self.usb.activity_pending = true;
                self.usb.rechecks = USB_RECHECK_LIMIT;
                emit(fx, Effect::RepaintAfter(120));
                assert(effect_views(fx@) =~= effect_views(old(fx)@) + seq![
                    EffectView::RepaintAfter(120),
                ]);
            },
            UiMsg::ShowWindow => {
                self.flags.hidden = false;
                emit(fx, Effect::ShowWindow);
                emit(fx, Effect::Repaint);
                assert(effect_views(fx@) =~= effect_views(old(fx)@) + seq![
                    EffectView::ShowWindow,
                    EffectView::Repaint,
                ]);
            },
            _ => {
                self.flags.exiting = true;
                emit(fx, Effect::CloseWindow);
                assert(effect_views(fx@) =~= effect_views(old(fx)@) + seq![EffectView::CloseWindow]);
            },
        }
    }

    /// Handle one message from a worker or the tray (see [`message_step`]).
    pub fn process_message(&mut self, msg: UiMsg, now: u64, fx: &mut Vec<Effect>)
        requires
            old(self).wf(),
            now <= CLOCK_LIMIT,
        ensures
            final(self)@ == message_step(old(self)@, msg@, now).0,
            effect_views(final(fx)@) == effect_views(old(fx)@) + message_step(
                old(self)@,
                msg@,
                now,
            ).1,
            final(self).wf(),
    {
        match msg {
            UiMsg::Lists(devices) => {
                self.flags.busy = false;
                self.flags.quiet_inflight = false;
                assert(self.wf());
                self.apply_state_snapshot(devices, now, fx);
                assert(self.wf());
            },
            UiMsg::ListFailed(e) => {
                self.on_list_failed(e, now, fx);
            },
            UiMsg::OpDone { ok, message } => {
                self.on_op_done(ok, message, now, fx);
            },
            UiMsg::UsbipdReady(Ok((client, warning))) => {
                self.on_usbipd_ok(client, warning, now, fx);
            },
            UiMsg::UsbipdReady(Err(e)) => {
                let zh = self.flags.zh;
                self.flags.busy = false;
                self.set_dialog(t(Msg::UsbipdCheckFailed, zh), e);
                assert(effect_views(fx@) =~= effect_views(old(fx)@) + Seq::<EffectView>::empty());
            },
            _ => {
                self.on_simple_message(msg, fx);
            },
        }
    }

    /// Drop the notices that ran out.
    pub fn expire_toasts(&mut self, now: u64)
        ensures
            final(self)@ == (AppView {
                ui: SurfaceView { toasts: live_toasts(old(self)@.ui.toasts, now), ..old(self)@.ui },
                ..old(self)@
            }),
    {
        let ghost l = toast_views(self.ui.toasts@);
        let ghost pred = |t: ToastView| t.expires > now;
        let mut old_toasts: Vec<Toast> = Vec::new();
        std::mem::swap(&mut old_toasts, &mut self.ui.toasts);
        let mut kept: Vec<Toast> = Vec::new();
        let mut i: usize = 0;
        while i < old_toasts.len()
            invariant
                i <= old_toasts.len(),
                l == toast_views(old_toasts@),
                pred == (|t: ToastView| t.expires > now),
                toast_views(kept@) == l.take(i as int).filter(pred),
            decreases old_toasts.len() - i,
        {
            let t = &old_toasts[i];
            assert(l[i as int] == t@);
            proof {
                assert(l.take(i + 1) == l.take(i as int).push(l[i as int]));
                l.take(i as int).lemma_filter_push(l[i as int], pred);
            }
            if t.expires > now {
                let ghost before = toast_views(kept@);
                kept.push(Toast { kind: t.kind, text: t.text.clone(), expires: t.expires });
                assert(toast_views(kept@) =~= before.push(l[i as int]));
            }
            i += 1;
        }
        assert(l.take(l.len() as int) == l);
        self.ui.toasts = kept;
    }

    /// Handle a batch of messages in order, then drop the notices that ran
    /// out (see [`process_step`]).
    pub fn process_messages(&mut self, msgs: Vec<UiMsg>, now: u64, fx: &mut Vec<Effect>)
        requires
            old(self).wf(),
            now <= CLOCK_LIMIT,
        ensures
            final(self)@ == process_step(old(self)@, msg_views(msgs@), now).0,
            effect_views(final(fx)@) == effect_views(old(fx)@) + process_step(
                old(self)@,
                msg_views(msgs@),
                now,
            ).1,
            final(self).wf(),
    {
        let ghost ms = msg_views(msgs@);
        let ghost s0 = self@;
        let ghost f0 = effect_views(fx@);
        assert(ms.len() == msgs.len());
        let mut rest = msgs;
        let mut done: usize = 0;
        while rest.len() > 0
            invariant
                done + rest.len() == ms.len(),
                ms.len() <= usize::MAX,
                msg_views(rest@) == ms.skip(done as int),
                self.wf(),
                now <= CLOCK_LIMIT,
                self@ == messages_step(s0, ms.take(done as int), now).0,
                effect_views(fx@) == f0 + messages_step(s0, ms.take(done as int), now).1,
            decreases rest.len(),
        {
            let ghost f1 = effect_views(fx@);
            let ghost s1 = self@;
            let ghost before = rest@;
            let m = rest.remove(0);
            assert(msg_views(before)[0] == ms.skip(done as int)[0]);
            assert(m@ == ms[done as int]);
            assert(msg_views(rest@) =~= msg_views(before).drop_first());
            assert(ms.skip(done as int).drop_first() =~= ms.skip(done + 1));
            self.process_message(m, now, fx);
            proof {
                assert(ms.take(done + 1).drop_last() == ms.take(done as int));
                assert(ms.take(done + 1).last() == ms[done as int]);
                let e = effect_views(fx@).subrange(f1.len() as int, effect_views(fx@).len() as int);
                assert(effect_views(fx@) =~= f1 + e);
            }
            done = done + 1;
        }
        assert(ms.take(ms.len() as int) == ms);
        self.expire_toasts(now);
    }

    /// The device a row action is for (see [`found_dev`]).
    pub fn find_dev(&self, hwid: &String) -> (r: Option<&UsbDevice>)
        ensures
            r matches Some(d) ==> found_dev(self@, hwid@) == Some(d@),
            r is None ==> found_dev(self@, hwid@) is None,
    {
        if self.lists.tab == Tab::Devices {
            match row_index(&self.lists.device_rows, hwid) {
                Some(i) => {
                    assert(row_views(self.lists.device_rows@)[i as int] == self.lists.device_rows@[i as int]@);
                    Some(&self.lists.device_rows[i].dev)
                },
                None => None,
            }
        } else {
            None
        }
    }

    fn set_row_auto(&mut self, hw: &String, v: bool)
        ensures
            final(self)@ == with_lists(
                old(self)@,
                ListsView { rows: rows_with_auto(old(self)@.lists.rows, hw@, v), ..old(self)@.lists },
            ),
    {
        match row_index(&self.lists.device_rows, hw) {
            Some(i) => {
                let ghost l = row_views(self.lists.device_rows@);
                let mut r = self.lists.device_rows[i].duplicate();
                r.is_auto = v;
                self.lists.device_rows.set(i, r);
                assert(row_views(self.lists.device_rows@) =~= l.update(
                    i as int,
                    RowView { is_auto: v, ..l[i as int] },
                ));
            },
            None => {},
        }
    }

    fn set_row_hidden(&mut self, hw: &String, v: bool)
        ensures
            final(self)@ == with_lists(
                old(self)@,
                ListsView { rows: rows_with_hidden(old(self)@.lists.rows, hw@, v), ..old(self)@.lists },
            ),
    {
        match row_index(&self.lists.device_rows, hw) {
            Some(i) => {
                let ghost l = row_views(self.lists.device_rows@);
                let mut r = self.lists.device_rows[i].duplicate();
                r.is_filtered = v;
                self.lists.device_rows.set(i, r);
                assert(row_views(self.lists.device_rows@) =~= l.update(
                    i as int,
                    RowView { is_filtered: v, ..l[i as int] },
                ));
            },
            None => {},
        }
    }

    fn drop_auto_row(&mut self, hw: &String)
        ensures
            final(self)@ == with_lists(
                old(self)@,
                ListsView { auto: without_exact(old(self)@.lists.auto, hw@), ..old(self)@.lists },
            ),
    {
        let ghost l = device_views(self.lists.auto_rows@);
        let ghost pred = |d: DeviceView| d.hardware_id != hw@;
        let mut kept: Vec<UsbDevice> = Vec::new();
        let mut i: usize = 0;
        while i < self.lists.auto_rows.len()
            invariant
                i <= self.lists.auto_rows.len(),
                l == device_views(self.lists.auto_rows@),
                pred == (|d: DeviceView| d.hardware_id != hw@),
                device_views(kept@) == l.take(i as int).filter(pred),
            decreases self.lists.auto_rows.len() - i,
        {
            let d = &self.lists.auto_rows[i];
            assert(l[i as int] == d@);
            proof {
                assert(l.take(i + 1) == l.take(i as int).push(l[i as int]));
                l.take(i as int).lemma_filter_push(l[i as int], pred);
            }
            let x = chars_of(d.hardware_id.as_str());
            let y = chars_of(hw.as_str());
            if !crate::usbipd::same_chars(&x, &y) {
                let ghost before = device_views(kept@);
                kept.push(d.duplicate());
                assert(device_views(kept@) =~= before.push(d@));
            }
            i += 1;
        }
        assert(l.take(l.len() as int) == l);
        self.lists.auto_rows = kept;
    }

    fn op_if_ready(&mut self, req: OpRequest, fx: &mut Vec<Effect>)
        ensures
            final(self)@ == device_op_step(old(self)@, req@).0,
            effect_views(final(fx)@) == effect_views(old(fx)@) + device_op_step(old(self)@, req@).1,
    {
        if self.env.usbipd.is_none() {
            assert(effect_views(fx@) =~= effect_views(old(fx)@) + Seq::<EffectView>::empty());
            return;
        }
        self.run_op(req, fx);
    }

    /// Flip the dark theme, save, and apply.
    pub fn toggle_theme(&mut self, fx: &mut Vec<Effect>)
        requires
            old(self).wf(),
        ensures
            final(self)@ == toggle_dark_step(old(self)@).0,
            effect_views(final(fx)@) == effect_views(old(fx)@) + toggle_dark_step(old(self)@).1,
            final(self).wf(),
    {
        self.cfg.app_config.dark_mode = !self.cfg.app_config.dark_mode;
        let ghost f0 = effect_views(fx@);
        self.save_cfg(fx);
        let ghost f1 = effect_views(fx@);
        self.apply_theme(fx);
        assert(effect_views(fx@) =~= f0 + (f1.subrange(f0.len() as int, f1.len() as int)
            + seq![EffectView::ApplyTheme]));
    }

    /// Choose the language, save, apply, and relabel the tray.
    pub fn set_lang(&mut self, zh: bool, fx: &mut Vec<Effect>)
        requires
            old(self).wf(),
        ensures
            final(self)@ == set_lang_step(old(self)@, zh).0,
            effect_views(final(fx)@) == effect_views(old(fx)@) + set_lang_step(old(self)@, zh).1,
            final(self).wf(),
    {
        self.cfg.app_config.lang = if zh {
            "zh".to_owned()
        } else {
            "en".to_owned()
        };
        let ghost f0 = effect_views(fx@);
        self.save_cfg(fx);
        let ghost f1 = effect_views(fx@);
        self.apply_theme(fx);
        let ghost f2 = effect_views(fx@);
        self.update_tray_language(fx);
        proof {
            let a = f1.subrange(f0.len() as int, f1.len() as int);
            let b = f2.subrange(f1.len() as int, f2.len() as int);
            let c = effect_views(fx@).subrange(f2.len() as int, effect_views(fx@).len() as int);
            assert(f1 =~= f0 + a);
            assert(f2 =~= f1 + b);
            assert(effect_views(fx@) =~= f2 + c);
            assert(effect_views(fx@) =~= f0 + (a + b + c));
        }
    }

    /// Relabel the tray menu, when there is one.
    pub fn update_tray_language(&mut self, fx: &mut Vec<Effect>)
        ensures
            final(self)@ == old(self)@,
            effect_views(final(fx)@) == effect_views(old(fx)@) + tray_step(old(self)@),
    {
        if self.env.has_tray {
            emit(fx, Effect::UpdateTrayLanguage);
            assert(effect_views(fx@) =~= effect_views(old(fx)@) + seq![
                EffectView::UpdateTrayLanguage,
            ]);
        } else {
            assert(effect_views(fx@) =~= effect_views(old(fx)@) + Seq::<EffectView>::empty());
        }
    }

    /// Open the settings with a draft of the current settings; the network
    /// cards are read by the caller.
    pub fn open_settings(&mut self, fx: &mut Vec<Effect>)
        requires
            old(self).wf(),
        ensures
            final(self)@ == open_settings_step(old(self)@).0,
            effect_views(final(fx)@) == effect_views(old(fx)@) + open_settings_step(old(self)@).1,
            final(self).wf(),
    {
        self.ui.draft = self.cfg.app_config.duplicate();
        emit(fx, Effect::LoadNetcards);
        self.flags.show_settings = true;
        assert(effect_views(fx@) =~= effect_views(old(fx)@) + seq![EffectView::LoadNetcards]);
    }

    fn bind_by_hwid(&mut self, hwid: &String, fx: &mut Vec<Effect>)
        requires
            old(self).wf(),
        ensures
            final(self)@ == bind_step(old(self)@, hwid@).0,
            effect_views(final(fx)@) == effect_views(old(fx)@) + bind_step(old(self)@, hwid@).1,
            final(self).wf(),
    {
        match self.find_dev(hwid) {
            Some(d) => {
                let dev = d.duplicate();
                let use_bus_id = self.cfg.app_config.use_bus_id;
                self.op_if_ready(OpRequest::Bind { dev, use_bus_id }, fx);
            },
            None => {
                assert(effect_views(fx@) =~= effect_views(old(fx)@) + Seq::<EffectView>::empty());
            },
        }
    }

    fn unbind_by_hwid(&mut self, hwid: &String, fx: &mut Vec<Effect>)
        requires
            old(self).wf(),
        ensures
            final(self)@ == unbind_step(old(self)@, hwid@).0,
            effect_views(final(fx)@) == effect_views(old(fx)@) + unbind_step(old(self)@, hwid@).1,
            final(self).wf(),
    {
        match self.find_dev(hwid) {
            Some(d) => {
                let dev = d.duplicate();
                self.unbind(dev, fx);
            },
            None => {
                assert(effect_views(fx@) =~= effect_views(old(fx)@) + Seq::<EffectView>::empty());
            },
        }
    }

    /// Start an unbind of `dev`, once usbipd-win is known and no operation
    /// runs.
    fn unbind(&mut self, dev: UsbDevice, fx: &mut Vec<Effect>)
        ensures
            final(self)@ == device_op_step(
                old(self)@,
                OpRequestView::Unbind { dev: dev@, use_bus_id: old(self)@.cfg.app_config.use_bus_id },
            ).0,
            effect_views(final(fx)@) == effect_views(old(fx)@) + device_op_step(
                old(self)@,
                OpRequestView::Unbind { dev: dev@, use_bus_id: old(self)@.cfg.app_config.use_bus_id },
            ).1,
    {
        let use_bus_id = self.cfg.app_config.use_bus_id;
        self.op_if_ready(OpRequest::Unbind { dev, use_bus_id }, fx);
    }

    fn attach_by_hwid(&mut self, hwid: &String, fx: &mut Vec<Effect>)
        requires
            old(self).wf(),
        ensures
            final(self)@ == attach_action_step(old(self)@, hwid@).0,
            effect_views(final(fx)@) == effect_views(old(fx)@) + attach_action_step(old(self)@, hwid@).1,
            final(self).wf(),
    {
        match self.find_dev(hwid) {
            Some(d) => {
                let dev = d.duplicate();
                self.attach(dev, false, fx);
            },
            None => {
                assert(effect_views(fx@) =~= effect_views(old(fx)@) + Seq::<EffectView>::empty());
            },
        }
    }

    fn detach_by_hwid(&mut self, hwid: &String, fx: &mut Vec<Effect>)
        requires
            old(self).wf(),
        ensures
            final(self)@ == detach_step(old(self)@, hwid@).0,
            effect_views(final(fx)@) == effect_views(old(fx)@) + detach_step(old(self)@, hwid@).1,
            final(self).wf(),
    {
        match self.find_dev(hwid) {
            Some(d) => {
                let dev = d.duplicate();
                let use_bus_id = self.cfg.app_config.use_bus_id;
                self.op_if_ready(OpRequest::Detach { dev, use_bus_id }, fx);
            },
            None => {
                assert(effect_views(fx@) =~= effect_views(old(fx)@) + Seq::<EffectView>::empty());
            },
        }
    }

    fn toast_info(&mut self, text: String, now: u64)
        requires
            now <= CLOCK_LIMIT,
        ensures
            final(self)@ == with_toast(old(self)@, ToastKind::Info, text@, now + 3_000),
    {
        self.push_toast(ToastKind::Info, text, now + 3_000);
    }

    fn add_auto_by_hwid(&mut self, hwid: &String, now: u64, fx: &mut Vec<Effect>)
        requires
            old(self).wf(),
            now <= CLOCK_LIMIT,
        ensures
            final(self)@ == add_auto_action_step(old(self)@, hwid@, now).0,
            effect_views(final(fx)@) == effect_views(old(fx)@) + add_auto_action_step(old(self)@, hwid@, now).1,
            final(self).wf(),
    {
        match self.find_dev(hwid) {
            Some(d) => {
                let dev = d.duplicate();
                self.add_auto(dev, now, fx);
            },
            None => {
                assert(effect_views(fx@) =~= effect_views(old(fx)@) + Seq::<EffectView>::empty());
            },
        }
    }

    /// Mark `dev` for automatic attach (see [`add_auto_step`]).
    fn add_auto(&mut self, dev: UsbDevice, now: u64, fx: &mut Vec<Effect>)
        requires
            now <= CLOCK_LIMIT,
        ensures
            final(self)@ == add_auto_step(old(self)@, dev@, now).0,
            effect_views(final(fx)@) == effect_views(old(fx)@) + add_auto_step(old(self)@, dev@, now).1,
    {
        if self.cfg.is_in_auto_list(&dev.hardware_id) {
            assert(effect_views(fx@) =~= effect_views(old(fx)@) + Seq::<EffectView>::empty());
            return;
        }
        self.cfg.add_to_auto_list(&dev);
        let ghost f0 = effect_views(fx@);
        self.save_cfg(fx);
        let ghost f1 = effect_views(fx@);
        self.set_row_auto(&dev.hardware_id, true);
        let name = dev.short_name();
        let mut text: Vec<char> = Vec::new();
        text.push('\'');
        let n = chars_of(name.as_str());
        let text = crate::text::concat(&text, &n);
        let tail = chars_of("' added.");
        let text = crate::text::concat(&text, &tail);
        assert(text@ == added_text(short_name_of(dev@)));
        self.toast_info(crate::text::string_from(&text), now);
        if dev.is_connected {
            self.attach(dev, true, fx);
        }
        proof {
            let a = f1.subrange(f0.len() as int, f1.len() as int);
            let b = effect_views(fx@).subrange(f1.len() as int, effect_views(fx@).len() as int);
            assert(f1 =~= f0 + a);
            assert(effect_views(fx@) =~= f1 + b);
            assert(effect_views(fx@) =~= f0 + (a + b));
        }
    }

    fn remove_auto_by_hwid(&mut self, hwid: &String, now: u64, fx: &mut Vec<Effect>)
        requires
            old(self).wf(),
            now <= CLOCK_LIMIT,
        ensures
            final(self)@ == remove_auto_step(old(self)@, hwid@, now).0,
            effect_views(final(fx)@) == effect_views(old(fx)@) + remove_auto_step(old(self)@, hwid@, now).1,
            final(self).wf(),
    {
        if !self.cfg.is_in_auto_list(hwid) {
            assert(effect_views(fx@) =~= effect_views(old(fx)@) + Seq::<EffectView>::empty());
            return;
        }
        let name = match self.find_dev(hwid) {
            Some(d) => d.short_name(),
            None => hwid.clone(),
        };
        self.cfg.remove_from_auto_list(hwid);
        self.save_cfg(fx);
        self.set_row_auto(hwid, false);
        self.drop_auto_row(hwid);
        let mut text: Vec<char> = Vec::new();
        text.push('\'');
        let n = chars_of(name.as_str());
        let text = crate::text::concat(&text, &n);
        let tail = chars_of("' removed.");
        let text = crate::text::concat(&text, &tail);
        self.toast_info(crate::text::string_from(&text), now);
    }

    fn hide_by_hwid(&mut self, hwid: &String, now: u64, fx: &mut Vec<Effect>)
        requires
            old(self).wf(),
            now <= CLOCK_LIMIT,
        ensures
            final(self)@ == hide_step(old(self)@, hwid@, now).0,
            effect_views(final(fx)@) == effect_views(old(fx)@) + hide_step(old(self)@, hwid@, now).1,
            final(self).wf(),
    {
        let dev = match self.find_dev(hwid) {
            Some(d) => d.duplicate(),
            None => {
                assert(effect_views(fx@) =~= effect_views(old(fx)@) + Seq::<EffectView>::empty());
                return;
            },
        };
        self.cfg.add_to_filter_list(&dev);
        self.save_cfg(fx);
        self.set_row_hidden(hwid, true);
        let name = dev.short_name();
        let n = chars_of(name.as_str());
        let mut text = crate::text::concat(&n, &Vec::new());
        text.push(' ');
        text.push('(');
        let h = chars_of(dev.hardware_id.as_str());
        let mut text = crate::text::concat(&text, &h);
        text.push(')');
        assert(text@ =~= hidden_text(dev@));
        self.toast_info(crate::text::string_from(&text), now);
    }

    fn show_by_hwid(&mut self, hwid: &String, fx: &mut Vec<Effect>)
        requires
            old(self).wf(),
        ensures
            final(self)@ == show_step(old(self)@, hwid@).0,
            effect_views(final(fx)@) == effect_views(old(fx)@) + show_step(old(self)@, hwid@).1,
            final(self).wf(),
    {
        if self.cfg.is_in_filter_list(hwid) {
            self.cfg.remove_from_filter_list(hwid);
            self.save_cfg(fx);
        } else {
            assert(effect_views(fx@) =~= effect_views(old(fx)@) + Seq::<EffectView>::empty());
        }
        self.set_row_hidden(hwid, false);
    }

    fn unbind_persisted(&mut self, hwid: &String, fx: &mut Vec<Effect>)
        requires
            old(self).wf(),
        ensures
            final(self)@ == unbind_persisted_step(old(self)@, hwid@).0,
            effect_views(final(fx)@) == effect_views(old(fx)@) + unbind_persisted_step(old(self)@, hwid@).1,
            final(self).wf(),
    {
        match device_index(&self.lists.persisted_rows, hwid) {
            Some(i) => {
                let dev = self.lists.persisted_rows[i].duplicate();
                self.unbind(dev, fx);
            },
            None => {
                assert(effect_views(fx@) =~= effect_views(old(fx)@) + Seq::<EffectView>::empty());
            },
        }
    }

    fn unbind_all_persisted(&mut self, fx: &mut Vec<Effect>)
        requires
            old(self).wf(),
        ensures
            final(self)@ == unbind_all_step(old(self)@).0,
            effect_views(final(fx)@) == effect_views(old(fx)@) + unbind_all_step(old(self)@).1,
            final(self).wf(),
    {
        if self.lists.persisted_rows.len() == 0 {
            assert(effect_views(fx@) =~= effect_views(old(fx)@) + Seq::<EffectView>::empty());
            return;
        }
        let devices = crate::snapshot::copy_list(&self.lists.persisted_rows);
        let use_bus_id = self.cfg.app_config.use_bus_id;
        self.op_if_ready(OpRequest::UnbindAll { devices, use_bus_id }, fx);
    }

    fn remove_auto_device(&mut self, hwid: &String, fx: &mut Vec<Effect>)
        requires
            old(self).wf(),
        ensures
            final(self)@ == remove_auto_device_step(old(self)@, hwid@).0,
            effect_views(final(fx)@) == effect_views(old(fx)@) + remove_auto_device_step(old(self)@, hwid@).1,
            final(self).wf(),
    {
        self.cfg.remove_from_auto_list(hwid);
        self.save_cfg(fx);
        self.drop_auto_row(hwid);
        self.lists.restore_selections();
    }

    fn remove_all_auto(&mut self, fx: &mut Vec<Effect>)
        requires
            old(self).wf(),
        ensures
            final(self)@ == remove_all_auto_step(old(self)@).0,
            effect_views(final(fx)@) == effect_views(old(fx)@) + remove_all_auto_step(old(self)@).1,
            final(self).wf(),
    {
        self.cfg.auto_attach_device_list = Vec::new();
        assert(device_views(self.cfg.auto_attach_device_list@) =~= Seq::<DeviceView>::empty());
        self.save_cfg(fx);
        self.lists.auto_rows = Vec::new();
        assert(device_views(self.lists.auto_rows@) =~= Seq::<DeviceView>::empty());
        self.lists.restore_selections();
    }

    /// Carry out one widget action (see [`action_step`]).
    pub fn run_action(&mut self, a: Action, now: u64, fx: &mut Vec<Effect>)
        requires
            old(self).wf(),
            now <= CLOCK_LIMIT,
        ensures
            final(self)@ == action_step(old(self)@, a@, now).0,
            effect_views(final(fx)@) == effect_views(old(fx)@) + action_step(old(self)@, a@, now).1,
            final(self).wf(),
    {
        match a {
            Action::Select(tab, hwid) => {
                self.set_selected(tab, hwid);
                assert(effect_views(fx@) =~= effect_views(old(fx)@) + Seq::<EffectView>::empty());
            },
            Action::ToggleFilter => {
                self.lists.show_filtered = !self.lists.show_filtered;
                self.lists.restore_selections();
                assert(effect_views(fx@) =~= effect_views(old(fx)@) + Seq::<EffectView>::empty());
            },
            Action::ToggleDark => self.toggle_theme(fx),
            Action::SetLang(zh) => self.set_lang(zh, fx),
            Action::OpenSettings => self.open_settings(fx),
            Action::Quit => {
                self.flags.exiting = true;
                assert(effect_views(fx@) =~= effect_views(old(fx)@) + Seq::<EffectView>::empty());
            },
            Action::Refresh => {
                self.lists.show_filtered = false;
                self.start_refresh(fx);
            },
            Action::Bind(hwid) => self.bind_by_hwid(&hwid, fx),
            Action::Unbind(hwid) => self.unbind_by_hwid(&hwid, fx),
            Action::Attach(hwid) => self.attach_by_hwid(&hwid, fx),
            Action::Detach(hwid) => self.detach_by_hwid(&hwid, fx),
            Action::AddAuto(hwid) => self.add_auto_by_hwid(&hwid, now, fx),
            Action::RemoveAuto(hwid) => self.remove_auto_by_hwid(&hwid, now, fx),
            Action::Hide(hwid) => self.hide_by_hwid(&hwid, now, fx),
            Action::Show(hwid) => self.show_by_hwid(&hwid, fx),
            Action::UnbindPersisted(hwid) => self.unbind_persisted(&hwid, fx),
            Action::UnbindAllPersisted => self.unbind_all_persisted(fx),
            Action::RemoveAutoDevice(hwid) => self.remove_auto_device(&hwid, fx),
            Action::RemoveAllAuto => self.remove_all_auto(fx),
        }
    }

    /// `<window title> <version>` in the current language.
    pub fn window_title(&self, version: &str) -> (r: String)
        ensures
            r@ == title_text(self@.flags.zh, version@),
    {
        let t0 = t(Msg::WindowTitle, self.flags.zh);
        let a = chars_of(t0.as_str());
        let mut v = crate::text::concat(&a, &Vec::new());
        v.push(' ');
        let b = chars_of(version);
        let v = crate::text::concat(&v, &b);
        assert(v@ =~= title_text(self@.flags.zh, version@));
        crate::text::string_from(&v)
    }

    /// Carry out the frame's actions in order, then set the window title
    /// when it changed (see [`run_actions_step`]).
    pub fn run_actions(&mut self, actions: Vec<Action>, now: u64, version: &str, fx: &mut Vec<Effect>)
        requires
            old(self).wf(),
            now <= CLOCK_LIMIT,
        ensures
            final(self)@ == run_actions_step(old(self)@, action_views(actions@), now, version@).0,
            effect_views(final(fx)@) == effect_views(old(fx)@) + run_actions_step(
                old(self)@,
                action_views(actions@),
                now,
                version@,
            ).1,
            final(self).wf(),
    {
        let ghost acts = action_views(actions@);
        let ghost s0 = self@;
        let ghost f0 = effect_views(fx@);
        assert(acts.len() == actions.len());
        let mut rest = actions;
        let mut done: usize = 0;
        while rest.len() > 0
            invariant
                done + rest.len() == acts.len(),
                acts.len() <= usize::MAX,
                action_views(rest@) == acts.skip(done as int),
                self.wf(),
                now <= CLOCK_LIMIT,
                self@ == actions_step(s0, acts.take(done as int), now).0,
                effect_views(fx@) == f0 + actions_step(s0, acts.take(done as int), now).1,
            decreases rest.len(),
        {
            let ghost f1 = effect_views(fx@);
            let ghost before = rest@;
            let a = rest.remove(0);
            assert(action_views(before)[0] == acts.skip(done as int)[0]);
            assert(a@ == acts[done as int]);
            assert(action_views(rest@) =~= action_views(before).drop_first());
            assert(acts.skip(done as int).drop_first() =~= acts.skip(done + 1));
            self.run_action(a, now, fx);
            proof {
                assert(acts.take(done + 1).drop_last() == acts.take(done as int));
                assert(acts.take(done + 1).last() == acts[done as int]);
                let e = effect_views(fx@).subrange(f1.len() as int, effect_views(fx@).len() as int);
                assert(effect_views(fx@) =~= f1 + e);
            }
            done = done + 1;
        }
        assert(acts.take(acts.len() as int) == acts);
        let ghost s1 = self@;
        let ghost f1 = effect_views(fx@);
        let title = self.window_title(version);
        let same = match &self.ui.last_title {
            Some(last) => {
                let x = chars_of(last.as_str());
                let y = chars_of(title.as_str());
                crate::usbipd::same_chars(&x, &y)
            },
            None => false,
        };
        if !same {
            emit(fx, Effect::SetTitle(title.clone()));
            self.ui.last_title = Some(title);
        }
        assert(effect_views(fx@) =~= f0 + (f1.subrange(f0.len() as int, f1.len() as int)
            + title_step(s1, version@).1));
    }

    /// Select `hwid` on `tab`.
    pub fn set_selected(&mut self, tab: Tab, hwid: String)
        ensures
            final(self)@ == with_lists(old(self)@, with_selection(old(self)@.lists, tab, hwid@)),
    {
        match tab {
            Tab::Devices => self.lists.sel_devices = Some(hwid),
            Tab::Persisted => self.lists.sel_persisted = Some(hwid),
            Tab::AutoAttach => self.lists.sel_auto = Some(hwid),
        }
    }

    /// The network cards read for the settings.
    pub fn set_netcards(&mut self, cards: Vec<(String, String)>)
        ensures
            final(self)@ == (AppView {
                env: EnvView { netcards: card_views(cards@), ..old(self)@.env },
                ..old(self)@
            }),
    {
        self.env.netcards = cards;
    }

    pub fn close_settings(&mut self)
        ensures
            final(self)@ == with_flags(old(self)@, Flags { show_settings: false, ..old(self)@.flags }),
    {
        self.flags.show_settings = false;
    }

    /// Confirm the settings (see [`settings_ok_step`]).
    pub fn settings_ok(&mut self, fx: &mut Vec<Effect>)
        requires
            old(self).wf(),
        ensures
            final(self)@ == settings_ok_step(old(self)@).0,
            effect_views(final(fx)@) == effect_views(old(fx)@) + settings_ok_step(old(self)@).1,
            final(self).wf(),
    {
        self.cfg.app_config = self.ui.draft.duplicate();
        if self.cfg.app_config.lang.as_str().is_empty() {
            self.cfg.app_config.lang = if self.flags.zh {
                "zh".to_owned()
            } else {
                "en".to_owned()
            };
        }
        self.save_cfg(fx);
        self.flags.show_settings = false;
    }

    /// Reset the settings (see [`reset_config_step`]).
    pub fn reset_config(&mut self, now: u64, fx: &mut Vec<Effect>)
        requires
            old(self).wf(),
            now <= CLOCK_LIMIT,
        ensures
            final(self)@ == reset_config_step(old(self)@, now).0,
            effect_views(final(fx)@) == effect_views(old(fx)@) + reset_config_step(old(self)@, now).1,
            final(self).wf(),
    {
        self.cfg.reset();
        self.save_cfg(fx);
        self.ui.draft = self.cfg.app_config.duplicate();
        let text = t(Msg::ConfigReset, self.flags.zh);
        self.toast_info(text, now);
    }

    /// Delete the log files, then say so.
    pub fn clear_logs(&mut self, fx: &mut Vec<Effect>)
        ensures
            final(self)@ == with_dialog(
                old(self)@,
                msg_text(Msg::Note, old(self)@.flags.zh),
                msg_text(Msg::HistoryLogsCleared, old(self)@.flags.zh),
            ),
            effect_views(final(fx)@) == effect_views(old(fx)@).push(EffectView::ClearLogs),
    {
        emit(fx, Effect::ClearLogs);
        let zh = self.flags.zh;
        self.set_dialog(t(Msg::Note, zh), t(Msg::HistoryLogsCleared, zh));
    }

    pub fn open_config_dir(&self, fx: &mut Vec<Effect>)
        ensures
            effect_views(final(fx)@) == effect_views(old(fx)@).push(EffectView::OpenConfigDir),
    {
        emit(fx, Effect::OpenConfigDir);
    }

    /// The frame's bookkeeping before drawing (see [`tick_step`]).
    pub fn tick(&mut self, now: u64, fx: &mut Vec<Effect>)
        requires
            old(self).wf(),
        ensures
            final(self)@ == tick_step(old(self)@, now).0,
            effect_views(final(fx)@) == effect_views(old(fx)@) + tick_step(old(self)@, now).1,
            final(self).wf(),
    {
        let ghost f0 = effect_views(fx@);
        self.flush_usb_activity(now, fx);
        let ghost f1 = effect_views(fx@);
        self.tick_rest(fx);
        proof {
            let a = f1.subrange(f0.len() as int, f1.len() as int);
            let b = effect_views(fx@).subrange(f1.len() as int, effect_views(fx@).len() as int);
            assert(f1 =~= f0 + a);
            assert(effect_views(fx@) =~= f1 + b);
            assert(effect_views(fx@) =~= f0 + (a + b));
        }
    }

    fn tick_rest(&mut self, fx: &mut Vec<Effect>)
        requires
            old(self).wf(),
        ensures
            final(self)@ == tick_rest_step(old(self)@).0,
            effect_views(final(fx)@) == effect_views(old(fx)@) + tick_rest_step(old(self)@).1,
            final(self).wf(),
    {
        if self.flags.exiting {
            emit(fx, Effect::CloseWindow);
            assert(effect_views(fx@) =~= effect_views(old(fx)@) + seq![EffectView::CloseWindow]);
            return;
        }
        let ghost f0 = effect_views(fx@);
        if self.flags.need_refresh && !self.flags.busy {
            self.flags.need_refresh = false;
            self.start_refresh(fx);
        }
        let ghost f1 = effect_views(fx@);
        if self.flags.busy {
            emit(fx, Effect::RepaintAfter(120));
        }
        proof {
            let a = f1.subrange(f0.len() as int, f1.len() as int);
            let b = effect_views(fx@).subrange(f1.len() as int, effect_views(fx@).len() as int);
            assert(f1 =~= f0 + a);
            assert(effect_views(fx@) =~= f1 + b);
            assert(effect_views(fx@) =~= f0 + (a + b));
        }
    }

    /// The drawing pass asks for a state read that was due.
    pub fn take_refresh(&mut self, fx: &mut Vec<Effect>)
        ensures
            old(self)@.flags.need_refresh ==> final(self)@ == refresh_step(
                with_flags(old(self)@, Flags { need_refresh: false, ..old(self)@.flags }),
            ).0 && effect_views(final(fx)@) == effect_views(old(fx)@) + refresh_step(
                with_flags(old(self)@, Flags { need_refresh: false, ..old(self)@.flags }),
            ).1,
            !old(self)@.flags.need_refresh ==> final(self)@ == old(self)@ && final(fx)@ == old(fx)@,
    {
        if self.flags.need_refresh {
            self.flags.need_refresh = false;
            self.start_refresh(fx);
        }
    }

    /// Closing the window was asked for (see [`close_step`]).
    pub fn on_close_requested(&mut self, fx: &mut Vec<Effect>)
        requires
            old(self).wf(),
        ensures
            final(self)@ == close_step(old(self)@).0,
            effect_views(final(fx)@) == effect_views(old(fx)@) + close_step(old(self)@).1,
            final(self).wf(),
    {
        if self.close_to_tray_requested() && !self.flags.hidden {
            emit(fx, Effect::CancelClose);
            emit(fx, Effect::HideWindow);
            self.flags.hidden = true;
            assert(effect_views(fx@) =~= effect_views(old(fx)@) + seq![
                EffectView::CancelClose,
                EffectView::HideWindow,
            ]);
        } else {
            self.flags.exiting = true;
            emit(fx, Effect::CloseWindow);
            assert(effect_views(fx@) =~= effect_views(old(fx)@) + seq![EffectView::CloseWindow]);
        }
    }

    /// The window keeps repainting while busy or while a notice or a
    /// message box shows.
    pub fn needs_repaint(&self) -> (r: bool)
        ensures
            r == (self@.flags.busy || self@.ui.toasts.len() > 0 || self@.ui.dialog is Some),
    {
        self.flags.busy || self.ui.toasts.len() > 0 || self.ui.dialog.is_some()
    }

    /// Closing hides the window in the tray.
    pub fn close_to_tray_requested(&self) -> (r: bool)
        ensures
            r == (self@.cfg.app_config.close_to_tray && !self@.flags.exiting && self@.env.has_tray),
    {
        self.cfg.app_config.close_to_tray && !self.flags.exiting && self.env.has_tray
    }

    /// Stop every daemon, the USB monitor and the tray.
    pub fn stop_all(&self, fx: &mut Vec<Effect>)
        ensures
            effect_views(final(fx)@) == effect_views(old(fx)@).push(EffectView::StopAll),
    {
        emit(fx, Effect::StopAll);
    }

    pub fn devices(&self) -> (r: &Vec<DevRow>)
        ensures
            row_views(r@) == self@.lists.rows,
    {
        &self.lists.device_rows
    }

    pub fn persisted(&self) -> (r: &Vec<UsbDevice>)
        ensures
            device_views(r@) == self@.lists.persisted,
    {
        &self.lists.persisted_rows
    }

    pub fn auto_devices(&self) -> (r: &Vec<UsbDevice>)
        ensures
            device_views(r@) == self@.lists.auto,
    {
        &self.lists.auto_rows
    }

    pub fn cfg(&self) -> (r: &SystemConfig)
        ensures
            r@ == self@.cfg,
    {
        &self.cfg
    }

    /// The usbipd-win installation, once checked.
    pub fn usbipd(&self) -> (r: Option<&Usbipd>)
        ensures
            match r {
                Some(u) => self@.env.usbipd == Some(u@),
                None => self@.env.usbipd is None,
            },
    {
        match &self.env.usbipd {
            Some(u) => Some(u),
            None => None,
        }
    }

    pub fn tab(&self) -> (r: Tab)
        ensures
            r == self@.lists.tab,
    {
        self.lists.tab
    }

    pub fn set_tab(&mut self, tab: Tab)
        ensures
            final(self)@ == with_lists(old(self)@, ListsView { tab, ..old(self)@.lists }),
    {
        self.lists.tab = tab;
    }

    pub fn selected_hwid(&self, tab: Tab) -> (r: Option<String>)
        ensures
            opt_str(r) == match tab {
                Tab::Devices => self@.lists.sel_devices,
                Tab::Persisted => self@.lists.sel_persisted,
                Tab::AutoAttach => self@.lists.sel_auto,
            },
    {
        match tab {
            Tab::Devices => self.lists.sel_devices.clone(),
            Tab::Persisted => self.lists.sel_persisted.clone(),
            Tab::AutoAttach => self.lists.sel_auto.clone(),
        }
    }

    pub fn show_filtered(&self) -> (r: bool)
        ensures
            r == self@.lists.show_filtered,
    {
        self.lists.show_filtered
    }

    /// Show or hide the hidden rows; the selections follow.
    pub fn set_show_filtered(&mut self, v: bool)
        ensures
            final(self)@ == with_lists(
                old(self)@,
                restore_lists(ListsView { show_filtered: v, ..old(self)@.lists }),
            ),
    {
        self.lists.show_filtered = v;
        self.lists.restore_selections();
    }

    pub fn is_initialized(&self) -> (r: bool)
        ensures
            r == self@.flags.initialized,
    {
        self.flags.initialized
    }

    pub fn is_exiting(&self) -> (r: bool)
        ensures
            r == self@.flags.exiting,
    {
        self.flags.exiting
    }

    pub fn mark_hidden(&mut self)
        ensures
            final(self)@ == with_flags(old(self)@, Flags { hidden: true, ..old(self)@.flags }),
    {
        self.flags.hidden = true;
    }

    pub fn is_hidden(&self) -> (r: bool)
        ensures
            r == self@.flags.hidden,
    {
        self.flags.hidden
    }

    pub fn toasts(&self) -> (r: &Vec<Toast>)
        ensures
            toast_views(r@) == self@.ui.toasts,
    {
        &self.ui.toasts
    }

    /// The notice at `i` was dismissed.
    pub fn remove_toast(&mut self, i: usize)
        requires
            i < old(self)@.ui.toasts.len(),
        ensures
            final(self)@ == (AppView {
                ui: SurfaceView { toasts: old(self)@.ui.toasts.remove(i as int), ..old(self)@.ui },
                ..old(self)@
            }),
    {
        let ghost before = toast_views(self.ui.toasts@);
        self.ui.toasts.remove(i);
        assert(toast_views(self.ui.toasts@) =~= before.remove(i as int));
    }

    pub fn dialog(&self) -> (r: &Option<Dialog>)
        ensures
            dialog_view(*r) == self@.ui.dialog,
    {
        &self.ui.dialog
    }

    /// The message box was closed.
    pub fn close_dialog(&mut self)
        ensures
            final(self)@ == (AppView { ui: SurfaceView { dialog: None, ..old(self)@.ui }, ..old(self)@ }),
    {
        self.ui.dialog = None;
    }

    pub fn settings_draft(&self) -> (r: &AppConfig)
        ensures
            r@ == self@.ui.draft,
    {
        &self.ui.draft
    }

    pub fn set_settings_draft(&mut self, draft: AppConfig)
        ensures
            final(self)@ == (AppView { ui: SurfaceView { draft: draft@, ..old(self)@.ui }, ..old(self)@ }),
    {
        self.ui.draft = draft;
    }

    pub fn settings_visible(&self) -> (r: bool)
        ensures
            r == self@.flags.show_settings,
    {
        self.flags.show_settings
    }

    pub fn netcards(&self) -> (r: &Vec<(String, String)>)
        ensures
            card_views(r@) == self@.env.netcards,
    {
        &self.env.netcards
    }

    /// How many rows of the Devices tab are hidden.
    pub fn hidden_count(&self) -> (r: usize)
        ensures
            r == crate::model::hidden_in(self@.lists.rows),
    {
        crate::model::count_hidden(&self.lists.device_rows)
    }

    /// Which controls of `row` are enabled (see [`crate::model::flags_of`]).
    pub fn row_flags(&self, row: &DevRow) -> (r: crate::model::RowFlags)
        ensures
            r == crate::model::flags_of(row@),
    {
        crate::model::flags_for(row)
    }

    /// The device whose details the current tab shows (see [`current_of`]).
    pub fn current_device(&self) -> (r: Option<&UsbDevice>)
        ensures
            match r {
                Some(d) => current_of(self@) == Some(d@),
                None => current_of(self@) is None,
            },
    {
        let sel = match self.lists.tab {
            Tab::Devices => &self.lists.sel_devices,
            Tab::Persisted => &self.lists.sel_persisted,
            Tab::AutoAttach => &self.lists.sel_auto,
        };
        let hw = match sel {
            Some(h) => h.clone(),
            None => String::new(),
        };
        match self.lists.tab {
            Tab::Devices => match row_index(&self.lists.device_rows, &hw) {
                Some(i) => {
                    assert(row_views(self.lists.device_rows@)[i as int] == self.lists.device_rows@[i as int]@);
                    Some(&self.lists.device_rows[i].dev)
                },
                None => None,
            },
            Tab::Persisted => match device_index(&self.lists.persisted_rows, &hw) {
                Some(i) => Some(&self.lists.persisted_rows[i]),
                None => None,
            },
            Tab::AutoAttach => match device_index(&self.lists.auto_rows, &hw) {
                Some(i) => Some(&self.lists.auto_rows[i]),
                None => None,
            },
        }
    }

    fn apply_lists(&mut self, all: Vec<UsbDevice>, now: u64, fx: &mut Vec<Effect>)
        requires
            old(self).wf(),
            now <= CLOCK_LIMIT,
        ensures
            final(self)@ == lists_step(old(self)@, device_views(all@), now).0,
            effect_views(final(fx)@) == effect_views(old(fx)@) + lists_step(
                old(self)@,
                device_views(all@),
                now,
            ).1,
            final(self).wf(),
    {
        self.lists.device_rows = device_rows(&all, &self.cfg);
        self.lists.persisted_rows = persisted_rows(&all);
        self.lists.auto_rows = auto_rows(&self.cfg.auto_attach_device_list, &all);
        self.lists.restore_selections();
        self.flags.initialized = true;
        self.maybe_auto_attach_inner(false, now, fx);
    }
}

/// Booking a time in range keeps every booked time in range.
proof fn lemma_insert_keeps_range(p: Seq<(Seq<char>, u64)>, hw: Seq<char>, t: u64)
    requires
        times_in_range(p),
        t <= CLOCK_LIMIT,
    ensures
        times_in_range(pending_insert(p, hw, t)),
{
    let q = pending_insert(p, hw, t);
    crate::model::lemma_pending_index_from(p, hw, 0);
    assert forall|i: int| 0 <= i < q.len() implies (#[trigger] q[i]).1 <= CLOCK_LIMIT by {
        match crate::model::pending_index(p, hw) {
            Some(k) => {
                if i == k {
                    assert(q[i] == (hw, t));
                } else {
                    assert(q[i] == p[i]);
                }
            },
            None => {
                if i < p.len() {
                    assert(q[i] == p[i]);
                }
            },
        }
    }
}

} // verus!
