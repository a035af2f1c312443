//! What the window shows: the three device lists, the per-row switches,
//! the selections, and which device an automatic attach takes next.

use vstd::prelude::*;
use crate::config::{
    AppConfig, DeviceView, SystemConfig, UsbDevice, device_views, in_list, short_name_of,
};
use crate::lang::{Msg, msg_text, t};
use crate::text::{chars_of, concat, string_from};
use crate::usbipd::{Usbipd, find_device, first_with_id, id_spec, lemma_first_with_id};
use crate::snapshot::same_device;

verus! {

// ---------------------------------------------------------------------------
// Types shared with the window
// ---------------------------------------------------------------------------

#[derive(Debug, Clone, Copy, PartialEq, Eq, Hash, Structural)]
pub enum Tab {
    Devices,
    Persisted,
    AutoAttach,
}

#[derive(Debug, Clone, Copy, PartialEq, Eq, Structural)]
pub enum ToastKind {
    Info,
    Success,
    Error,
}

/// A short notice; `expires` is a reading of the caller's millisecond clock.
pub struct Toast {
    pub kind: ToastKind,
    pub text: String,
    pub expires: u64,
}

/// What the background workers and the tray send to the window.
pub enum UiMsg {
    Error(String),
    Lists(Vec<UsbDevice>),
    ListFailed(String),
    OpDone { ok: bool, message: String },
    UsbActivity,
    ShowWindow,
    ExitApp,
    UsbipdReady(Result<(Usbipd, Option<String>), String>),
}

/// A connected device with its auto-attach and hidden marks.
pub struct DevRow {
    pub dev: UsbDevice,
    pub is_auto: bool,
    pub is_filtered: bool,
}

pub ghost struct RowView {
    pub dev: DeviceView,
    pub is_auto: bool,
    pub is_filtered: bool,
}

impl View for DevRow {
    type V = RowView;

    open spec fn view(&self) -> RowView {
        RowView { dev: self.dev@, is_auto: self.is_auto, is_filtered: self.is_filtered }
    }
}

pub open spec fn row_views(v: Seq<DevRow>) -> Seq<RowView> {
    v.map_values(|r: DevRow| r@)
}

pub open spec fn visible(r: RowView, show_filtered: bool) -> bool {
    show_filtered || !r.is_filtered
}

impl DevRow {
    /// Hidden rows show only while hidden rows are shown.
    pub fn is_visible(&self, show_filtered: bool) -> (r: bool)
        ensures
            r == visible(self@, show_filtered),
    {
        show_filtered || !self.is_filtered
    }

    pub fn duplicate(&self) -> (r: DevRow)
        ensures
            r@ == self@,
    {
        DevRow { dev: self.dev.duplicate(), is_auto: self.is_auto, is_filtered: self.is_filtered }
    }
}

/// A message box.
pub struct Dialog {
    pub title: String,
    pub message: String,
}

impl Default for Dialog {
    fn default() -> (r: Self)
        ensures
            r.title@ == Seq::<char>::empty(),
            r.message@ == Seq::<char>::empty(),
    {
        Dialog { title: String::new(), message: String::new() }
    }
}

/// What a widget asked for during one frame; carried out after it.
pub enum Action {
    Select(Tab, String),
    ToggleFilter,
    ToggleDark,
    SetLang(bool),
    OpenSettings,
    Quit,
    Bind(String),
    Unbind(String),
    Attach(String),
    Detach(String),
    AddAuto(String),
    RemoveAuto(String),
    Hide(String),
    Show(String),
    UnbindPersisted(String),
    UnbindAllPersisted,
    RemoveAutoDevice(String),
    RemoveAllAuto,
    Refresh,
}

/// Which per-row controls are enabled.
#[derive(Debug, Clone, Copy, PartialEq, Eq, Structural)]
pub struct RowFlags {
    pub auto_enabled: bool,
    pub bind_enabled: bool,
    pub attach_enabled: bool,
    pub force_enabled: bool,
}

/// A hidden row has every control off; an auto-attach row can be bound only
/// while unbound and attached only while not attached; a manual row can be
/// attached once bound and force-bound while unbound.
pub open spec fn flags_of(r: RowView) -> RowFlags {
    RowFlags {
        auto_enabled: !r.is_filtered,
        bind_enabled: !r.is_filtered && (!r.is_auto || !r.dev.is_bound),
        attach_enabled: !r.is_filtered && if r.is_auto {
            !r.dev.is_attached
        } else {
            r.dev.is_bound
        },
        force_enabled: !r.is_filtered && !r.is_auto && !r.dev.is_bound,
    }
}

pub fn flags_for(row: &DevRow) -> (r: RowFlags)
    ensures
        r == flags_of(row@),
{
    RowFlags {
        auto_enabled: !row.is_filtered,
        bind_enabled: !row.is_filtered && (!row.is_auto || !row.dev.is_bound),
        attach_enabled: !row.is_filtered && if row.is_auto {
            !row.dev.is_attached
        } else {
            row.dev.is_bound
        },
        force_enabled: !row.is_filtered && !row.is_auto && !row.dev.is_bound,
    }
}

// ---------------------------------------------------------------------------
// The three lists built from a state snapshot
// ---------------------------------------------------------------------------

pub open spec fn row_of(d: DeviceView, cfg: crate::config::SystemConfigView) -> RowView {
    RowView {
        dev: d,
        is_auto: in_list(cfg.auto_list, d.hardware_id),
        is_filtered: in_list(cfg.filter_list, d.hardware_id),
    }
}

/// The Devices tab: the connected devices, in snapshot order, marked from
/// the configuration.
pub open spec fn rows_of(all: Seq<DeviceView>, cfg: crate::config::SystemConfigView) -> Seq<
    RowView,
> {
    all.filter(|d: DeviceView| d.is_connected).map_values(|d: DeviceView| row_of(d, cfg))
}

/// The Persisted tab: bound devices that are not connected.
pub open spec fn persisted_of(all: Seq<DeviceView>) -> Seq<DeviceView> {
    all.filter(|d: DeviceView| !d.is_connected && d.is_bound)
}

/// An auto-attach entry as the Auto Attach tab shows it: the live record of
/// the first device with its hardware id (ASCII case ignored), keeping the
/// entry's description and persisted GUID; the entry itself when no device
/// has that id.
pub open spec fn merged_auto(c: DeviceView, all: Seq<DeviceView>) -> DeviceView {
    match first_with_id(all, c.hardware_id) {
        Some(k) => DeviceView {
            persisted_guid: c.persisted_guid,
            description: c.description,
            ..all[k]
        },
        None => c,
    }
}

pub open spec fn auto_rows_of(auto: Seq<DeviceView>, all: Seq<DeviceView>) -> Seq<DeviceView> {
    auto.map_values(|c: DeviceView| merged_auto(c, all))
}

pub fn device_rows(all: &Vec<UsbDevice>, cfg: &SystemConfig) -> (r: Vec<DevRow>)
    ensures
        row_views(r@) == rows_of(device_views(all@), cfg@),
{
    let ghost l = device_views(all@);
    let ghost pred = |d: DeviceView| d.is_connected;
    let ghost f = |d: DeviceView| row_of(d, cfg@);
    let mut r: Vec<DevRow> = Vec::new();
    let mut i: usize = 0;
    while i < all.len()
        invariant
            i <= all.len(),
            l == device_views(all@),
            pred == (|d: DeviceView| d.is_connected),
            f == (|d: DeviceView| row_of(d, cfg@)),
            row_views(r@) == l.take(i as int).filter(pred).map_values(f),
        decreases all.len() - i,
    {
        let d = &all[i];
        assert(l[i as int] == d@);
        proof {
            assert(l.take(i + 1) == l.take(i as int).push(l[i as int]));
            l.take(i as int).lemma_filter_push(l[i as int], pred);
        }
        if d.is_connected {
            let ghost fs = l.take(i as int).filter(pred);
            let row = DevRow {
                dev: d.duplicate(),
                is_auto: cfg.is_in_auto_list(&d.hardware_id),
                is_filtered: cfg.is_in_filter_list(&d.hardware_id),
            };
            r.push(row);
            assert(row_views(r@) =~= fs.map_values(f).push(f(d@)));
            assert(fs.push(d@).map_values(f) =~= fs.map_values(f).push(f(d@)));
        }
        i += 1;
    }
    assert(l.take(l.len() as int) == l);
    r
}

pub fn persisted_rows(all: &Vec<UsbDevice>) -> (r: Vec<UsbDevice>)
    ensures
        device_views(r@) == persisted_of(device_views(all@)),
{
    let ghost l = device_views(all@);
    let ghost pred = |d: DeviceView| !d.is_connected && d.is_bound;
    let mut r: Vec<UsbDevice> = Vec::new();
    let mut i: usize = 0;
    while i < all.len()
        invariant
            i <= all.len(),
            l == device_views(all@),
            pred == (|d: DeviceView| !d.is_connected && d.is_bound),
            device_views(r@) == l.take(i as int).filter(pred),
        decreases all.len() - i,
    {
        let d = &all[i];
        assert(l[i as int] == d@);
        proof {
            assert(l.take(i + 1) == l.take(i as int).push(l[i as int]));
            l.take(i as int).lemma_filter_push(l[i as int], pred);
        }
        if !d.is_connected && d.is_bound {
            let ghost before = device_views(r@);
            r.push(d.duplicate());
            assert(device_views(r@) =~= before.push(d@));
        }
        i += 1;
    }
    assert(l.take(l.len() as int) == l);
    r
}

pub fn auto_rows(auto: &Vec<UsbDevice>, all: &Vec<UsbDevice>) -> (r: Vec<UsbDevice>)
    ensures
        device_views(r@) == auto_rows_of(device_views(auto@), device_views(all@)),
{
    let ghost a = device_views(auto@);
    let ghost l = device_views(all@);
    let mut r: Vec<UsbDevice> = Vec::new();
    let mut i: usize = 0;
    while i < auto.len()
        invariant
            i <= auto.len(),
            a == device_views(auto@),
            l == device_views(all@),
            device_views(r@) == auto_rows_of(a.take(i as int), l),
        decreases auto.len() - i,
    {
        let c = &auto[i];
        assert(a[i as int] == c@);
        let m = match find_device(all.as_slice(), c.hardware_id.as_str()) {
            Some(live) => {
                let mut m = live.duplicate();
                m.persisted_guid = c.persisted_guid.clone();
                m.description = c.description.clone();
                m
            },
            None => c.duplicate(),
        };
        assert(m@ == merged_auto(c@, l));
        let ghost before = device_views(r@);
        r.push(m);
        assert(device_views(r@) =~= before.push(m@));
        assert(a.take(i + 1) == a.take(i as int).push(a[i as int]));
        assert(auto_rows_of(a.take(i + 1), l) =~= auto_rows_of(a.take(i as int), l).push(
            merged_auto(a[i as int], l),
        ));
        i += 1;
    }
    assert(a.take(a.len() as int) == a);
    r
}

/// How many rows are hidden.
pub open spec fn hidden_in(rows: Seq<RowView>) -> nat {
    rows.filter(|r: RowView| r.is_filtered).len()
}

pub fn count_hidden(rows: &Vec<DevRow>) -> (r: usize)
    ensures
        r == hidden_in(row_views(rows@)),
{
    let ghost l = row_views(rows@);
    let ghost pred = |r: RowView| r.is_filtered;
    let mut n: usize = 0;
    let mut i: usize = 0;
    while i < rows.len()
        invariant
            i <= rows.len(),
            l == row_views(rows@),
            pred == (|r: RowView| r.is_filtered),
            n == l.take(i as int).filter(pred).len(),
            n <= i,
        decreases rows.len() - i,
    {
        proof {
            assert(l.take(i + 1) == l.take(i as int).push(l[i as int]));
            l.take(i as int).lemma_filter_push(l[i as int], pred);
        }
        if rows[i].is_filtered {
            n += 1;
        }
        i += 1;
    }
    assert(l.take(l.len() as int) == l);
    n
}

// ---------------------------------------------------------------------------
// Selections
// ---------------------------------------------------------------------------

/// The hardware id a tab keeps selected after its rows changed: the current
/// one while it is not empty and some row still has it; otherwise the first
/// row's, or the empty id for an empty list.
pub open spec fn restored(cur: Option<Seq<char>>, hws: Seq<Seq<char>>) -> Option<Seq<char>> {
    let c = match cur {
        Some(c) => c,
        None => Seq::empty(),
    };
    if c.len() > 0 && hws.contains(c) {
        cur
    } else if hws.len() > 0 {
        Some(hws[0])
    } else {
        Some(Seq::empty())
    }
}

pub open spec fn opt_str(o: Option<String>) -> Option<Seq<char>> {
    match o {
        Some(s) => Some(s@),
        None => None,
    }
}

pub open spec fn str_views(v: Seq<String>) -> Seq<Seq<char>> {
    v.map_values(|s: String| s@)
}

fn same_text(a: &String, b: &String) -> (r: bool)
    ensures
        r == (a@ == b@),
{
    let x = chars_of(a.as_str());
    let y = chars_of(b.as_str());
    crate::usbipd::same_chars(&x, &y)
}

pub fn restore_selection(cur: Option<String>, hws: &Vec<String>) -> (r: Option<String>)
    ensures
        opt_str(r) == restored(opt_str(cur), str_views(hws@)),
{
    let keep = match &cur {
        Some(c) => {
            if c.as_str().is_empty() {
                false
            } else {
                let mut found = false;
                let mut i: usize = 0;
                while i < hws.len()
                    invariant
                        i <= hws.len(),
                        found <==> exists|j: int| 0 <= j < i && hws@[j]@ == c@,
                    decreases hws.len() - i,
                {
                    if same_text(&hws[i], c) {
                        found = true;
                    }
                    i += 1;
                }
                proof {
                    if found {
                        let j = choose|j: int| 0 <= j < hws.len() && hws@[j]@ == c@;
                        assert(str_views(hws@)[j] == c@);
                    }
                    if str_views(hws@).contains(c@) {
                        let j = choose|j: int| 0 <= j < hws.len() && str_views(hws@)[j] == c@;
                        assert(hws@[j]@ == c@);
                    }
                }
                found
            }
        },
        None => false,
    };
    if keep {
        cur
    } else if hws.len() > 0 {
        Some(hws[0].clone())
    } else {
        Some(String::new())
    }
}

/// The hardware ids of the visible rows, in order.
pub open spec fn visible_hws(rows: Seq<RowView>, show_filtered: bool) -> Seq<Seq<char>> {
    rows.filter(|r: RowView| visible(r, show_filtered)).map_values(
        |r: RowView| r.dev.hardware_id,
    )
}

pub fn visible_ids(rows: &Vec<DevRow>, show_filtered: bool) -> (r: Vec<String>)
    ensures
        str_views(r@) == visible_hws(row_views(rows@), show_filtered),
{
    let ghost l = row_views(rows@);
    let ghost pred = |r: RowView| visible(r, show_filtered);
    let ghost f = |r: RowView| r.dev.hardware_id;
    let mut out: Vec<String> = Vec::new();
    let mut i: usize = 0;
    while i < rows.len()
        invariant
            i <= rows.len(),
            l == row_views(rows@),
            pred == (|r: RowView| visible(r, show_filtered)),
            f == (|r: RowView| r.dev.hardware_id),
            str_views(out@) == l.take(i as int).filter(pred).map_values(f),
        decreases rows.len() - i,
    {
        assert(l[i as int] == rows@[i as int]@);
        proof {
            assert(l.take(i + 1) == l.take(i as int).push(l[i as int]));
            l.take(i as int).lemma_filter_push(l[i as int], pred);
        }
        if rows[i].is_visible(show_filtered) {
            let ghost fs = l.take(i as int).filter(pred);
            out.push(rows[i].dev.hardware_id.clone());
            assert(str_views(out@) =~= fs.map_values(f).push(f(l[i as int])));
            assert(fs.push(l[i as int]).map_values(f) =~= fs.map_values(f).push(f(l[i as int])));
        }
        i += 1;
    }
    assert(l.take(l.len() as int) == l);
    out
}

pub open spec fn hws_of(list: Seq<DeviceView>) -> Seq<Seq<char>> {
    list.map_values(|d: DeviceView| d.hardware_id)
}

pub fn hardware_ids(list: &Vec<UsbDevice>) -> (r: Vec<String>)
    ensures
        str_views(r@) == hws_of(device_views(list@)),
{
    let mut out: Vec<String> = Vec::new();
    let mut i: usize = 0;
    while i < list.len()
        invariant
            i <= list.len(),
            str_views(out@) == hws_of(device_views(list@.take(i as int))),
        decreases list.len() - i,
    {
        let ghost before = str_views(out@);
        out.push(list[i].hardware_id.clone());
        assert(str_views(out@) =~= before.push(list@[i as int].hardware_id@));
        assert(list@.take(i + 1) == list@.take(i as int).push(list@[i as int]));
        assert(hws_of(device_views(list@.take(i + 1))) =~= hws_of(
            device_views(list@.take(i as int)),
        ).push(list@[i as int].hardware_id@));
        i += 1;
    }
    assert(list@.take(list.len() as int) == list@);
    out
}

/// The first row at or after `i` whose device has exactly this hardware id.
pub open spec fn row_with_hw_from(rows: Seq<RowView>, hw: Seq<char>, i: int) -> Option<int>
    decreases rows.len() - i,
{
    if i < 0 || i >= rows.len() {
        None
    } else if rows[i].dev.hardware_id == hw {
        Some(i)
    } else {
        row_with_hw_from(rows, hw, i + 1)
    }
}

pub open spec fn row_with_hw(rows: Seq<RowView>, hw: Seq<char>) -> Option<int> {
    row_with_hw_from(rows, hw, 0)
}

pub proof fn lemma_row_with_hw_from(rows: Seq<RowView>, hw: Seq<char>, i: int)
    requires
        0 <= i,
    ensures
        row_with_hw_from(rows, hw, i) matches Some(k) ==> i <= k < rows.len()
            && rows[k].dev.hardware_id == hw && forall|j: int|
            i <= j < k ==> (#[trigger] rows[j]).dev.hardware_id != hw,
        row_with_hw_from(rows, hw, i) is None ==> forall|j: int|
            i <= j < rows.len() ==> (#[trigger] rows[j]).dev.hardware_id != hw,
    decreases rows.len() - i,
{
    if i < rows.len() && rows[i].dev.hardware_id != hw {
        lemma_row_with_hw_from(rows, hw, i + 1);
    }
}

/// The first device at or after `i` with exactly this hardware id.
pub open spec fn device_with_hw_from(list: Seq<DeviceView>, hw: Seq<char>, i: int) -> Option<int>
    decreases list.len() - i,
{
    if i < 0 || i >= list.len() {
        None
    } else if list[i].hardware_id == hw {
        Some(i)
    } else {
        device_with_hw_from(list, hw, i + 1)
    }
}

pub open spec fn device_with_hw(list: Seq<DeviceView>, hw: Seq<char>) -> Option<int> {
    device_with_hw_from(list, hw, 0)
}

pub proof fn lemma_device_with_hw_from(list: Seq<DeviceView>, hw: Seq<char>, i: int)
    requires
        0 <= i,
    ensures
        device_with_hw_from(list, hw, i) matches Some(k) ==> i <= k < list.len()
            && list[k].hardware_id == hw && forall|j: int|
            i <= j < k ==> (#[trigger] list[j]).hardware_id != hw,
        device_with_hw_from(list, hw, i) is None ==> forall|j: int|
            i <= j < list.len() ==> (#[trigger] list[j]).hardware_id != hw,
    decreases list.len() - i,
{
    if i < list.len() && list[i].hardware_id != hw {
        lemma_device_with_hw_from(list, hw, i + 1);
    }
}

pub fn row_index(rows: &Vec<DevRow>, hw: &String) -> (r: Option<usize>)
    ensures
        match r {
            Some(i) => i < rows@.len() && row_with_hw(row_views(rows@), hw@) == Some(i as int),
            None => row_with_hw(row_views(rows@), hw@) is None,
        },
{
    let ghost l = row_views(rows@);
    let mut i: usize = 0;
    while i < rows.len()
        invariant
            i <= rows.len(),
            l == row_views(rows@),
            row_with_hw(l, hw@) == row_with_hw_from(l, hw@, i as int),
        decreases rows.len() - i,
    {
        assert(l[i as int] == rows@[i as int]@);
        if same_text(&rows[i].dev.hardware_id, hw) {
            return Some(i);
        }
        i += 1;
    }
    None
}

pub fn device_index(list: &Vec<UsbDevice>, hw: &String) -> (r: Option<usize>)
    ensures
        match r {
            Some(i) => i < list@.len() && device_with_hw(device_views(list@), hw@) == Some(i as int),
            None => device_with_hw(device_views(list@), hw@) is None,
        },
{
    let ghost l = device_views(list@);
    let mut i: usize = 0;
    while i < list.len()
        invariant
            i <= list.len(),
            l == device_views(list@),
            device_with_hw(l, hw@) == device_with_hw_from(l, hw@, i as int),
        decreases list.len() - i,
    {
        assert(l[i as int] == list@[i as int]@);
        if same_text(&list[i].hardware_id, hw) {
            return Some(i);
        }
        i += 1;
    }
    None
}

// ---------------------------------------------------------------------------
// Picking the next automatic attach
// ---------------------------------------------------------------------------

/// An automatic attach waits this long after the previous try on the same
/// device.
pub const AUTO_ATTACH_DEBOUNCE_MS: u64 = 8_000;

/// The clock readings this program handles stay below this bound, so that
/// adding any of its intervals cannot overflow.
pub const CLOCK_LIMIT: u64 = 0x0000_ffff_ffff_ffff;

/// `now - t`, or zero when `t` is later (as `Instant::duration_since`).
pub open spec fn elapsed(now: u64, t: u64) -> int {
    if now >= t {
        now - t
    } else {
        0
    }
}

/// When the last automatic attach of each hardware id (exact) was started.
pub open spec fn pending_views(p: Seq<(String, u64)>) -> Seq<(Seq<char>, u64)> {
    p.map_values(|e: (String, u64)| (e.0@, e.1))
}

/// The first entry at or after `i` booked for `hw`.
pub open spec fn pending_index_from(p: Seq<(Seq<char>, u64)>, hw: Seq<char>, i: int) -> Option<int>
    decreases p.len() - i,
{
    if i < 0 || i >= p.len() {
        None
    } else if p[i].0 == hw {
        Some(i)
    } else {
        pending_index_from(p, hw, i + 1)
    }
}

pub open spec fn pending_index(p: Seq<(Seq<char>, u64)>, hw: Seq<char>) -> Option<int> {
    pending_index_from(p, hw, 0)
}

pub proof fn lemma_pending_index_from(p: Seq<(Seq<char>, u64)>, hw: Seq<char>, i: int)
    requires
        0 <= i,
    ensures
        pending_index_from(p, hw, i) matches Some(k) ==> i <= k < p.len() && p[k].0 == hw
            && forall|j: int| i <= j < k ==> (#[trigger] p[j]).0 != hw,
        pending_index_from(p, hw, i) is None ==> forall|j: int|
            i <= j < p.len() ==> (#[trigger] p[j]).0 != hw,
    decreases p.len() - i,
{
    if i < p.len() && p[i].0 != hw {
        lemma_pending_index_from(p, hw, i + 1);
    }
}

/// The time booked for `hw`, if any.
pub open spec fn pending_time(p: Seq<(Seq<char>, u64)>, hw: Seq<char>) -> Option<u64> {
    match pending_index(p, hw) {
        Some(k) => Some(p[k].1),
        None => None,
    }
}

/// A row an automatic attach is for: auto-attach, connected, not attached.
pub open spec fn wants_attach(r: RowView) -> bool {
    r.is_auto && r.dev.is_connected && !r.dev.is_attached
}

/// The previous try on this row's device is less than the debounce ago.
pub open spec fn recently_tried(r: RowView, p: Seq<(Seq<char>, u64)>, now: u64) -> bool {
    pending_time(p, r.dev.hardware_id) matches Some(t) && elapsed(now, t)
        < AUTO_ATTACH_DEBOUNCE_MS
}

/// A row that waits for its debounce to run out.
pub open spec fn deferred(r: RowView, p: Seq<(Seq<char>, u64)>, now: u64, forced: bool) -> bool {
    wants_attach(r) && recently_tried(r, p, now) && !forced
}

/// A row an attach starts for now.
pub open spec fn ready(r: RowView, p: Seq<(Seq<char>, u64)>, now: u64, forced: bool) -> bool {
    wants_attach(r) && !(recently_tried(r, p, now) && !forced)
}

/// The first ready row at or after `i`.
pub open spec fn ready_from(rows: Seq<RowView>, p: Seq<(Seq<char>, u64)>, now: u64, forced: bool, i: int) -> Option<int>
    decreases rows.len() - i,
{
    if i < 0 || i >= rows.len() {
        None
    } else if ready(rows[i], p, now, forced) {
        Some(i)
    } else {
        ready_from(rows, p, now, forced, i + 1)
    }
}

pub open spec fn first_ready(rows: Seq<RowView>, p: Seq<(Seq<char>, u64)>, now: u64, forced: bool) -> Option<int> {
    ready_from(rows, p, now, forced, 0)
}

pub proof fn lemma_ready_from(rows: Seq<RowView>, p: Seq<(Seq<char>, u64)>, now: u64, forced: bool, i: int)
    requires
        0 <= i,
    ensures
        ready_from(rows, p, now, forced, i) matches Some(k) ==> i <= k < rows.len() && ready(
            rows[k],
            p,
            now,
            forced,
        ) && forall|j: int| i <= j < k ==> !ready(#[trigger] rows[j], p, now, forced),
        ready_from(rows, p, now, forced, i) is None ==> forall|j: int|
            i <= j < rows.len() ==> !ready(#[trigger] rows[j], p, now, forced),
    decreases rows.len() - i,
{
    if i < rows.len() && !ready(rows[i], p, now, forced) {
        lemma_ready_from(rows, p, now, forced, i + 1);
    }
}

/// When a deferred row's debounce runs out.
pub open spec fn expiry(r: RowView, p: Seq<(Seq<char>, u64)>, now: u64) -> int {
    match pending_time(p, r.dev.hardware_id) {
        Some(t) => t + AUTO_ATTACH_DEBOUNCE_MS,
        None => now as int,
    }
}

/// The earliest expiry among the deferred rows of `rows[0..n]`.
pub open spec fn earliest_expiry(
    rows: Seq<RowView>,
    p: Seq<(Seq<char>, u64)>,
    now: u64,
    forced: bool,
    n: int,
) -> Option<int>
    decreases n,
{
    if n <= 0 {
        None
    } else {
        let rest = earliest_expiry(rows, p, now, forced, n - 1);
        let r = rows[n - 1];
        if deferred(r, p, now, forced) {
            let e = expiry(r, p, now);
            match rest {
                Some(x) => Some(if x <= e { x } else { e }),
                None => Some(e),
            }
        } else {
            rest
        }
    }
}

/// What one evaluation of the auto-attach rows decides: the first ready
/// row's device, and the earliest time a deferred row before it (or any
/// deferred row, when none is ready) should be looked at again.
pub open spec fn auto_pick(rows: Seq<RowView>, p: Seq<(Seq<char>, u64)>, now: u64, forced: bool) -> (
    Option<DeviceView>,
    Option<int>,
) {
    match first_ready(rows, p, now, forced) {
        Some(k) => (Some(rows[k].dev), earliest_expiry(rows, p, now, forced, k)),
        None => (None, earliest_expiry(rows, p, now, forced, rows.len() as int)),
    }
}

pub open spec fn opt_u64(o: Option<u64>) -> Option<int> {
    match o {
        Some(x) => Some(x as int),
        None => None,
    }
}

pub open spec fn opt_dev(o: Option<UsbDevice>) -> Option<DeviceView> {
    match o {
        Some(d) => Some(d@),
        None => None,
    }
}

/// Every booked time is a clock reading in range.
pub open spec fn times_in_range(p: Seq<(Seq<char>, u64)>) -> bool {
    forall|i: int| 0 <= i < p.len() ==> (#[trigger] p[i]).1 <= CLOCK_LIMIT
}

pub fn lookup_pending(p: &Vec<(String, u64)>, hw: &String) -> (r: Option<u64>)
    ensures
        r == pending_time(pending_views(p@), hw@),
{
    let ghost l = pending_views(p@);
    let mut i: usize = 0;
    while i < p.len()
        invariant
            i <= p.len(),
            l == pending_views(p@),
            pending_index(l, hw@) == pending_index_from(l, hw@, i as int),
        decreases p.len() - i,
    {
        assert(l[i as int] == (p@[i as int].0@, p@[i as int].1));
        if same_text(&p[i].0, hw) {
            return Some(p[i].1);
        }
        i += 1;
    }
    None
}

/// `p` with `hw` booked at `t`: the entry replaced in place, or appended.
pub open spec fn pending_insert(p: Seq<(Seq<char>, u64)>, hw: Seq<char>, t: u64) -> Seq<
    (Seq<char>, u64),
> {
    match pending_index(p, hw) {
        Some(k) => p.update(k, (hw, t)),
        None => p.push((hw, t)),
    }
}

pub fn book_pending(p: &mut Vec<(String, u64)>, hw: &String, t: u64)
    ensures
        pending_views(final(p)@) == pending_insert(pending_views(old(p)@), hw@, t),
{
    let ghost l = pending_views(p@);
    let mut i: usize = 0;
    while i < p.len()
        invariant
            i <= p.len(),
            p@ == old(p)@,
            l == pending_views(p@),
            pending_index(l, hw@) == pending_index_from(l, hw@, i as int),
        decreases p.len() - i,
    {
        assert(l[i as int] == (p@[i as int].0@, p@[i as int].1));
        if same_text(&p[i].0, hw) {
            p.set(i, (hw.clone(), t));
            assert(pending_views(p@) =~= l.update(i as int, (hw@, t)));
            return;
        }
        i += 1;
    }
    p.push((hw.clone(), t));
    assert(pending_views(p@) =~= l.push((hw@, t)));
}

proof fn lemma_pending_time_in_range(p: Seq<(Seq<char>, u64)>, hw: Seq<char>)
    requires
        times_in_range(p),
    ensures
        pending_time(p, hw) matches Some(t) ==> t <= CLOCK_LIMIT,
{
    lemma_pending_index_from(p, hw, 0);
    if let Some(k) = pending_index(p, hw) {
        assert(0 <= k < p.len());
        assert(p[k].1 <= CLOCK_LIMIT);
    }
}

/// Which device an automatic attach takes now and when deferred rows are
/// looked at again (see [`auto_pick`]).
#[verifier::rlimit(40)]
pub fn pick_auto_attach(rows: &Vec<DevRow>, pending: &Vec<(String, u64)>, now: u64, forced: bool) -> (r: (
    Option<UsbDevice>,
    Option<u64>,
))
    requires
        now <= CLOCK_LIMIT,
        times_in_range(pending_views(pending@)),
    ensures
        (opt_dev(r.0), opt_u64(r.1)) == auto_pick(row_views(rows@), pending_views(pending@), now, forced),
{
    let ghost l = row_views(rows@);
    let ghost p = pending_views(pending@);
    let mut retry: Option<u64> = None;
    let mut i: usize = 0;
    while i < rows.len()
        invariant
            i <= rows.len(),
            l == row_views(rows@),
            p == pending_views(pending@),
            now <= CLOCK_LIMIT,
            times_in_range(p),
            first_ready(l, p, now, forced) == ready_from(l, p, now, forced, i as int),
            opt_u64(retry) == earliest_expiry(l, p, now, forced, i as int),
        decreases rows.len() - i,
    {
        let row = &rows[i];
        assert(l[i as int] == row@);
        if !row.is_auto || !row.dev.is_connected || row.dev.is_attached {
            i += 1;
            continue;
        }
        let booked = lookup_pending(pending, &row.dev.hardware_id);
        let recent = match booked {
            Some(t) => now < t || now - t < AUTO_ATTACH_DEBOUNCE_MS,
            None => false,
        };
        proof {
            lemma_pending_time_in_range(p, row.dev.hardware_id@);
        }
        if recent && !forced {
            let t = booked.unwrap();
            let expires = t + AUTO_ATTACH_DEBOUNCE_MS;
            retry = match retry {
                Some(x) => Some(if x <= expires { x } else { expires }),
                None => Some(expires),
            };
            i += 1;
            continue;
        }
        assert(ready(l[i as int], p, now, forced));
        return (Some(row.dev.duplicate()), retry);
    }
    (None, retry)
}

// ---------------------------------------------------------------------------
// Texts shown to the user
// ---------------------------------------------------------------------------

/// `"<short name>(<hardware id>)" <status>.`
pub open spec fn change_text(d: DeviceView, status: Seq<char>) -> Seq<char> {
    seq!['"'] + short_name_of(d) + seq!['('] + d.hardware_id + seq![')', '"', ' '] + status + seq![
        '.',
    ]
}

/// The notices of a state change: one for each added device that is
/// connected, in order, saying "connected to WSL" exactly when the device is
/// attached and "connected to Windows" otherwise; then one "disconnected"
/// notice for each removed device, in order. Each reads
/// `"<short name>(<hardware id>)" <status>.`
pub proof fn law_change_notices_say_where(removed: Seq<DeviceView>, added: Seq<DeviceView>, zh: bool)
    ensures
        ({
            let c = added.filter(|d: DeviceView| d.is_connected);
            let r = change_texts(removed, added, zh);
            &&& r.len() == c.len() + removed.len()
            &&& forall|i: int|
                0 <= i < c.len() ==> c[i].is_connected && #[trigger] r[i] == seq!['"'] + short_name_of(
                    c[i],
                ) + seq!['('] + c[i].hardware_id + seq![')', '"', ' '] + (if c[i].is_attached {
                    msg_text(Msg::ConnectedToWsl, zh)
                } else {
                    msg_text(Msg::ConnectedToWindows, zh)
                }) + seq!['.']
            &&& forall|j: int|
                0 <= j < removed.len() ==> #[trigger] r[c.len() + j] == seq!['"'] + short_name_of(
                    removed[j],
                ) + seq!['('] + removed[j].hardware_id + seq![')', '"', ' '] + msg_text(
                    Msg::Disconnected,
                    zh,
                ) + seq!['.']
            &&& forall|k: int| 0 <= k < added.len() && added[k].is_connected ==> c.contains(#[trigger] added[k])
        }),
{
    broadcast use vstd::seq_lib::group_filter_ensures;

    let pred = |d: DeviceView| d.is_connected;
    let c = added.filter(pred);
    assert forall|i: int| 0 <= i < c.len() implies c[i].is_connected by {
        added.lemma_filter_pred(pred, i);
    }
    assert forall|k: int| 0 <= k < added.len() && added[k].is_connected implies c.contains(
        #[trigger] added[k],
    ) by {
        added.lemma_filter_contains(pred, k);
    }
}

/// The Persisted tab lists exactly the bound devices that are not
/// connected: every entry is such a device of the snapshot, and every such
/// device of the snapshot is listed.
pub proof fn law_persisted_are_bound_and_absent(all: Seq<DeviceView>)
    ensures
        forall|i: int|
            0 <= i < persisted_of(all).len() ==> (#[trigger] persisted_of(all)[i]).is_bound
                && !persisted_of(all)[i].is_connected && all.contains(persisted_of(all)[i]),
        forall|k: int|
            0 <= k < all.len() && all[k].is_bound && !all[k].is_connected ==> persisted_of(
                all,
            ).contains(#[trigger] all[k]),
{
    broadcast use vstd::seq_lib::group_filter_ensures;

    let pred = |d: DeviceView| !d.is_connected && d.is_bound;
    let p = persisted_of(all);
    assert(p == all.filter(pred));
    assert forall|i: int| 0 <= i < p.len() implies (#[trigger] p[i]).is_bound
        && !p[i].is_connected && all.contains(p[i]) by {
        all.lemma_filter_pred(pred, i);
        assert(p.contains(p[i]));
        all.lemma_filter_contains_rev(pred, p[i]);
    }
    assert forall|k: int| 0 <= k < all.len() && all[k].is_bound && !all[k].is_connected implies p.contains(
        #[trigger] all[k],
    ) by {
        all.lemma_filter_contains(pred, k);
    }
}

pub fn change_notice(d: &UsbDevice, status: &str) -> (r: String)
    ensures
        r@ == change_text(d@, status@),
{
    let name = d.short_name();
    let a = chars_of(name.as_str());
    let h = chars_of(d.hardware_id.as_str());
    let s = chars_of(status);
    let mut v: Vec<char> = Vec::new();
    v.push('"');
    let v = concat(&v, &a);
    let mut v = v;
    v.push('(');
    let v = concat(&v, &h);
    let mut v = v;
    v.push(')');
    v.push('"');
    v.push(' ');
    let v = concat(&v, &s);
    let mut v = v;
    v.push('.');
    assert(v@ =~= change_text(d@, status@));
    string_from(&v)
}

/// The notices for a change of state: one per added connected device
/// (whether it came up attached to WSL or to Windows), then one per removed
/// device.
pub open spec fn change_texts(removed: Seq<DeviceView>, added: Seq<DeviceView>, zh: bool) -> Seq<
    Seq<char>,
> {
    added.filter(|d: DeviceView| d.is_connected).map_values(
        |d: DeviceView|
            change_text(
                d,
                if d.is_attached {
                    msg_text(Msg::ConnectedToWsl, zh)
                } else {
                    msg_text(Msg::ConnectedToWindows, zh)
                },
            ),
    ) + removed.map_values(|d: DeviceView| change_text(d, msg_text(Msg::Disconnected, zh)))
}

pub fn change_notices(removed: &Vec<UsbDevice>, added: &Vec<UsbDevice>, zh: bool) -> (r: Vec<String>)
    ensures
        str_views(r@) == change_texts(device_views(removed@), device_views(added@), zh),
{
    let ghost a = device_views(added@);
    let ghost rm = device_views(removed@);
    let ghost pred = |d: DeviceView| d.is_connected;
    let ghost f = |d: DeviceView|
        change_text(
            d,
            if d.is_attached {
                msg_text(Msg::ConnectedToWsl, zh)
            } else {
                msg_text(Msg::ConnectedToWindows, zh)
            },
        );
    let ghost g = |d: DeviceView| change_text(d, msg_text(Msg::Disconnected, zh));
    let mut out: Vec<String> = Vec::new();
    let mut i: usize = 0;
    while i < added.len()
        invariant
            i <= added.len(),
            a == device_views(added@),
            pred == (|d: DeviceView| d.is_connected),
            f == (|d: DeviceView|
                change_text(
                    d,
                    if d.is_attached {
                        msg_text(Msg::ConnectedToWsl, zh)
                    } else {
                        msg_text(Msg::ConnectedToWindows, zh)
                    },
                )),
            str_views(out@) == a.take(i as int).filter(pred).map_values(f),
        decreases added.len() - i,
    {
        let d = &added[i];
        assert(a[i as int] == d@);
        proof {
            assert(a.take(i + 1) == a.take(i as int).push(a[i as int]));
            a.take(i as int).lemma_filter_push(a[i as int], pred);
        }
        if d.is_connected {
            let ghost fs = a.take(i as int).filter(pred);
            let status = if d.is_attached {
                t(Msg::ConnectedToWsl, zh)
            } else {
                t(Msg::ConnectedToWindows, zh)
            };
            let text = change_notice(d, status.as_str());
            out.push(text);
            assert(str_views(out@) =~= fs.map_values(f).push(f(d@)));
            assert(fs.push(d@).map_values(f) =~= fs.map_values(f).push(f(d@)));
        }
        i += 1;
    }
    assert(a.take(a.len() as int) == a);
    let ghost head = str_views(out@);
    let gone = t(Msg::Disconnected, zh);
    let mut j: usize = 0;
    while j < removed.len()
        invariant
            j <= removed.len(),
            rm == device_views(removed@),
            gone@ == msg_text(Msg::Disconnected, zh),
            g == (|d: DeviceView| change_text(d, msg_text(Msg::Disconnected, zh))),
            str_views(out@) == head + rm.take(j as int).map_values(g),
        decreases removed.len() - j,
    {
        let d = &removed[j];
        assert(rm[j as int] == d@);
        let text = change_notice(d, gone.as_str());
        let ghost before = str_views(out@);
        out.push(text);
        assert(str_views(out@) =~= before.push(g(d@)));
        assert(rm.take(j + 1) == rm.take(j as int).push(rm[j as int]));
        assert(rm.take(j + 1).map_values(g) =~= rm.take(j as int).map_values(g).push(g(d@)));
        assert(str_views(out@) =~= head + rm.take(j + 1).map_values(g));
        j += 1;
    }
    assert(rm.take(rm.len() as int) == rm);
    out
}

} // verus!
