//! Properties of the window's state machine that span its transitions.

use vstd::prelude::*;
use crate::config::DeviceView;
use crate::controller::{
    ActionView, AppView, EffectView, MsgView, OpRequestView, ToastView, USB_EVENT_COOLDOWN_MS,
    USB_RECHECK_INTERVAL_MS, action_step, add_auto_step, any_wants_attach, app_wf, attach_step,
    auto_attach_step, changed_step, device_op_step, flush_step, message_step, refresh_step,
    removal_effects, removal_targets, restore_lists, run_op_step, same_state, save_step, snapshot_step,
    stops_removal, theme_step, unchanged_step, watch_step, attach_guarded, ListsView,
    AUTO_WATCH_ROUNDS, remove_auto_step, toggle_dark_step, set_lang_step, open_settings_step,
    bind_step, unbind_step, attach_action_step, detach_step, add_auto_action_step, hide_step,
    show_step, unbind_persisted_step, unbind_all_step, remove_auto_device_step,
    remove_all_auto_step, tray_step, cfg_saved, found_dev, removed_of,
};
use crate::model::{
    ToastKind, auto_pick, elapsed, first_ready, hws_of, lemma_pending_index_from, lemma_ready_from,
    pending_index, pending_insert, pending_time, ready, recently_tried, restored, visible_hws,
    wants_attach,
};
use crate::snapshot::{
    distinct_instances, law_same_devices_any_order, lemma_by_instance, by_instance,
};

verus! {

/// An operation or a state read makes the effect list hold a `RunOp`.
pub open spec fn starts_op(fx: Seq<EffectView>) -> bool {
    exists|i: int| 0 <= i < fx.len() && #[trigger] fx[i] is RunOp
}

/// A failed state read never clears or changes the lists, the snapshot or
/// the settings: once the lists are up it only adds an error notice, before
/// that it opens a message box; either way the window stops being busy.
pub proof fn law_failed_read_keeps_lists(s: AppView, e: Seq<char>, now: u64)
    ensures
        ({
            let (s1, fx) = message_step(s, MsgView::ListFailed(e), now);
            &&& s1.lists == s.lists
            &&& s1.usb == s.usb
            &&& s1.cfg == s.cfg
            &&& s1.auto == s.auto
            &&& !s1.flags.busy
            &&& s.flags.initialized ==> s1.ui.toasts == s.ui.toasts.push(
                ToastView { kind: ToastKind::Error, text: e, expires: now + 6_000 },
            ) && s1.ui.dialog == s.ui.dialog
            &&& fx == seq![EffectView::Repaint]
        }),
{
}

/// A state read that shows the same records as the kept snapshot (sorted by
/// instance id) rebuilds nothing and starts nothing: lists, settings, flags,
/// automatic-attach state and notices stay; at most a later look is
/// scheduled.
pub proof fn law_unchanged_read_is_quiet(s: AppView, devs: Seq<DeviceView>, now: u64)
    requires
        same_state(s, devs),
    ensures
        ({
            let (s1, fx) = snapshot_step(s, devs, now);
            &&& s1.lists == s.lists
            &&& s1.cfg == s.cfg
            &&& s1.flags == s.flags
            &&& s1.auto == s.auto
            &&& s1.ui == s.ui
            &&& s1.usb.snapshot == s.usb.snapshot
            &&& forall|i: int| 0 <= i < fx.len() ==> #[trigger] fx[i] is RepaintAfter
        }),
{
}

/// The same device records in another order, no instance id twice, count as
/// an unchanged state.
pub proof fn law_reordered_read_is_unchanged(s: AppView, prev: Seq<DeviceView>, devs: Seq<DeviceView>)
    requires
        s.usb.snapshot == Some(prev),
        prev.to_multiset() == devs.to_multiset(),
        distinct_instances(prev),
    ensures
        same_state(s, devs),
{
    lemma_by_instance(prev);
    lemma_by_instance(devs);
    law_same_devices_any_order(prev, devs, by_instance(prev), by_instance(devs));
}

/// A changed state read (or the first one) re-arms the watchdog, stops the
/// extra reads and keeps the read as the snapshot.
pub proof fn law_changed_read_rearms(s: AppView, devs: Seq<DeviceView>, now: u64)
    requires
        !same_state(s, devs),
    ensures
        ({
            let (s1, _) = snapshot_step(s, devs, now);
            &&& !s1.auto.watch_exhausted
            &&& s1.usb.rechecks == 0
            &&& s1.usb.snapshot == Some(devs)
            &&& s1.flags.initialized
        }),
{
}

proof fn lemma_pending_insert_time(p: Seq<(Seq<char>, u64)>, hw: Seq<char>, t: u64)
    ensures
        pending_time(pending_insert(p, hw, t), hw) == Some(t),
{
    lemma_pending_index_from(p, hw, 0);
    let q = pending_insert(p, hw, t);
    lemma_pending_index_from(q, hw, 0);
    match pending_index(p, hw) {
        Some(k) => {
            assert(q[k] == (hw, t));
            if let Some(j) = pending_index(q, hw) {
                if j < k {
                    assert(q[j] == p[j]);
                }
                if k < j {
                    assert(q[k].0 == hw);
                }
            }
        },
        None => {
            assert(q[p.len() as int] == (hw, t));
            if let Some(j) = pending_index(q, hw) {
                if j < p.len() {
                    assert(q[j] == p[j]);
                }
            }
        },
    }
}

/// An automatic attach is evaluated only once the lists are up and while no
/// operation runs; it starts only for an auto-attach device that is
/// connected and not attached, outside the watchdog only when the previous
/// automatic attach of that device is at least the debounce ago, and it
/// books the time of this try.
pub proof fn law_auto_attach_respects_debounce(s: AppView, forced: bool, now: u64)
    ensures
        (!s.flags.initialized || s.flags.busy) ==> auto_attach_step(s, forced, now) == (
            s,
            Seq::<EffectView>::empty(),
        ),
        ({
            let (s1, fx) = auto_attach_step(s, forced, now);
            forall|i: int|
                0 <= i < fx.len() && (#[trigger] fx[i] matches EffectView::RunOp(
                    OpRequestView::Attach { dev, auto, .. },
                )) ==> {
                    let dev = fx[i]->RunOp_0->Attach_dev;
                    &&& fx[i]->RunOp_0->Attach_auto
                    &&& exists|k: int|
                        0 <= k < s.lists.rows.len() && (#[trigger] s.lists.rows[k]).dev == dev
                            && wants_attach(s.lists.rows[k]) && (forced || !recently_tried(
                            s.lists.rows[k],
                            s.auto.pending,
                            now,
                        ))
                    &&& pending_time(s1.auto.pending, dev.hardware_id) == Some(now)
                }
        }),
{
    if s.flags.initialized && !s.flags.busy {
        lemma_ready_from(s.lists.rows, s.auto.pending, now, forced, 0);
        let (cand, retry) = auto_pick(s.lists.rows, s.auto.pending, now, forced);
        if let Some(k) = first_ready(s.lists.rows, s.auto.pending, now, forced) {
            let d = s.lists.rows[k].dev;
            lemma_pending_insert_time(s.auto.pending, d.hardware_id, now);
            assert(ready(s.lists.rows[k], s.auto.pending, now, forced));
        }
    }
}

/// Operations never overlap: while one runs, neither an operation nor a
/// state read starts.
pub proof fn law_one_operation_at_a_time(s: AppView, req: OpRequestView)
    requires
        s.flags.busy,
    ensures
        run_op_step(s, req) == (s, Seq::<EffectView>::empty()),
        !starts_op(refresh_step(s).1),
        refresh_step(s).1 == Seq::<EffectView>::empty(),
{
}

proof fn lemma_no_op_concat(a: Seq<EffectView>, b: Seq<EffectView>)
    requires
        !starts_op(a),
        !starts_op(b),
    ensures
        !starts_op(a + b),
{
    if starts_op(a + b) {
        let i = choose|i: int| 0 <= i < (a + b).len() && #[trigger] (a + b)[i] is RunOp;
        if i < a.len() {
            assert((a + b)[i] == a[i]);
        } else {
            assert((a + b)[i] == b[i - a.len()]);
        }
    }
}

proof fn lemma_single_no_op(e: EffectView)
    requires
        !(e is RunOp),
    ensures
        !starts_op(seq![e]),
{
}

/// A saved settings change starts nothing.
proof fn lemma_saved_no_op(s: AppView, c: crate::config::SystemConfigView)
    ensures
        !starts_op(cfg_saved(s, c).1),
        cfg_saved(s, c).0.flags == s.flags,
        cfg_saved(s, c).0.env == s.env,
{
    lemma_single_no_op(EffectView::SaveConfig);
}

/// No widget action starts an operation while one runs.
#[verifier::rlimit(40)]
pub proof fn law_busy_blocks_actions(s: AppView, a: ActionView, now: u64)
    requires
        s.flags.busy,
    ensures
        !starts_op(action_step(s, a, now).1),
{
    lemma_single_no_op(EffectView::ApplyTheme);
    lemma_single_no_op(EffectView::LoadNetcards);
    lemma_single_no_op(EffectView::UpdateTrayLanguage);
    match a {
        ActionView::ToggleDark => {
            let c = crate::config::SystemConfigView {
                app_config: crate::config::AppConfigView {
                    dark_mode: !s.cfg.app_config.dark_mode,
                    ..s.cfg.app_config
                },
                ..s.cfg
            };
            lemma_saved_no_op(s, c);
            let (s1, e1) = cfg_saved(s, c);
            lemma_no_op_concat(e1, theme_step(s1).1);
        },
        ActionView::SetLang(zh) => {
            let c = crate::config::SystemConfigView {
                app_config: crate::config::AppConfigView {
                    lang: crate::controller::lang_word(zh),
                    ..s.cfg.app_config
                },
                ..s.cfg
            };
            lemma_saved_no_op(s, c);
            let (s1, e1) = cfg_saved(s, c);
            let (s2, e2) = theme_step(s1);
            lemma_no_op_concat(e1, e2);
            lemma_no_op_concat(e1 + e2, tray_step(s2));
        },
        ActionView::AddAuto(hw) => {
            if let Some(d) = found_dev(s, hw) {
                if !crate::config::in_list(s.cfg.auto_list, d.hardware_id) {
                    let c = crate::config::SystemConfigView {
                        auto_list: crate::config::with_added(s.cfg.auto_list, d),
                        ..s.cfg
                    };
                    lemma_saved_no_op(s, c);
                    let (s1, e1) = cfg_saved(s, c);
                    if d.is_connected {
                        let s2 = crate::controller::with_toast(
                            crate::controller::with_lists(
                                s1,
                                ListsView {
                                    rows: crate::controller::rows_with_auto(
                                        s1.lists.rows,
                                        d.hardware_id,
                                        true,
                                    ),
                                    ..s1.lists
                                },
                            ),
                            ToastKind::Info,
                            crate::controller::added_text(crate::config::short_name_of(d)),
                            now + 3_000,
                        );
                        assert(s2.flags.busy);
                        lemma_no_op_concat(e1, attach_step(s2, d, true).1);
                    }
                }
            }
        },
        ActionView::RemoveAuto(hw) => {
            if crate::config::in_list(s.cfg.auto_list, hw) {
                lemma_saved_no_op(
                    s,
                    crate::config::SystemConfigView {
                        auto_list: crate::config::without(s.cfg.auto_list, hw),
                        ..s.cfg
                    },
                );
            }
        },
        ActionView::Hide(hw) => {
            if let Some(d) = found_dev(s, hw) {
                lemma_saved_no_op(
                    s,
                    crate::config::SystemConfigView {
                        filter_list: crate::config::with_added(s.cfg.filter_list, d),
                        ..s.cfg
                    },
                );
            }
        },
        ActionView::Show(hw) => {
            if crate::config::in_list(s.cfg.filter_list, hw) {
                lemma_saved_no_op(
                    s,
                    crate::config::SystemConfigView {
                        filter_list: crate::config::without(s.cfg.filter_list, hw),
                        ..s.cfg
                    },
                );
            }
        },
        ActionView::RemoveAutoDevice(hw) => {
            lemma_saved_no_op(
                s,
                crate::config::SystemConfigView {
                    auto_list: crate::config::without(s.cfg.auto_list, hw),
                    ..s.cfg
                },
            );
        },
        ActionView::RemoveAllAuto => {
            lemma_saved_no_op(
                s,
                crate::config::SystemConfigView { auto_list: Seq::empty(), ..s.cfg },
            );
        },
        _ => {},
    }
}

/// A USB signal leads to a state read only once the previous signal-driven
/// read is at least the cool-down ago, and an extra read only once the
/// previous one is at least the recheck interval ago; never while busy. The
/// time of the read is kept.
pub proof fn law_usb_reads_spaced(s: AppView, now: u64)
    ensures
        ({
            let (s1, fx) = flush_step(s, now);
            fx.contains(EffectView::Refresh) ==> {
                &&& !s.flags.busy
                &&& s.usb.activity_pending || s.usb.rechecks > 0
                &&& s.usb.last_refresh matches Some(t) ==> elapsed(now, t) >= if s.usb.activity_pending {
                    USB_EVENT_COOLDOWN_MS as int
                } else {
                    USB_RECHECK_INTERVAL_MS as int
                }
                &&& s1.usb.last_refresh == Some(now)
            }
        }),
{
    let (s1, fx) = flush_step(s, now);
    if fx.contains(EffectView::Refresh) {
        let i = choose|i: int| 0 <= i < fx.len() && fx[i] == EffectView::Refresh;
        if s.flags.busy {
            assert(fx[i] is RepaintAfter);
        }
    }
}

/// The watchdog stays within its three rounds: a used-up watchdog does
/// nothing while a device still waits for an attach, and a round that uses
/// the last one marks it used up.
pub proof fn law_watchdog_bounded(s: AppView, now: u64)
    requires
        app_wf(s),
    ensures
        s.auto.watch_exhausted && any_wants_attach(s.lists.rows) && s.flags.initialized
            && !s.flags.busy ==> watch_step(s, now) == (s, Seq::<EffectView>::empty()),
        watch_step(s, now).0.auto.watch_rounds <= AUTO_WATCH_ROUNDS,
        watch_step(s, now).0.auto.watch_rounds == 0 && watch_step(s, now).1.len() > 1
            ==> watch_step(s, now).0.auto.watch_exhausted,
{
}

/// A device that left the state loses its daemons only when it was attached
/// and no automatic attach of it started within the guard window; every
/// such device does, in the order of the snapshot.
pub proof fn law_removal_guard(s: AppView, removed: Seq<DeviceView>, now: u64)
    ensures
        forall|j: int|
            0 <= j < removal_targets(s, removed, now).len() ==> {
                let d = #[trigger] removal_targets(s, removed, now)[j];
                &&& d.is_attached
                &&& !attach_guarded(s.auto.pending, d, now)
                &&& removed.contains(d)
            },
        forall|k: int|
            0 <= k < removed.len() && (#[trigger] removed[k]).is_attached && !attach_guarded(
                s.auto.pending,
                removed[k],
                now,
            ) ==> removal_targets(s, removed, now).contains(removed[k]),
        removal_effects(s, removed, now).len() == removal_targets(s, removed, now).len(),
{
    broadcast use vstd::seq_lib::group_filter_ensures;

    let pred = |d: DeviceView| stops_removal(s, d, now);
    assert forall|j: int| 0 <= j < removal_targets(s, removed, now).len() implies {
        let d = #[trigger] removal_targets(s, removed, now)[j];
        &&& d.is_attached
        &&& !attach_guarded(s.auto.pending, d, now)
        &&& removed.contains(d)
    } by {
        let t = removal_targets(s, removed, now);
        removed.lemma_filter_pred(pred, j);
        assert(t.contains(t[j]));
        removed.lemma_filter_contains_rev(pred, t[j]);
    }
    assert forall|k: int|
        0 <= k < removed.len() && (#[trigger] removed[k]).is_attached && !attach_guarded(
            s.auto.pending,
            removed[k],
            now,
        ) implies removal_targets(s, removed, now).contains(removed[k]) by {
        removed.lemma_filter_contains(pred, k);
    }
}

/// After the rows change, every tab keeps a valid selection: the hardware id
/// of one of its rows, or the empty id when it has none.
pub proof fn law_selection_stays_valid(l: ListsView)
    ensures
        ({
            let r = restore_lists(l);
            let d = visible_hws(l.rows, l.show_filtered);
            &&& r.sel_devices matches Some(h) && (d.contains(h) || (d.len() == 0 && h.len() == 0))
            &&& r.sel_persisted matches Some(h) && (hws_of(l.persisted).contains(h) || (hws_of(
                l.persisted,
            ).len() == 0 && h.len() == 0))
            &&& r.sel_auto matches Some(h) && (hws_of(l.auto).contains(h) || (hws_of(l.auto).len()
                == 0 && h.len() == 0))
        }),
{
    let d = visible_hws(l.rows, l.show_filtered);
    if d.len() > 0 {
        assert(d.contains(d[0]));
    }
    let p = hws_of(l.persisted);
    if p.len() > 0 {
        assert(p.contains(p[0]));
    }
    let a = hws_of(l.auto);
    if a.len() > 0 {
        assert(a.contains(a[0]));
    }
}

} // verus!
