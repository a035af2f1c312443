//! What the device table's widgets offer: which controls of a row are
//! enabled while drawing, which context-menu entries are, and what a
//! toggled check box asks for.

use vstd::prelude::*;
use crate::controller::ActionView;
use crate::model::{Action, DevRow, RowFlags, RowView, flags_of};

verus! {

/// The row's controls while drawing: those of [`flags_of`], all off while
/// an operation runs.
pub open spec fn controls_of(r: RowView, busy: bool) -> RowFlags {
    let f = flags_of(r);
    RowFlags {
        auto_enabled: !busy && f.auto_enabled,
        bind_enabled: !busy && f.bind_enabled,
        attach_enabled: !busy && f.attach_enabled,
        force_enabled: !busy && f.force_enabled,
    }
}

pub fn row_controls(row: &DevRow, busy: bool) -> (r: RowFlags)
    ensures
        r == controls_of(row@, busy),
{
    RowFlags {
        auto_enabled: !busy && !row.is_filtered,
        bind_enabled: !busy && !row.is_filtered && (!row.is_auto || !row.dev.is_bound),
        attach_enabled: !busy && !row.is_filtered && if row.is_auto {
            !row.dev.is_attached
        } else {
            row.dev.is_bound
        },
        force_enabled: !busy && !row.is_filtered && !row.is_auto && !row.dev.is_bound,
    }
}

/// Which entries of a row's context menu are enabled.
#[derive(Debug, Clone, Copy, PartialEq, Eq, Structural)]
pub struct MenuFlags {
    pub bind: bool,
    pub unbind: bool,
    pub attach: bool,
    pub detach: bool,
    pub hide: bool,
    pub show: bool,
    pub add_auto: bool,
    pub remove_auto: bool,
}

/// Binding and attaching follow the row's controls (attaching by hand only
/// for manual rows); unbinding needs a bound manual row, detaching an
/// attached, visible manual row; hiding a visible manual row, showing a
/// hidden one; the auto-attach entries flip the mark of a visible row.
pub open spec fn menu_of(r: RowView, f: RowFlags) -> MenuFlags {
    MenuFlags {
        bind: f.bind_enabled,
        unbind: r.dev.is_bound && !r.is_auto,
        attach: f.attach_enabled && !r.is_auto,
        detach: r.dev.is_attached && !r.is_auto && !r.is_filtered,
        hide: !r.is_filtered && !r.is_auto,
        show: r.is_filtered,
        add_auto: !r.is_auto && !r.is_filtered,
        remove_auto: r.is_auto && !r.is_filtered,
    }
}

pub fn menu_flags(row: &DevRow, f: RowFlags) -> (m: MenuFlags)
    ensures
        m == menu_of(row@, f),
{
    MenuFlags {
        bind: f.bind_enabled,
        unbind: row.dev.is_bound && !row.is_auto,
        attach: f.attach_enabled && !row.is_auto,
        detach: row.dev.is_attached && !row.is_auto && !row.is_filtered,
        hide: !row.is_filtered && !row.is_auto,
        show: row.is_filtered,
        add_auto: !row.is_auto && !row.is_filtered,
        remove_auto: row.is_auto && !row.is_filtered,
    }
}

/// The check-box columns of the table.
#[derive(Debug, Clone, Copy, PartialEq, Eq, Structural)]
pub enum Column {
    AutoAttach,
    Bound,
    Attached,
}

/// What ticking (`checked`) or clearing a check box asks for.
pub open spec fn toggle_of(col: Column, checked: bool, hw: Seq<char>) -> ActionView {
    match col {
        Column::AutoAttach => if checked {
            ActionView::AddAuto(hw)
        } else {
            ActionView::RemoveAuto(hw)
        },
        Column::Bound => if checked {
            ActionView::Bind(hw)
        } else {
            ActionView::Unbind(hw)
        },
        Column::Attached => if checked {
            ActionView::Attach(hw)
        } else {
            ActionView::Detach(hw)
        },
    }
}

pub fn toggle_action(col: Column, checked: bool, hwid: String) -> (a: Action)
    ensures
        a@ == toggle_of(col, checked, hwid@),
{
    match col {
        Column::AutoAttach => if checked {
            Action::AddAuto(hwid)
        } else {
            Action::RemoveAuto(hwid)
        },
        Column::Bound => if checked {
            Action::Bind(hwid)
        } else {
            Action::Unbind(hwid)
        },
        Column::Attached => if checked {
            Action::Attach(hwid)
        } else {
            Action::Detach(hwid)
        },
    }
}

/// How the device details show a flag.
pub open spec fn bool_word(b: bool) -> Seq<char> {
    if b {
        "True"@
    } else {
        "False"@
    }
}

pub fn bool_text(b: bool) -> (r: String)
    ensures
        r@ == bool_word(b),
{
    if b {
        "True".to_owned()
    } else {
        "False".to_owned()
    }
}

/// A hidden row offers no control, and of its menu only showing it again
/// and (for a bound manual row) unbinding.
pub proof fn law_hidden_row_is_inert(r: RowView, busy: bool)
    requires
        r.is_filtered,
    ensures
        ({
            let f = controls_of(r, busy);
            let m = menu_of(r, f);
            &&& !f.auto_enabled && !f.bind_enabled && !f.attach_enabled && !f.force_enabled
            &&& !m.bind && !m.attach && !m.detach && !m.hide && !m.add_auto && !m.remove_auto
            &&& m.show
        }),
{
}

/// While an operation runs, no row control is enabled.
pub proof fn law_busy_disables_controls(r: RowView)
    ensures
        ({
            let f = controls_of(r, true);
            !f.auto_enabled && !f.bind_enabled && !f.attach_enabled && !f.force_enabled
        }),
{
}

} // verus!
