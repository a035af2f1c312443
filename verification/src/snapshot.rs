//! Comparing two `usbipd state` snapshots: which devices disappeared or
//! appeared, and whether anything changed at all.

use vstd::prelude::*;
use crate::config::{UsbDevice, DeviceView, device_views};
use crate::text::{chars_of, eq_ignore_ascii_case, eq_ignore_case};
use crate::usbipd::same_chars;

verus! {

broadcast use vstd::seq_lib::group_to_multiset_ensures;

// ---------------------------------------------------------------------------
// Ordering by instance id
// ---------------------------------------------------------------------------

/// `a` comes before or equals `b` in the order of `str`'s `Ord`
/// (lexicographic by code point).
pub open spec fn lex_le(a: Seq<char>, b: Seq<char>) -> bool
    decreases a.len(),
{
    if a.len() == 0 {
        true
    } else if b.len() == 0 {
        false
    } else if a[0] != b[0] {
        a[0] < b[0]
    } else {
        lex_le(a.drop_first(), b.drop_first())
    }
}

pub proof fn lemma_lex_total(a: Seq<char>, b: Seq<char>)
    ensures
        lex_le(a, b) || lex_le(b, a),
    decreases a.len(),
{
    if a.len() > 0 && b.len() > 0 && a[0] == b[0] {
        lemma_lex_total(a.drop_first(), b.drop_first());
    }
}

pub proof fn lemma_lex_antisym(a: Seq<char>, b: Seq<char>)
    requires
        lex_le(a, b),
        lex_le(b, a),
    ensures
        a == b,
    decreases a.len(),
{
    if a.len() == 0 {
        assert(a =~= b);
    } else {
        lemma_lex_antisym(a.drop_first(), b.drop_first());
        assert(a =~= seq![a[0]] + a.drop_first());
        assert(b =~= seq![b[0]] + b.drop_first());
    }
}

pub proof fn lemma_lex_trans(a: Seq<char>, b: Seq<char>, c: Seq<char>)
    requires
        lex_le(a, b),
        lex_le(b, c),
    ensures
        lex_le(a, c),
    decreases a.len(),
{
    if a.len() > 0 && b.len() > 0 && c.len() > 0 && a[0] == b[0] && b[0] == c[0] {
        lemma_lex_trans(a.drop_first(), b.drop_first(), c.drop_first());
    }
}

/// Ordered by instance id, as `sort_by` with `instance_id.cmp` leaves it.
pub open spec fn sorted_by_instance(s: Seq<DeviceView>) -> bool {
    forall|i: int, j: int|
        0 <= i < j < s.len() ==> lex_le(#[trigger] s[i].instance_id, #[trigger] s[j].instance_id)
}

/// No two entries share an instance id.
pub open spec fn distinct_instances(s: Seq<DeviceView>) -> bool {
    forall|i: int, j: int|
        0 <= i < s.len() && 0 <= j < s.len() && i != j ==> #[trigger] s[i].instance_id
            != #[trigger] s[j].instance_id
}

/// `a <= b` as strings.
pub fn instance_le(a: &String, b: &String) -> (r: bool)
    ensures
        r == lex_le(a@, b@),
{
    let x = chars_of(a.as_str());
    let y = chars_of(b.as_str());
    let mut i: usize = 0;
    assert(x@.skip(0) == x@);
    assert(y@.skip(0) == y@);
    while i < x.len() && i < y.len()
        invariant
            i <= x.len(),
            i <= y.len(),
            x@ == a@,
            y@ == b@,
            lex_le(x@, y@) == lex_le(x@.skip(i as int), y@.skip(i as int)),
        decreases x.len() - i,
    {
        assert(x@.skip(i as int).len() > 0 && y@.skip(i as int).len() > 0);
        assert(x@.skip(i as int)[0] == x@[i as int]);
        assert(y@.skip(i as int)[0] == y@[i as int]);
        if x[i] != y[i] {
            return x[i] < y[i];
        }
        assert(x@.skip(i as int).drop_first() == x@.skip(i + 1));
        assert(y@.skip(i as int).drop_first() == y@.skip(i + 1));
        i += 1;
    }
    i == x.len()
}

proof fn lemma_insert_sorted(s: Seq<DeviceView>, p: int, x: DeviceView)
    requires
        sorted_by_instance(s),
        0 <= p <= s.len(),
        forall|q: int| 0 <= q < p ==> lex_le(#[trigger] s[q].instance_id, x.instance_id),
        p < s.len() ==> !lex_le(s[p].instance_id, x.instance_id),
    ensures
        sorted_by_instance(s.insert(p, x)),
{
    let t = s.insert(p, x);
    if p < s.len() {
        lemma_lex_total(s[p].instance_id, x.instance_id);
    }
    assert forall|i: int, j: int| 0 <= i < j < t.len() implies lex_le(
        #[trigger] t[i].instance_id,
        #[trigger] t[j].instance_id,
    ) by {
        if j == p {
            assert(t[i] == s[i]);
        } else if i == p {
            assert(t[j] == s[j - 1]);
            if j - 1 > p {
                lemma_lex_trans(x.instance_id, s[p].instance_id, s[j - 1].instance_id);
            }
        } else {
            let si = if i < p { i } else { i - 1 };
            let sj = if j < p { j } else { j - 1 };
            assert(t[i] == s[si]);
            assert(t[j] == s[sj]);
        }
    }
}

/// Where a stable insertion puts `x` into `t` from index `i` on: before the
/// first entry whose instance id is greater than `x`'s.
pub open spec fn insert_pos_from(t: Seq<DeviceView>, x: DeviceView, i: int) -> int
    decreases t.len() - i,
{
    if i < 0 || i >= t.len() {
        t.len() as int
    } else if !lex_le(t[i].instance_id, x.instance_id) {
        i
    } else {
        insert_pos_from(t, x, i + 1)
    }
}

proof fn lemma_insert_pos_from(t: Seq<DeviceView>, x: DeviceView, i: int)
    requires
        0 <= i <= t.len(),
    ensures
        i <= insert_pos_from(t, x, i) <= t.len(),
        forall|q: int|
            i <= q < insert_pos_from(t, x, i) ==> lex_le(#[trigger] t[q].instance_id, x.instance_id),
        insert_pos_from(t, x, i) < t.len() ==> !lex_le(
            t[insert_pos_from(t, x, i)].instance_id,
            x.instance_id,
        ),
    decreases t.len() - i,
{
    if i < t.len() && lex_le(t[i].instance_id, x.instance_id) {
        lemma_insert_pos_from(t, x, i + 1);
    }
}

/// A stable sort by instance id, as `sort_by` on `instance_id.cmp` gives:
/// each entry in turn goes after every earlier entry whose id is not greater.
pub open spec fn by_instance(s: Seq<DeviceView>) -> Seq<DeviceView>
    decreases s.len(),
{
    if s.len() == 0 {
        s
    } else {
        let t = by_instance(s.drop_last());
        t.insert(insert_pos_from(t, s.last(), 0), s.last())
    }
}

/// [`by_instance`] orders by instance id and keeps every record.
pub proof fn lemma_by_instance(s: Seq<DeviceView>)
    ensures
        sorted_by_instance(by_instance(s)),
        by_instance(s).to_multiset() == s.to_multiset(),
    decreases s.len(),
{
    if s.len() > 0 {
        let init = s.drop_last();
        lemma_by_instance(init);
        let t = by_instance(init);
        lemma_insert_pos_from(t, s.last(), 0);
        lemma_insert_sorted(t, insert_pos_from(t, s.last(), 0), s.last());
        assert(s == init.push(s.last()));
    }
}

/// Sort a snapshot by instance id (`str` order), stably.
pub fn sort_by_instance(list: &mut Vec<UsbDevice>)
    ensures
        device_views(final(list)@) == by_instance(device_views(old(list)@)),
        sorted_by_instance(device_views(final(list)@)),
        device_views(final(list)@).to_multiset() == device_views(old(list)@).to_multiset(),
{
    let ghost orig = device_views(list@);
    let mut out: Vec<UsbDevice> = Vec::new();
    let mut i: usize = 0;
    while i < list.len()
        invariant
            i <= list.len(),
            orig == device_views(list@),
            device_views(out@) == by_instance(orig.take(i as int)),
        decreases list.len() - i,
    {
        let d = list[i].duplicate();
        let ghost s = device_views(out@);
        let mut p: usize = 0;
        while p < out.len()
            invariant
                p <= out.len(),
                s == device_views(out@),
                insert_pos_from(s, d@, 0) == insert_pos_from(s, d@, p as int),
            ensures
                p <= out.len(),
                s == device_views(out@),
                insert_pos_from(s, d@, 0) == p,
            decreases out.len() - p,
        {
            assert(s[p as int].instance_id == out@[p as int].instance_id@);
            if !instance_le(&out[p].instance_id, &d.instance_id) {
                break;
            }
            p += 1;
        }
        proof {
            assert(orig.take(i + 1).drop_last() == orig.take(i as int));
            assert(orig.take(i + 1).last() == d@);
        }
        out.insert(p, d);
        assert(device_views(out@) =~= s.insert(p as int, d@));
        i += 1;
    }
    assert(orig.take(orig.len() as int) == orig);
    proof {
        lemma_by_instance(orig);
    }
    *list = out;
}

// ---------------------------------------------------------------------------
// Equality of snapshots
// ---------------------------------------------------------------------------

/// Two sorted snapshots holding the same devices, no instance id twice, are
/// the same sequence.
pub proof fn lemma_sorted_unique(x: Seq<DeviceView>, y: Seq<DeviceView>)
    requires
        sorted_by_instance(x),
        sorted_by_instance(y),
        x.to_multiset() == y.to_multiset(),
        distinct_instances(x),
    ensures
        x == y,
    decreases x.len(),
{
    vstd::seq_lib::to_multiset_len(x);
    vstd::seq_lib::to_multiset_len(y);
    if x.len() == 0 {
        assert(y.len() == 0);
        assert(x =~= y);
    } else {
        assert(y.len() == x.len());
        let a = x[0];
        let b = y[0];
        assert(y.contains(b));
        assert(y.to_multiset().count(b) > 0);
        assert(x.contains(b));
        let k = choose|k: int| 0 <= k < x.len() && x[k] == b;
        assert(x.contains(a));
        assert(x.to_multiset().count(a) > 0);
        assert(y.contains(a));
        let m = choose|m: int| 0 <= m < y.len() && y[m] == a;
        if k > 0 {
            assert(lex_le(x[0].instance_id, x[k].instance_id));
            if m > 0 {
                assert(lex_le(y[0].instance_id, y[m].instance_id));
                lemma_lex_antisym(a.instance_id, b.instance_id);
            }
            assert(x[0].instance_id == x[k].instance_id);
            assert(false);
        }
        assert(a == b);
        assert(x.remove(0) == x.drop_first());
        assert(y.remove(0) == y.drop_first());
        assert(x.drop_first().to_multiset() == y.drop_first().to_multiset());
        assert(sorted_by_instance(x.drop_first())) by {
            assert forall|i: int, j: int| 0 <= i < j < x.drop_first().len() implies lex_le(
                #[trigger] x.drop_first()[i].instance_id,
                #[trigger] x.drop_first()[j].instance_id,
            ) by {
                assert(x.drop_first()[i] == x[i + 1]);
                assert(x.drop_first()[j] == x[j + 1]);
            }
        }
        assert(sorted_by_instance(y.drop_first())) by {
            assert forall|i: int, j: int| 0 <= i < j < y.drop_first().len() implies lex_le(
                #[trigger] y.drop_first()[i].instance_id,
                #[trigger] y.drop_first()[j].instance_id,
            ) by {
                assert(y.drop_first()[i] == y[i + 1]);
                assert(y.drop_first()[j] == y[j + 1]);
            }
        }
        assert(distinct_instances(x.drop_first())) by {
            assert forall|i: int, j: int|
                0 <= i < x.drop_first().len() && 0 <= j < x.drop_first().len() && i
                    != j implies #[trigger] x.drop_first()[i].instance_id
                    != #[trigger] x.drop_first()[j].instance_id by {
                assert(x.drop_first()[i] == x[i + 1]);
                assert(x.drop_first()[j] == x[j + 1]);
            }
        }
        lemma_sorted_unique(x.drop_first(), y.drop_first());
        assert(x =~= seq![a] + x.drop_first());
        assert(y =~= seq![b] + y.drop_first());
    }
}

fn same_string(a: &String, b: &String) -> (r: bool)
    ensures
        r == (a@ == b@),
{
    let x = chars_of(a.as_str());
    let y = chars_of(b.as_str());
    same_chars(&x, &y)
}

/// Field-by-field equality of two device records.
pub fn same_device(a: &UsbDevice, b: &UsbDevice) -> (r: bool)
    ensures
        r == (a@ == b@),
{
    same_string(&a.instance_id, &b.instance_id) && same_string(&a.hardware_id, &b.hardware_id)
        && same_string(&a.description, &b.description) && a.is_forced == b.is_forced
        && same_string(&a.bus_id, &b.bus_id) && same_string(&a.persisted_guid, &b.persisted_guid)
        && same_string(&a.stub_instance_id, &b.stub_instance_id) && same_string(
        &a.client_ip_address,
        &b.client_ip_address,
    ) && a.is_bound == b.is_bound && a.is_connected == b.is_connected && a.is_attached
        == b.is_attached && same_string(&a.name, &b.name)
}

fn same_list(a: &Vec<UsbDevice>, b: &Vec<UsbDevice>) -> (r: bool)
    ensures
        r == (device_views(a@) == device_views(b@)),
{
    if a.len() != b.len() {
        assert(device_views(a@).len() != device_views(b@).len());
        return false;
    }
    let mut i: usize = 0;
    while i < a.len()
        invariant
            i <= a.len(),
            a.len() == b.len(),
            forall|j: int| 0 <= j < i ==> a@[j]@ == b@[j]@,
        decreases a.len() - i,
    {
        if !same_device(&a[i], &b[i]) {
            assert(device_views(a@)[i as int] != device_views(b@)[i as int]);
            return false;
        }
        i += 1;
    }
    assert(device_views(a@) =~= device_views(b@));
    true
}

/// A copy of a device list.
pub fn copy_list(v: &Vec<UsbDevice>) -> (r: Vec<UsbDevice>)
    ensures
        device_views(r@) == device_views(v@),
{
    let mut r: Vec<UsbDevice> = Vec::new();
    let mut i: usize = 0;
    while i < v.len()
        invariant
            i <= v.len(),
            device_views(r@) == device_views(v@.take(i as int)),
        decreases v.len() - i,
    {
        let ghost before = device_views(r@);
        r.push(v[i].duplicate());
        assert(device_views(r@) =~= before.push(v@[i as int]@));
        assert(v@.take(i + 1) == v@.take(i as int).push(v@[i as int]));
        assert(device_views(v@.take(i + 1)) =~= device_views(v@.take(i as int)).push(v@[i as int]@));
        i += 1;
    }
    assert(v@.take(v.len() as int) == v@);
    r
}

/// Whether two snapshots, each sorted by instance id, are equal: then the
/// state did not change.
///
/// A positive answer means the two hold the same device records; the same
/// records in any order, no instance id twice, always give a positive answer.
pub fn same_snapshot(prev: &Vec<UsbDevice>, cur: &Vec<UsbDevice>) -> (r: bool)
    ensures
        r == (by_instance(device_views(prev@)) == by_instance(device_views(cur@))),
        r ==> device_views(prev@).to_multiset() == device_views(cur@).to_multiset(),
        device_views(prev@).to_multiset() == device_views(cur@).to_multiset()
            && distinct_instances(device_views(prev@)) ==> r,
{
    let mut a = copy_list(prev);
    let mut b = copy_list(cur);
    sort_by_instance(&mut a);
    sort_by_instance(&mut b);
    let r = same_list(&a, &b);
    proof {
        if device_views(prev@).to_multiset() == device_views(cur@).to_multiset() && distinct_instances(
            device_views(prev@),
        ) {
            law_same_devices_any_order(device_views(prev@), device_views(cur@), device_views(a@), device_views(b@));
        }
    }
    r
}

/// Sorting two snapshots that hold the same device records, in any order
/// and without a repeated instance id, gives the same sequence: such a pair
/// is never taken for a change of state.
pub proof fn law_same_devices_any_order(
    prev: Seq<DeviceView>,
    cur: Seq<DeviceView>,
    sorted_prev: Seq<DeviceView>,
    sorted_cur: Seq<DeviceView>,
)
    requires
        prev.to_multiset() == cur.to_multiset(),
        distinct_instances(prev),
        sorted_by_instance(sorted_prev),
        sorted_prev.to_multiset() == prev.to_multiset(),
        sorted_by_instance(sorted_cur),
        sorted_cur.to_multiset() == cur.to_multiset(),
    ensures
        sorted_prev == sorted_cur,
{
    assert(distinct_instances(sorted_prev)) by {
        assert forall|i: int, j: int|
            0 <= i < sorted_prev.len() && 0 <= j < sorted_prev.len() && i
                != j implies #[trigger] sorted_prev[i].instance_id
                != #[trigger] sorted_prev[j].instance_id by {
            lemma_no_repeat_in_permutation(prev, sorted_prev, i, j);
        }
    }
    lemma_sorted_unique(sorted_prev, sorted_cur);
}

/// A permutation of a sequence without a repeated instance id repeats none.
proof fn lemma_no_repeat_in_permutation(s: Seq<DeviceView>, t: Seq<DeviceView>, i: int, j: int)
    requires
        distinct_instances(s),
        t.to_multiset() == s.to_multiset(),
        0 <= i < t.len(),
        0 <= j < t.len(),
        i != j,
    ensures
        t[i].instance_id != t[j].instance_id,
{
    if t[i].instance_id == t[j].instance_id {
        assert(t.contains(t[i]));
        assert(t.contains(t[j]));
        assert(t.to_multiset().count(t[i]) > 0);
        assert(t.to_multiset().count(t[j]) > 0);
        assert(s.to_multiset().count(t[i]) > 0);
        assert(s.to_multiset().count(t[j]) > 0);
        assert(s.contains(t[i]));
        assert(s.contains(t[j]));
        let a = choose|a: int| 0 <= a < s.len() && s[a] == t[i];
        let b = choose|b: int| 0 <= b < s.len() && s[b] == t[j];
        if a != b {
            assert(s[a].instance_id == s[b].instance_id);
            assert(false);
        }
        // the same record twice in t, once in s
        assert(t[i] == t[j]);
        lemma_count_two(t, i, j);
        lemma_count_one(s, a);
        assert(false);
    }
}

/// A record at two positions is counted at least twice.
proof fn lemma_count_two(t: Seq<DeviceView>, i: int, j: int)
    requires
        0 <= i < t.len(),
        0 <= j < t.len(),
        i != j,
        t[i] == t[j],
    ensures
        t.to_multiset().count(t[i]) >= 2,
{
    let lo = if i < j { i } else { j };
    let hi = if i < j { j } else { i };
    let u = t.remove(hi);
    assert(u[lo] == t[i]);
    assert(u.to_multiset().count(t[i]) > 0);
    assert(u.to_multiset() == t.to_multiset().remove(t[hi]));
}

/// In a sequence without a repeated instance id each record is counted once.
proof fn lemma_count_one(s: Seq<DeviceView>, a: int)
    requires
        distinct_instances(s),
        0 <= a < s.len(),
    ensures
        s.to_multiset().count(s[a]) == 1,
{
    let u = s.remove(a);
    assert(u.to_multiset() == s.to_multiset().remove(s[a]));
    if u.contains(s[a]) {
        let k = choose|k: int| 0 <= k < u.len() && u[k] == s[a];
        let sk = if k < a { k } else { k + 1 };
        assert(u[k] == s[sk]);
        assert(s[sk].instance_id == s[a].instance_id);
        assert(false);
    }
    assert(u.to_multiset().count(s[a]) == 0);
}

// ---------------------------------------------------------------------------
// Devices that disappeared or appeared
// ---------------------------------------------------------------------------

/// Some entry of `list` has instance id `iid`, ASCII case ignored.
pub open spec fn has_instance(list: Seq<DeviceView>, iid: Seq<char>) -> bool {
    exists|i: int| 0 <= i < list.len() && eq_ignore_case(#[trigger] list[i].instance_id, iid)
}

/// The entries of `list` whose instance id `other` does not hold, in order.
pub open spec fn missing_from(list: Seq<DeviceView>, other: Seq<DeviceView>) -> Seq<DeviceView> {
    list.filter(|d: DeviceView| !has_instance(other, d.instance_id))
}

fn holds_instance(list: &[UsbDevice], iid: &String) -> (r: bool)
    ensures
        r == has_instance(device_views(list@), iid@),
{
    let x = chars_of(iid.as_str());
    let ghost l = device_views(list@);
    let mut i: usize = 0;
    while i < list.len()
        invariant
            i <= list.len(),
            l == device_views(list@),
            x@ == iid@,
            forall|j: int| 0 <= j < i ==> !eq_ignore_case(#[trigger] l[j].instance_id, iid@),
        decreases list.len() - i,
    {
        let y = chars_of(list[i].instance_id.as_str());
        assert(l[i as int].instance_id == y@);
        if eq_ignore_ascii_case(&y, &x) {
            return true;
        }
        i += 1;
    }
    false
}

fn missing(list: &[UsbDevice], other: &[UsbDevice]) -> (r: Vec<UsbDevice>)
    ensures
        device_views(r@) == missing_from(device_views(list@), device_views(other@)),
{
    let ghost l = device_views(list@);
    let ghost o = device_views(other@);
    let ghost pred = |d: DeviceView| !has_instance(o, d.instance_id);
    let mut r: Vec<UsbDevice> = Vec::new();
    let mut i: usize = 0;
    while i < list.len()
        invariant
            i <= list.len(),
            l == device_views(list@),
            o == device_views(other@),
            pred == (|d: DeviceView| !has_instance(o, d.instance_id)),
            device_views(r@) == l.take(i as int).filter(pred),
        decreases list.len() - i,
    {
        let keep = !holds_instance(other, &list[i].instance_id);
        assert(l[i as int] == list@[i as int]@);
        assert(pred(l[i as int]) == keep);
        proof {
            assert(l.take(i + 1) == l.take(i as int).push(l[i as int]));
            l.take(i as int).lemma_filter_push(l[i as int], pred);
        }
        if keep {
            let ghost before = device_views(r@);
            r.push(list[i].duplicate());
            assert(device_views(r@) =~= before.push(l[i as int]));
        }
        i += 1;
    }
    assert(l.take(l.len() as int) == l);
    r
}

/// The devices of `prev` that `cur` no longer holds, and the devices of
/// `cur` that `prev` did not hold, compared by instance id with ASCII case
/// ignored; both in their snapshot's order.
pub fn diff_snapshots(prev: &[UsbDevice], cur: &[UsbDevice]) -> (r: (Vec<UsbDevice>, Vec<UsbDevice>))
    ensures
        device_views(r.0@) == missing_from(device_views(prev@), device_views(cur@)),
        device_views(r.1@) == missing_from(device_views(cur@), device_views(prev@)),
{
    (missing(prev, cur), missing(cur, prev))
}

/// A device counts as removed exactly when the new snapshot lacks its
/// instance id (and as added exactly when the old one lacked it): every
/// reported device lacks its counterpart, every unreported one has it, and
/// two snapshots holding the same instance ids report nothing.
pub proof fn law_diff_is_exact(prev: Seq<DeviceView>, cur: Seq<DeviceView>)
    ensures
        forall|k: int|
            0 <= k < missing_from(prev, cur).len() ==> !has_instance(
                cur,
                (#[trigger] missing_from(prev, cur)[k]).instance_id,
            ) && prev.contains(missing_from(prev, cur)[k]),
        forall|i: int|
            0 <= i < prev.len() ==> (has_instance(cur, (#[trigger] prev[i]).instance_id)
                || missing_from(prev, cur).contains(prev[i])),
        (forall|i: int| 0 <= i < prev.len() ==> has_instance(cur, (#[trigger] prev[i]).instance_id))
            ==> missing_from(prev, cur).len() == 0,
{
    let pred = |d: DeviceView| !has_instance(cur, d.instance_id);
    broadcast use vstd::seq_lib::group_filter_ensures;

    assert forall|k: int| 0 <= k < missing_from(prev, cur).len() implies !has_instance(
        cur,
        (#[trigger] missing_from(prev, cur)[k]).instance_id,
    ) && prev.contains(missing_from(prev, cur)[k]) by {
        prev.lemma_filter_pred(pred, k);
        assert(missing_from(prev, cur).contains(missing_from(prev, cur)[k]));
        prev.lemma_filter_contains_rev(pred, missing_from(prev, cur)[k]);
    }
    assert forall|i: int| 0 <= i < prev.len() implies (has_instance(
        cur,
        (#[trigger] prev[i]).instance_id,
    ) || missing_from(prev, cur).contains(prev[i])) by {
        if !has_instance(cur, prev[i].instance_id) {
            prev.lemma_filter_contains(pred, i);
        }
    }
    if forall|i: int| 0 <= i < prev.len() ==> has_instance(cur, (#[trigger] prev[i]).instance_id) {
        if missing_from(prev, cur).len() > 0 {
            prev.lemma_filter_pred(pred, 0);
            let d = missing_from(prev, cur)[0];
            assert(missing_from(prev, cur).contains(d));
            prev.lemma_filter_contains_rev(pred, d);
            let i = choose|i: int| 0 <= i < prev.len() && prev[i] == d;
            assert(has_instance(cur, prev[i].instance_id));
        }
    }
}

} // verus!
