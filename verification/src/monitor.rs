//! Turning two enumerations of the present USB device nodes into plug and
//! unplug events.

use vstd::prelude::*;
use crate::snapshot::lex_le;
use crate::text::chars_of;
use crate::usbipd::same_chars;

verus! {

/// A device node appeared (`connected`) or disappeared.
#[derive(Debug, PartialEq, Eq)]
pub struct UsbChange {
    pub instance_id: String,
    pub connected: bool,
}

pub open spec fn change_views(v: Seq<UsbChange>) -> Seq<(Seq<char>, bool)> {
    v.map_values(|c: UsbChange| (c.instance_id@, c.connected))
}

pub open spec fn id_views(v: Seq<String>) -> Seq<Seq<char>> {
    v.map_values(|s: String| s@)
}

/// The ids of `a` that `b` lacks, in order.
pub open spec fn not_in(a: Seq<Seq<char>>, b: Seq<Seq<char>>) -> Seq<Seq<char>> {
    a.filter(|x: Seq<char>| !b.contains(x))
}

/// The events between two enumerations: first every new node, plugged,
/// then every vanished one, unplugged.
pub open spec fn changes_between(prev: Seq<Seq<char>>, cur: Seq<Seq<char>>) -> Seq<(Seq<char>, bool)> {
    not_in(cur, prev).map_values(|x: Seq<char>| (x, true)) + not_in(prev, cur).map_values(
        |x: Seq<char>| (x, false),
    )
}

fn holds(list: &Vec<String>, id: &String) -> (r: bool)
    ensures
        r == id_views(list@).contains(id@),
{
    let x = chars_of(id.as_str());
    let ghost l = id_views(list@);
    let mut i: usize = 0;
    while i < list.len()
        invariant
            i <= list.len(),
            l == id_views(list@),
            x@ == id@,
            forall|j: int| 0 <= j < i ==> l[j] != id@,
        decreases list.len() - i,
    {
        let y = chars_of(list[i].as_str());
        assert(l[i as int] == y@);
        if same_chars(&y, &x) {
            return true;
        }
        i += 1;
    }
    false
}

fn missing_ids(a: &Vec<String>, b: &Vec<String>, connected: bool) -> (r: Vec<UsbChange>)
    ensures
        change_views(r@) == not_in(id_views(a@), id_views(b@)).map_values(
            |x: Seq<char>| (x, connected),
        ),
{
    let ghost l = id_views(a@);
    let ghost o = id_views(b@);
    let ghost pred = |x: Seq<char>| !o.contains(x);
    let ghost f = |x: Seq<char>| (x, connected);
    let mut r: Vec<UsbChange> = Vec::new();
    let mut i: usize = 0;
    while i < a.len()
        invariant
            i <= a.len(),
            l == id_views(a@),
            o == id_views(b@),
            pred == (|x: Seq<char>| !o.contains(x)),
            f == (|x: Seq<char>| (x, connected)),
            change_views(r@) == l.take(i as int).filter(pred).map_values(f),
        decreases a.len() - i,
    {
        assert(l[i as int] == a@[i as int]@);
        proof {
            assert(l.take(i + 1) == l.take(i as int).push(l[i as int]));
            l.take(i as int).lemma_filter_push(l[i as int], pred);
        }
        if !holds(b, &a[i]) {
            let ghost fs = l.take(i as int).filter(pred);
            r.push(UsbChange { instance_id: a[i].clone(), connected });
            assert(change_views(r@) =~= fs.map_values(f).push(f(l[i as int])));
            assert(fs.push(l[i as int]).map_values(f) =~= fs.map_values(f).push(f(l[i as int])));
        }
        i += 1;
    }
    assert(l.take(l.len() as int) == l);
    r
}

/// The plug and unplug events from `previous` to `current`.
pub fn usb_changes(previous: &Vec<String>, current: &Vec<String>) -> (r: Vec<UsbChange>)
    ensures
        change_views(r@) == changes_between(id_views(previous@), id_views(current@)),
{
    let mut plugged = missing_ids(current, previous, true);
    let unplugged = missing_ids(previous, current, false);
    let ghost a = change_views(plugged@);
    let ghost b = change_views(unplugged@);
    let mut i: usize = 0;
    while i < unplugged.len()
        invariant
            i <= unplugged.len(),
            b == change_views(unplugged@),
            change_views(plugged@) == a + b.take(i as int),
        decreases unplugged.len() - i,
    {
        let c = &unplugged[i];
        let ghost before = change_views(plugged@);
        assert(b[i as int] == (c.instance_id@, c.connected));
        plugged.push(UsbChange { instance_id: c.instance_id.clone(), connected: c.connected });
        assert(change_views(plugged@) =~= before.push(b[i as int]));
        assert(b.take(i + 1) == b.take(i as int).push(b[i as int]));
        assert(change_views(plugged@) =~= a + b.take(i + 1));
        i += 1;
    }
    assert(b.take(b.len() as int) == b);
    plugged
}

proof fn lemma_not_in(a: Seq<Seq<char>>, b: Seq<Seq<char>>, x: Seq<char>)
    ensures
        not_in(a, b).contains(x) <==> (a.contains(x) && !b.contains(x)),
{
    broadcast use vstd::seq_lib::group_filter_ensures;

    let p = |y: Seq<char>| !b.contains(y);
    if not_in(a, b).contains(x) {
        a.lemma_filter_contains_rev(p, x);
        let j = choose|j: int| 0 <= j < not_in(a, b).len() && not_in(a, b)[j] == x;
        a.lemma_filter_pred(p, j);
    }
    if a.contains(x) && !b.contains(x) {
        let i = choose|i: int| 0 <= i < a.len() && a[i] == x;
        a.lemma_filter_contains(p, i);
    }
}

/// Replaying the events on the previous set of nodes gives the current one:
/// a node is present afterwards exactly when it was present and did not
/// leave, or it arrived; arrivals were absent before, departures are absent
/// now.
pub proof fn law_changes_replay(prev: Seq<Seq<char>>, cur: Seq<Seq<char>>, x: Seq<char>)
    ensures
        cur.contains(x) <==> ((prev.contains(x) && !not_in(prev, cur).contains(x)) || not_in(
            cur,
            prev,
        ).contains(x)),
        not_in(cur, prev).contains(x) ==> !prev.contains(x),
        not_in(prev, cur).contains(x) ==> !cur.contains(x),
{
    lemma_not_in(prev, cur, x);
    lemma_not_in(cur, prev, x);
}

// ---------------------------------------------------------------------------
// The enumeration, sorted and without repeats
// ---------------------------------------------------------------------------

/// Strictly increasing in `str` order: sorted, no id twice.
pub open spec fn strictly_sorted(s: Seq<Seq<char>>) -> bool {
    forall|i: int, j: int|
        0 <= i < j < s.len() ==> lex_le(#[trigger] s[i], #[trigger] s[j]) && s[i] != s[j]
}

fn text_le(a: &String, b: &String) -> (r: bool)
    ensures
        r == lex_le(a@, b@),
{
    crate::snapshot::instance_le(a, b)
}

/// The enumerated ids sorted and with repeats removed (as `sort` then
/// `dedup`): strictly increasing, holding exactly the ids given.
pub fn sorted_unique(ids: Vec<String>) -> (r: Vec<String>)
    ensures
        strictly_sorted(id_views(r@)),
        forall|x: Seq<char>| #[trigger] id_views(r@).contains(x) <==> id_views(ids@).contains(x),
{
    let ghost input = id_views(ids@);
    let mut out: Vec<String> = Vec::new();
    let mut i: usize = 0;
    while i < ids.len()
        invariant
            i <= ids.len(),
            input == id_views(ids@),
            strictly_sorted(id_views(out@)),
            forall|x: Seq<char>|
                #[trigger] id_views(out@).contains(x) <==> input.take(i as int).contains(x),
        decreases ids.len() - i,
    {
        let x = &ids[i];
        let ghost s = id_views(out@);
        let mut p: usize = 0;
        while p < out.len()
            invariant
                p <= out.len(),
                s == id_views(out@),
                forall|q: int| 0 <= q < p ==> lex_le(#[trigger] s[q], x@) && s[q] != x@,
            ensures
                p <= out.len(),
                s == id_views(out@),
                forall|q: int| 0 <= q < p ==> lex_le(#[trigger] s[q], x@) && s[q] != x@,
                p < out.len() ==> !(lex_le(s[p as int], x@) && s[p as int] != x@),
            decreases out.len() - p,
        {
            assert(s[p as int] == out@[p as int]@);
            let le = text_le(&out[p], x);
            let a = chars_of(out[p].as_str());
            let b = chars_of(x.as_str());
            if !(le && !same_chars(&a, &b)) {
                break;
            }
            p += 1;
        }
        proof {
            assert(input.take(i + 1) == input.take(i as int).push(input[i as int]));
            assert(input[i as int] == x@);
        }
        let dup = if p < out.len() {
            let a = chars_of(out[p].as_str());
            let b = chars_of(x.as_str());
            same_chars(&a, &b)
        } else {
            false
        };
        if dup {
            assert(s.contains(x@));
            assert forall|y: Seq<char>| #[trigger] id_views(out@).contains(y) <==> input.take(
                i + 1,
            ).contains(y) by {
                if y == x@ {
                    assert(input.take(i + 1)[i as int] == x@);
                }
                if input.take(i + 1).contains(y) && y != x@ {
                    let k = choose|k: int| 0 <= k < i + 1 && #[trigger] input.take(i + 1)[k] == y;
                    assert(input.take(i as int)[k] == y);
                }
                if input.take(i as int).contains(y) {
                    let k = choose|k: int| 0 <= k < i && #[trigger] input.take(i as int)[k] == y;
                    assert(input.take(i + 1)[k] == y);
                }
            }
        } else {
            proof {
                if p < s.len() {
                    crate::snapshot::lemma_lex_total(s[p as int], x@);
                }
            }
            out.insert(p, x.clone());
            assert(id_views(out@) =~= s.insert(p as int, x@));
            let ghost t = id_views(out@);
            assert forall|a: int, b: int| 0 <= a < b < t.len() implies lex_le(
                #[trigger] t[a],
                #[trigger] t[b],
            ) && t[a] != t[b] by {
                if b == p {
                    assert(t[a] == s[a]);
                } else if a == p {
                    assert(t[b] == s[b - 1]);
                    if b - 1 > p {
                        crate::snapshot::lemma_lex_trans(x@, s[p as int], s[b - 1]);
                        if x@ == s[b - 1] {
                            crate::snapshot::lemma_lex_antisym(s[p as int], s[b - 1]);
                        }
                    }
                } else {
                    let sa = if a < p { a } else { a - 1 };
                    let sb = if b < p { b } else { b - 1 };
                    assert(t[a] == s[sa]);
                    assert(t[b] == s[sb]);
                }
            }
            assert forall|y: Seq<char>| #[trigger] id_views(out@).contains(y) <==> input.take(
                i + 1,
            ).contains(y) by {
                if y == x@ {
                    assert(t[p as int] == x@);
                    assert(input.take(i + 1)[i as int] == x@);
                } else {
                    if t.contains(y) {
                        let k = choose|k: int| 0 <= k < t.len() && t[k] == y;
                        let sk = if k < p { k } else { k - 1 };
                        assert(s[sk] == y);
                        assert(s.contains(y));
                        let m = choose|m: int| 0 <= m < i && #[trigger] input.take(i as int)[m] == y;
                        assert(input.take(i + 1)[m] == y);
                    }
                    if input.take(i + 1).contains(y) {
                        let k = choose|k: int| 0 <= k < i + 1 && #[trigger] input.take(i + 1)[k] == y;
                        assert(input.take(i as int)[k] == y);
                        assert(s.contains(y));
                        let m = choose|m: int| 0 <= m < s.len() && s[m] == y;
                        let tm = if m < p { m } else { m + 1 };
                        assert(t[tm] == y);
                    }
                }
            }
        }
        i += 1;
    }
    assert(input.take(input.len() as int) == input);
    out
}

} // verus!
