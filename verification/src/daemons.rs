//! The book of `usbipd attach --auto-attach` daemons this program started.
//!
//! Starting and killing processes, and asking whether one is still alive,
//! is the caller's work; the manager decides which entries to keep, which
//! to stop and whether a daemon for a device is already running.

use vstd::prelude::*;
use crate::text::{
    chars_of, concat, contains, eq_ignore_ascii_case, eq_ignore_case, has_sub, string_from,
    to_lowercase, unicode_lower,
};

verus! {

/// One daemon: its process id and its arguments joined by spaces.
pub struct DaemonProc {
    pub pid: u32,
    pub args: String,
}

/// The daemons started by this program, in the order they were started.
pub struct DaemonManager {
    children: Vec<DaemonProc>,
}

/// A daemon as the contracts see it: process id and argument text.
pub type DaemonView = (u32, Seq<char>);

pub open spec fn proc_views(v: Seq<DaemonProc>) -> Seq<DaemonView> {
    v.map_values(|c: DaemonProc| (c.pid, c.args@))
}

impl View for DaemonManager {
    type V = Seq<DaemonView>;

    closed spec fn view(&self) -> Seq<DaemonView> {
        proc_views(self.children@)
    }
}

/// The argument text mentions `needle`, compared after Unicode lower-casing
/// of both.
pub open spec fn args_mention(args: Seq<char>, needle: Seq<char>) -> bool {
    has_sub(unicode_lower(args), unicode_lower(needle))
}

/// An `attach` daemon for `needle`.
pub open spec fn attaches(args: Seq<char>, needle: Seq<char>) -> bool {
    has_sub(args, "attach"@) && args_mention(args, needle)
}

/// The entries whose process is in `alive`.
pub open spec fn still_alive(ds: Seq<DaemonView>, alive: Seq<u32>) -> Seq<DaemonView> {
    ds.filter(|d: DaemonView| alive.contains(d.0))
}

/// The entries kept by [`DaemonManager::stop_matching`]: those that do not
/// mention `needle`, and those whose process survived the stop.
pub open spec fn kept_after_stop(ds: Seq<DaemonView>, needle: Seq<char>, alive: Seq<u32>) -> Seq<
    DaemonView,
> {
    ds.filter(|d: DaemonView| !args_mention(d.1, needle) || alive.contains(d.0))
}

/// `args` joined with single spaces.
pub open spec fn space_joined(args: Seq<Seq<char>>) -> Seq<char>
    decreases args.len(),
{
    if args.len() == 0 {
        Seq::empty()
    } else if args.len() == 1 {
        args[0]
    } else {
        space_joined(args.drop_last()).push(' ') + args.last()
    }
}

pub open spec fn str_views(v: Seq<String>) -> Seq<Seq<char>> {
    v.map_values(|s: String| s@)
}

/// The command-line text under which a daemon is booked: the arguments
/// joined with single spaces.
pub fn joined_args(args: &Vec<String>) -> (r: String)
    ensures
        r@ == space_joined(str_views(args@)),
{
    let mut r: Vec<char> = Vec::new();
    let mut i: usize = 0;
    while i < args.len()
        invariant
            i <= args.len(),
            r@ == space_joined(str_views(args@.take(i as int))),
        decreases args.len() - i,
    {
        let ghost before = str_views(args@.take(i as int));
        assert(str_views(args@.take(i + 1)).drop_last() == before);
        assert(str_views(args@.take(i + 1)).last() == args@[i as int]@);
        if i > 0 {
            r.push(' ');
        } else {
            assert(str_views(args@.take(1)) == seq![args@[0]@]);
        }
        let a = chars_of(args[i].as_str());
        r = concat(&r, &a);
        i += 1;
    }
    assert(args@.take(args.len() as int) == args@);
    string_from(&r)
}

impl DaemonManager {
    /// No daemon booked.
    pub fn new() -> (r: DaemonManager)
        ensures
            r@ == Seq::<DaemonView>::empty(),
    {
        let r = DaemonManager { children: Vec::new() };
        assert(r@ =~= Seq::<DaemonView>::empty());
        r
    }

    /// The process ids of the booked daemons, in booking order.
    pub fn pids(&self) -> (r: Vec<u32>)
        ensures
            r@ == self@.map_values(|d: DaemonView| d.0),
    {
        let mut r: Vec<u32> = Vec::new();
        let mut i: usize = 0;
        while i < self.children.len()
            invariant
                i <= self.children.len(),
                self@ == proc_views(self.children@),
                r@ == self@.take(i as int).map_values(|d: DaemonView| d.0),
            decreases self.children.len() - i,
        {
            r.push(self.children[i].pid);
            assert(self@.take(i + 1) == self@.take(i as int).push(self@[i as int]));
            assert(r@ =~= self@.take(i + 1).map_values(|d: DaemonView| d.0));
            i += 1;
        }
        assert(self@.take(self@.len() as int) == self@);
        r
    }

    /// Forget the daemons whose process has exited: keep exactly the
    /// entries whose process id is in `alive`, in order.
    pub fn prune(&mut self, alive: &Vec<u32>)
        ensures
            final(self)@ == still_alive(old(self)@, alive@),
    {
        let ghost start = self@;
        let ghost pred = |d: DaemonView| alive@.contains(d.0);
        let mut old_children: Vec<DaemonProc> = Vec::new();
        std::mem::swap(&mut old_children, &mut self.children);
        let mut kept: Vec<DaemonProc> = Vec::new();
        let mut i: usize = 0;
        while i < old_children.len()
            invariant
                i <= old_children.len(),
                start == proc_views(old_children@),
                pred == (|d: DaemonView| alive@.contains(d.0)),
                proc_views(kept@) == start.take(i as int).filter(pred),
            decreases old_children.len() - i,
        {
            let c = &old_children[i];
            let mut live = false;
            let mut j: usize = 0;
            while j < alive.len()
                invariant
                    j <= alive.len(),
                    live <==> exists|k: int| 0 <= k < j && alive@[k] == c.pid,
                decreases alive.len() - j,
            {
                if alive[j] == c.pid {
                    live = true;
                }
                j += 1;
            }
            assert(live == alive@.contains(c.pid));
            assert(start[i as int] == (c.pid, c.args@));
            assert(pred(start[i as int]) == live);
            proof {
                assert(start.take(i + 1) == start.take(i as int).push(start[i as int]));
                start.take(i as int).lemma_filter_push(start[i as int], pred);
            }
            if live {
                let ghost before = proc_views(kept@);
                kept.push(DaemonProc { pid: c.pid, args: c.args.clone() });
                assert(proc_views(kept@) =~= before.push(start[i as int]));
            }
            i += 1;
        }
        assert(start.take(start.len() as int) == start);
        self.children = kept;
    }

    /// An `attach` daemon whose arguments mention `needle` (after Unicode
    /// lower-casing) is booked. The caller prunes first.
    pub fn attaching(&self, needle: &str) -> (r: bool)
        ensures
            r == exists|i: int| 0 <= i < self@.len() && #[trigger] attaches(self@[i].1, needle@),
    {
        let word = chars_of("attach");
        let low_needle = to_lowercase(needle);
        let nl = chars_of(low_needle.as_str());
        let mut i: usize = 0;
        while i < self.children.len()
            invariant
                i <= self.children.len(),
                self@ == proc_views(self.children@),
                word@ == "attach"@,
                nl@ == unicode_lower(needle@),
                forall|k: int| 0 <= k < i ==> !#[trigger] attaches(self@[k].1, needle@),
            decreases self.children.len() - i,
        {
            let args = chars_of(self.children[i].args.as_str());
            let low = to_lowercase(self.children[i].args.as_str());
            let la = chars_of(low.as_str());
            assert(self@[i as int].1 == self.children@[i as int].args@);
            if contains(&args, &word) && contains(&la, &nl) {
                assert(attaches(self@[i as int].1, needle@));
                return true;
            }
            i += 1;
        }
        false
    }

    /// A daemon with exactly this argument text (up to ASCII case) is booked.
    pub fn already_running(&self, joined: &str) -> (r: bool)
        ensures
            r == exists|i: int| 0 <= i < self@.len() && eq_ignore_case(#[trigger] self@[i].1, joined@),
    {
        let j = chars_of(joined);
        let mut i: usize = 0;
        while i < self.children.len()
            invariant
                i <= self.children.len(),
                self@ == proc_views(self.children@),
                j@ == joined@,
                forall|k: int| 0 <= k < i ==> !eq_ignore_case(#[trigger] self@[k].1, joined@),
            decreases self.children.len() - i,
        {
            let a = chars_of(self.children[i].args.as_str());
            assert(self@[i as int].1 == self.children@[i as int].args@);
            if eq_ignore_ascii_case(&a, &j) {
                return true;
            }
            i += 1;
        }
        false
    }

    /// The joined argument text of a daemon to start with `args`, or `None`
    /// when a daemon with that text (up to ASCII case) is already booked and
    /// nothing is to be started.
    pub fn needs_start(&self, args: &Vec<String>) -> (r: Option<String>)
        ensures
            r is None == running_with(self@, space_joined(str_views(args@))),
            r matches Some(j) ==> j@ == space_joined(str_views(args@)),
    {
        let joined = joined_args(args);
        if self.already_running(joined.as_str()) {
            None
        } else {
            Some(joined)
        }
    }

    /// Book the outcome of starting the daemon `joined`: the started process,
    /// or the reason it did not start.
    pub fn finish_start(&mut self, joined: String, started: Result<u32, String>) -> (r: Result<
        (),
        String,
    >)
        ensures
            final(self)@ == match started {
                Ok(p) => old(self)@.push((p, joined@)),
                Err(_) => old(self)@,
            },
            match (started, r) {
                (Ok(_), Ok(_)) => true,
                (Err(e), Err(m)) => m@ == start_failure(e@),
                _ => false,
            },
    {
        match started {
            Ok(pid) => {
                self.record(pid, joined);
                Ok(())
            },
            Err(e) => {
                let m = chars_of("Failed to start auto-attach daemon: ");
                let ec = chars_of(e.as_str());
                let m = concat(&m, &ec);
                Err(string_from(&m))
            },
        }
    }

    /// Book a daemon that was just started.
    pub fn record(&mut self, pid: u32, args: String)
        ensures
            final(self)@ == old(self)@.push((pid, args@)),
    {
        let ghost before = self@;
        self.children.push(DaemonProc { pid, args });
        assert(self@ =~= before.push((pid, args@)));
    }

    /// The process ids of the booked daemons whose arguments mention
    /// `needle`: the ones [`DaemonManager::stop_matching`] is about to stop.
    pub fn matching_pids(&self, needle: &str) -> (r: Vec<u32>)
        ensures
            r@ == self@.filter(|d: DaemonView| args_mention(d.1, needle@)).map_values(
                |d: DaemonView| d.0,
            ),
    {
        let ghost pred = |d: DaemonView| args_mention(d.1, needle@);
        let low_needle = to_lowercase(needle);
        let nl = chars_of(low_needle.as_str());
        let mut r: Vec<u32> = Vec::new();
        let mut i: usize = 0;
        while i < self.children.len()
            invariant
                i <= self.children.len(),
                self@ == proc_views(self.children@),
                nl@ == unicode_lower(needle@),
                pred == (|d: DaemonView| args_mention(d.1, needle@)),
                r@ == self@.take(i as int).filter(pred).map_values(|d: DaemonView| d.0),
            decreases self.children.len() - i,
        {
            let low = to_lowercase(self.children[i].args.as_str());
            let la = chars_of(low.as_str());
            assert(self@[i as int].1 == self.children@[i as int].args@);
            proof {
                assert(self@.take(i + 1) == self@.take(i as int).push(self@[i as int]));
                self@.take(i as int).lemma_filter_push(self@[i as int], pred);
            }
            let m = contains(&la, &nl);
            assert(pred(self@[i as int]) == m);
            if m {
                let ghost fs = self@.take(i as int).filter(pred);
                r.push(self.children[i].pid);
                assert(fs.push(self@[i as int]).map_values(|d: DaemonView| d.0) =~= fs.map_values(
                    |d: DaemonView| d.0,
                ).push(self@[i as int].0));
            }
            i += 1;
        }
        assert(self@.take(self@.len() as int) == self@);
        r
    }

    /// After the daemons mentioning `needle` were told to stop: forget those
    /// whose process is gone, keeping every other entry in order.
    pub fn stop_matching(&mut self, needle: &str, alive: &Vec<u32>)
        ensures
            final(self)@ == kept_after_stop(old(self)@, needle@, alive@),
    {
        let ghost start = self@;
        let ghost pred = |d: DaemonView| !args_mention(d.1, needle@) || alive@.contains(d.0);
        let low_needle = to_lowercase(needle);
        let nl = chars_of(low_needle.as_str());
        let mut old_children: Vec<DaemonProc> = Vec::new();
        std::mem::swap(&mut old_children, &mut self.children);
        let mut kept: Vec<DaemonProc> = Vec::new();
        let mut i: usize = 0;
        while i < old_children.len()
            invariant
                i <= old_children.len(),
                start == proc_views(old_children@),
                nl@ == unicode_lower(needle@),
                pred == (|d: DaemonView| !args_mention(d.1, needle@) || alive@.contains(d.0)),
                proc_views(kept@) == start.take(i as int).filter(pred),
            decreases old_children.len() - i,
        {
            let c = &old_children[i];
            let low = to_lowercase(c.args.as_str());
            let la = chars_of(low.as_str());
            let mentions = contains(&la, &nl);
            let mut live = false;
            let mut j: usize = 0;
            while j < alive.len()
                invariant
                    j <= alive.len(),
                    live <==> exists|k: int| 0 <= k < j && alive@[k] == c.pid,
                decreases alive.len() - j,
            {
                if alive[j] == c.pid {
                    live = true;
                }
                j += 1;
            }
            assert(live == alive@.contains(c.pid));
            assert(start[i as int] == (c.pid, c.args@));
            assert(pred(start[i as int]) == (!mentions || live));
            proof {
                assert(start.take(i + 1) == start.take(i as int).push(start[i as int]));
                start.take(i as int).lemma_filter_push(start[i as int], pred);
            }
            if !mentions || live {
                let ghost before = proc_views(kept@);
                kept.push(DaemonProc { pid: c.pid, args: c.args.clone() });
                assert(proc_views(kept@) =~= before.push(start[i as int]));
            }
            i += 1;
        }
        assert(start.take(start.len() as int) == start);
        self.children = kept;
    }

    /// Forget every daemon and hand back their process ids, in booking
    /// order, for the caller to stop.
    pub fn stop_all(&mut self) -> (r: Vec<u32>)
        ensures
            r@ == old(self)@.map_values(|d: DaemonView| d.0),
            final(self)@ == Seq::<DaemonView>::empty(),
    {
        let r = self.pids();
        self.children = Vec::new();
        assert(self@ =~= Seq::<DaemonView>::empty());
        r
    }
}

/// A daemon with this argument text (up to ASCII case) is booked.
pub open spec fn running_with(ds: Seq<DaemonView>, joined: Seq<char>) -> bool {
    exists|i: int| 0 <= i < ds.len() && eq_ignore_case(#[trigger] ds[i].1, joined)
}

/// Why a daemon did not start.
pub open spec fn start_failure(e: Seq<char>) -> Seq<char> {
    "Failed to start auto-attach daemon: "@ + e
}

/// The booked daemons after a start of the daemon `joined` was asked for
/// ([`DaemonManager::needs_start`], then the start and
/// [`DaemonManager::finish_start`]): unchanged when one with that text is
/// booked (nothing is started) or when starting failed (`None`); otherwise
/// the started process is booked after the others.
pub open spec fn after_start(ds: Seq<DaemonView>, joined: Seq<char>, started: Option<u32>) -> Seq<
    DaemonView,
> {
    if running_with(ds, joined) {
        ds
    } else {
        match started {
            Some(p) => ds.push((p, joined)),
            None => ds,
        }
    }
}

/// Asking twice for the same daemon books it once: once a start with this
/// argument text was booked (or one already ran), a second request with the
/// same arguments, up to ASCII case, starts nothing and books nothing.
pub proof fn law_start_twice_books_once(
    ds: Seq<DaemonView>,
    joined: Seq<char>,
    other: Seq<char>,
    p: u32,
    second: Option<u32>,
)
    requires
        eq_ignore_case(joined, other),
    ensures
        running_with(after_start(ds, joined, Some(p)), other),
        after_start(after_start(ds, joined, Some(p)), other, second) == after_start(
            ds,
            joined,
            Some(p),
        ),
{
    let d1 = after_start(ds, joined, Some(p));
    if running_with(ds, joined) {
        let i = choose|i: int| 0 <= i < ds.len() && eq_ignore_case(#[trigger] ds[i].1, joined);
        assert(eq_ignore_case(d1[i].1, other));
    } else {
        let n = ds.len() as int;
        assert(d1[n].1 == joined);
        assert(eq_ignore_case(d1[n].1, other));
    }
}

/// A daemon is started once: right after booking one, asking whether a
/// daemon with the same argument text runs says yes, so a second start with
/// the same arguments is skipped; booking keeps every earlier entry.
pub proof fn law_spawn_once(ds: Seq<DaemonView>, pid: u32, args: Seq<char>)
    ensures
        exists|i: int|
            0 <= i < ds.push((pid, args)).len() && eq_ignore_case(
                #[trigger] ds.push((pid, args))[i].1,
                args,
            ),
        forall|i: int| 0 <= i < ds.len() ==> ds.push((pid, args))[i] == ds[i],
{
    let n = ds.len() as int;
    assert(ds.push((pid, args))[n].1 == args);
    assert(eq_ignore_case(args, args));
}

/// Stopping the daemons of one device never forgets another device's:
/// every entry that does not mention the needle stays, in order, and so
/// does every entry whose process is still alive.
pub proof fn law_stop_keeps_others(ds: Seq<DaemonView>, needle: Seq<char>, alive: Seq<u32>, k: int)
    requires
        0 <= k < ds.len(),
        !args_mention(ds[k].1, needle) || alive.contains(ds[k].0),
    ensures
        kept_after_stop(ds, needle, alive).contains(ds[k]),
{
    broadcast use vstd::seq_lib::group_filter_ensures;

    let pred = |d: DaemonView| !args_mention(d.1, needle) || alive.contains(d.0);
    ds.lemma_filter_contains(pred, k);
}

} // verus!
