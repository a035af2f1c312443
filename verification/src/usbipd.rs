//! usbipd-win integration: result codes, output clean-up, version check,
//! device-list parsing and the helpers of the bind/attach flows.

use vstd::prelude::*;
use crate::config::{device_views, empty_device, DeviceView, UsbDevice};
use crate::lang::{msg_text, t, Msg};
use crate::sys::{string_views, AppInfo, CmdOutput};
use crate::text::{
    all_space, chars_of, concat, contains, eq_ignore_ascii_case, eq_ignore_case, find,
    first_match, has_sub, lower_char, matches_at, occurs_at,
    is_blank, is_digit, is_digit_char, is_hex_char, is_hex_digit, lines_of, lower, lower_chars,
    slice_of, string_from, text_lines, trim, trim_chars, trim_end, trim_end_chars, views,
};

verus! {

// ---------------------------------------------------------------------------
// Result codes
// ---------------------------------------------------------------------------

/// Outcome classes of usbipd and of the operations built on it.
#[derive(Debug, Clone, Copy, PartialEq, Eq, Structural)]
pub enum ErrCode {
    DeviceDetachFailed,
    DeviceUnbindFailed,
    DeviceAttachFailed,
    DeviceBindFailed,
    DeviceNotAttached,
    DeviceNotBound,
    DeviceNotConnected,
    UsbipdLowVersion,
    UsbipdNotFound,
    WslDistribNotFound,
    WslLowVersion,
    WslNotRunning,
    WslNotInstalled,
    Success,
    Failure,
    ParseError,
    AccessDenied,
    Timeout,
    DeviceInAttaching,
    UnknownError,
}

pub open spec fn err_code_value(c: ErrCode) -> int {
    match c {
        ErrCode::DeviceDetachFailed => -26,
        ErrCode::DeviceUnbindFailed => -25,
        ErrCode::DeviceAttachFailed => -24,
        ErrCode::DeviceBindFailed => -23,
        ErrCode::DeviceNotAttached => -22,
        ErrCode::DeviceNotBound => -21,
        ErrCode::DeviceNotConnected => -20,
        ErrCode::UsbipdLowVersion => -11,
        ErrCode::UsbipdNotFound => -10,
        ErrCode::WslDistribNotFound => -4,
        ErrCode::WslLowVersion => -3,
        ErrCode::WslNotRunning => -2,
        ErrCode::WslNotInstalled => -1,
        ErrCode::Success => 0,
        ErrCode::Failure => 1,
        ErrCode::ParseError => 2,
        ErrCode::AccessDenied => 3,
        ErrCode::Timeout => 4,
        ErrCode::DeviceInAttaching => 5,
        ErrCode::UnknownError => 255,
    }
}

impl ErrCode {
    /// The numeric value of the code.
    pub fn value(&self) -> (r: i32)
        ensures
            r == err_code_value(*self),
    {
        match self {
            ErrCode::DeviceDetachFailed => -26,
            ErrCode::DeviceUnbindFailed => -25,
            ErrCode::DeviceAttachFailed => -24,
            ErrCode::DeviceBindFailed => -23,
            ErrCode::DeviceNotAttached => -22,
            ErrCode::DeviceNotBound => -21,
            ErrCode::DeviceNotConnected => -20,
            ErrCode::UsbipdLowVersion => -11,
            ErrCode::UsbipdNotFound => -10,
            ErrCode::WslDistribNotFound => -4,
            ErrCode::WslLowVersion => -3,
            ErrCode::WslNotRunning => -2,
            ErrCode::WslNotInstalled => -1,
            ErrCode::Success => 0,
            ErrCode::Failure => 1,
            ErrCode::ParseError => 2,
            ErrCode::AccessDenied => 3,
            ErrCode::Timeout => 4,
            ErrCode::DeviceInAttaching => 5,
            ErrCode::UnknownError => 255,
        }
    }
}

/// How a process exit code is classified.
pub open spec fn err_code_of_exit(code: i32) -> ErrCode {
    if code == 0 {
        ErrCode::Success
    } else if code == 1 {
        ErrCode::Failure
    } else if code == 2 || code == 3 {
        ErrCode::UsbipdNotFound
    } else if code == 5 || code == 126 {
        ErrCode::AccessDenied
    } else {
        ErrCode::UnknownError
    }
}

pub fn exit_code_to_err_code(code: i32) -> (r: ErrCode)
    ensures
        r == err_code_of_exit(code),
{
    match code {
        0 => ErrCode::Success,
        1 => ErrCode::Failure,
        2 | 3 => ErrCode::UsbipdNotFound,
        5 | 126 => ErrCode::AccessDenied,
        _ => ErrCode::UnknownError,
    }
}

/// Result of a usbipd command after stripping `info:`/`error:`/`warning:` prefixes.
pub struct CmdOut {
    pub code: ErrCode,
    pub stdout: String,
    pub stderr: String,
}

impl Default for CmdOut {
    fn default() -> (r: Self)
        ensures
            r.code == ErrCode::Success,
            r.stdout@.len() == 0,
            r.stderr@.len() == 0,
    {
        CmdOut { code: ErrCode::Success, stdout: String::new(), stderr: String::new() }
    }
}

// ---------------------------------------------------------------------------
// Small character helpers
// ---------------------------------------------------------------------------

/// Appends `w` to `v`.
pub fn push_all(v: &mut Vec<char>, w: &[char])
    ensures
        final(v)@ == old(v)@ + w@,
{
    let mut i: usize = 0;
    while i < w.len()
        invariant
            i <= w.len(),
            v@ == old(v)@ + w@.take(i as int),
        decreases w.len() - i,
    {
        v.push(w[i]);
        assert(w@.take(i + 1) == w@.take(i as int).push(w@[i as int]));
        assert(old(v)@ + w@.take(i + 1) == (old(v)@ + w@.take(i as int)).push(w@[i as int]));
        i += 1;
    }
    assert(w@.take(w.len() as int) == w@);
}

/// Exact equality of two character slices.
pub fn same_chars(a: &[char], b: &[char]) -> (r: bool)
    ensures
        r == (a@ == b@),
{
    if a.len() != b.len() {
        return false;
    }
    let mut i: usize = 0;
    while i < a.len()
        invariant
            i <= a.len() == b.len(),
            forall|j: int| 0 <= j < i ==> a@[j] == b@[j],
        decreases a.len() - i,
    {
        if a[i] != b[i] {
            return false;
        }
        i += 1;
    }
    assert(a@ =~= b@);
    true
}

// ---------------------------------------------------------------------------
// Output clean-up
// ---------------------------------------------------------------------------

pub open spec fn info_tag() -> Seq<char> {
    seq!['i', 'n', 'f', 'o', ':']
}

pub open spec fn error_tag() -> Seq<char> {
    seq!['e', 'r', 'r', 'o', 'r', ':']
}

pub open spec fn warning_tag() -> Seq<char> {
    seq!['w', 'a', 'r', 'n', 'i', 'n', 'g', ':']
}

pub open spec fn newline() -> Seq<char> {
    seq!['\n']
}

/// How one output line is sorted: text after `info:` goes to the output,
/// text after `error:` or `warning:` to the errors (trimmed in both cases),
/// other non-blank lines go to the output unchanged.
pub open spec fn sort_line(acc: (Seq<char>, Seq<char>), l: Seq<char>) -> (Seq<char>, Seq<char>) {
    match first_match(l, info_tag()) {
        Some(i) => (acc.0 + trim(l.subrange(i + 5, l.len() as int)) + newline(), acc.1),
        None => match first_match(l, error_tag()) {
            Some(i) => (acc.0, acc.1 + trim(l.subrange(i + 6, l.len() as int)) + newline()),
            None => match first_match(l, warning_tag()) {
                Some(i) => (acc.0, acc.1 + trim(l.subrange(i + 8, l.len() as int)) + newline()),
                None => if !all_space(l) {
                    (acc.0 + l + newline(), acc.1)
                } else {
                    acc
                },
            },
        },
    }
}

pub open spec fn sort_lines(lines: Seq<Seq<char>>) -> (Seq<char>, Seq<char>)
    decreases lines.len(),
{
    if lines.len() == 0 {
        (Seq::empty(), Seq::empty())
    } else {
        sort_line(sort_lines(lines.drop_last()), lines.last())
    }
}

/// `(stdout, stderr)` recovered from usbipd's combined output.
pub open spec fn stripped(text: Seq<char>) -> (Seq<char>, Seq<char>) {
    let acc = sort_lines(text_lines(text));
    (trim_end(acc.0), trim_end(acc.1))
}

fn tagged_rest(l: &[char], at: usize, tag_len: usize) -> (r: Vec<char>)
    requires
        at + tag_len <= l.len(),
    ensures
        r@ == trim(l@.subrange(at + tag_len, l@.len() as int)),
{
    let rest = slice_of(l, at + tag_len, l.len());
    trim_chars(&rest)
}

pub fn strip_prefixes(text: &str) -> (r: (String, String))
    ensures
        (r.0@, r.1@) == stripped(text@),
{
    let chars = chars_of(text);
    let lines = lines_of(&chars);
    let info = vec!['i', 'n', 'f', 'o', ':'];
    let error = vec!['e', 'r', 'r', 'o', 'r', ':'];
    let warning = vec!['w', 'a', 'r', 'n', 'i', 'n', 'g', ':'];
    let mut out: Vec<char> = Vec::new();
    let mut err: Vec<char> = Vec::new();
    let ghost ls = views(lines@);
    let mut i: usize = 0;
    while i < lines.len()
        invariant
            i <= lines.len(),
            ls == views(lines@),
            ls == text_lines(text@),
            info@ == info_tag(),
            error@ == error_tag(),
            warning@ == warning_tag(),
            (out@, err@) == sort_lines(ls.take(i as int)),
        decreases lines.len() - i,
    {
        assert(ls.take(i + 1).drop_last() == ls.take(i as int));
        assert(ls[i as int] == lines@[i as int]@);
        let l = &lines[i];
        proof {
            crate::text::lemma_first_match(l@, info_tag());
            crate::text::lemma_first_match(l@, error_tag());
            crate::text::lemma_first_match(l@, warning_tag());
        }
        match find(l, &info) {
            Some(k) => {
                let rest = tagged_rest(l, k, 5);
                push_all(&mut out, &rest);
                out.push('\n');
            },
            None => match find(l, &error) {
                Some(k) => {
                    let rest = tagged_rest(l, k, 6);
                    push_all(&mut err, &rest);
                    err.push('\n');
                },
                None => match find(l, &warning) {
                    Some(k) => {
                        let rest = tagged_rest(l, k, 8);
                        push_all(&mut err, &rest);
                        err.push('\n');
                    },
                    None => {
                        if !is_blank(l) {
                            push_all(&mut out, l);
                            out.push('\n');
                        }
                    },
                },
            },
        }
        i += 1;
    }
    assert(ls.take(lines.len() as int) == ls);
    let o = trim_end_chars(&out);
    let e = trim_end_chars(&err);
    (string_from(&o), string_from(&e))
}


// ---------------------------------------------------------------------------
// Version
// ---------------------------------------------------------------------------

/// The pieces of `s` between non-digit characters (`split(|c| !c.is_ascii_digit())`).
pub open spec fn digit_runs(s: Seq<char>) -> Seq<Seq<char>>
    decreases s.len(),
{
    if s.len() == 0 {
        seq![Seq::<char>::empty()]
    } else {
        let p = digit_runs(s.drop_last());
        if !is_digit_char(s.last()) {
            p.push(Seq::<char>::empty())
        } else {
            p.update(p.len() - 1, p.last().push(s.last()))
        }
    }
}

/// The non-empty pieces, order kept.
pub open spec fn non_empty(ps: Seq<Seq<char>>) -> Seq<Seq<char>>
    decreases ps.len(),
{
    if ps.len() == 0 {
        ps
    } else {
        let r = non_empty(ps.drop_last());
        if ps.last().len() > 0 {
            r.push(ps.last())
        } else {
            r
        }
    }
}

/// The decimal value of a string of digits.
pub open spec fn digits_value(s: Seq<char>) -> nat
    decreases s.len(),
{
    if s.len() == 0 {
        0
    } else {
        digits_value(s.drop_last()) * 10 + ((s.last() as int) - ('0' as int)) as nat
    }
}

pub open spec fn all_digits(s: Seq<char>) -> bool {
    forall|i: int| 0 <= i < s.len() ==> is_digit_char(#[trigger] s[i])
}

/// `(major, minor)` of a version text: the first two runs of decimal digits,
/// minor 0 when there is only one; `None` without digits or when a run does
/// not fit in `u32`.
pub open spec fn version_of(v: Seq<char>) -> Option<(u32, u32)> {
    let t = non_empty(digit_runs(trim(v)));
    if t.len() == 0 {
        None
    } else if digits_value(t[0]) > u32::MAX {
        None
    } else if t.len() == 1 {
        Some((digits_value(t[0]) as u32, 0u32))
    } else if digits_value(t[1]) > u32::MAX {
        None
    } else {
        Some((digits_value(t[0]) as u32, digits_value(t[1]) as u32))
    }
}

proof fn lemma_digit_runs(s: Seq<char>)
    ensures
        digit_runs(s).len() >= 1,
        forall|k: int| 0 <= k < digit_runs(s).len() ==> all_digits(#[trigger] digit_runs(s)[k]),
    decreases s.len(),
{
    if s.len() > 0 {
        lemma_digit_runs(s.drop_last());
        let p = digit_runs(s.drop_last());
        if is_digit_char(s.last()) {
            let q = p.update(p.len() - 1, p.last().push(s.last()));
            assert forall|k: int| 0 <= k < q.len() implies all_digits(#[trigger] q[k]) by {
                if k == p.len() - 1 {
                    assert(all_digits(p[k]));
                    assert forall|i: int| 0 <= i < q[k].len() implies is_digit_char(
                        #[trigger] q[k][i],
                    ) by {
                        if i < p[k].len() {
                            assert(q[k][i] == p[k][i]);
                        }
                    }
                }
            }
        } else {
            let q = p.push(Seq::<char>::empty());
            assert forall|k: int| 0 <= k < q.len() implies all_digits(#[trigger] q[k]) by {
                if k < p.len() {
                    assert(q[k] == p[k]);
                }
            }
        }
    }
}

proof fn lemma_non_empty(ps: Seq<Seq<char>>)
    requires
        forall|k: int| 0 <= k < ps.len() ==> all_digits(#[trigger] ps[k]),
    ensures
        forall|k: int| 0 <= k < non_empty(ps).len() ==> all_digits(#[trigger] non_empty(ps)[k]),
    decreases ps.len(),
{
    if ps.len() > 0 {
        assert forall|k: int| 0 <= k < ps.drop_last().len() implies all_digits(
            #[trigger] ps.drop_last()[k],
        ) by {
            assert(ps.drop_last()[k] == ps[k]);
        }
        lemma_non_empty(ps.drop_last());
        let r = non_empty(ps.drop_last());
        if ps.last().len() > 0 {
            assert forall|k: int| 0 <= k < r.push(ps.last()).len() implies all_digits(
                #[trigger] r.push(ps.last())[k],
            ) by {
                if k < r.len() {
                    assert(r.push(ps.last())[k] == r[k]);
                } else {
                    assert(ps.last() == ps[ps.len() - 1]);
                }
            }
        }
    }
}

proof fn lemma_digits_value_grows(s: Seq<char>, k: int)
    requires
        0 <= k <= s.len(),
    ensures
        digits_value(s.take(k)) <= digits_value(s),
    decreases s.len() - k,
{
    if k < s.len() {
        lemma_digits_value_grows(s, k + 1);
        assert(s.take(k + 1).drop_last() == s.take(k));
    } else {
        assert(s.take(k) == s);
    }
}

fn digit_runs_of(v: &[char]) -> (r: Vec<Vec<char>>)
    ensures
        views(r@) == digit_runs(v@),
{
    let mut done: Vec<Vec<char>> = Vec::new();
    let mut cur: Vec<char> = Vec::new();
    let mut i: usize = 0;
    while i < v.len()
        invariant
            i <= v.len(),
            views(done@).push(cur@) == digit_runs(v@.take(i as int)),
        decreases v.len() - i,
    {
        proof {
            lemma_digit_runs(v@.take(i as int));
        }
        assert(v@.take(i + 1).drop_last() == v@.take(i as int));
        let c = v[i];
        if !is_digit(c) {
            let piece = cur;
            done.push(piece);
            cur = Vec::new();
            assert(views(done@) == views(done@.drop_last()).push(piece@));
        } else {
            cur.push(c);
        }
        i += 1;
    }
    assert(v@.take(v.len() as int) == v@);
    let ghost before = views(done@);
    done.push(cur);
    assert(views(done@) == before.push(cur@));
    done
}

fn non_empty_of(ps: Vec<Vec<char>>) -> (r: Vec<Vec<char>>)
    ensures
        views(r@) == non_empty(views(ps@)),
{
    let mut r: Vec<Vec<char>> = Vec::new();
    let ghost all = views(ps@);
    let mut i: usize = 0;
    while i < ps.len()
        invariant
            i <= ps.len(),
            all == views(ps@),
            views(r@) == non_empty(all.take(i as int)),
        decreases ps.len() - i,
    {
        assert(all.take(i + 1).drop_last() == all.take(i as int));
        assert(all.take(i + 1).last() == ps@[i as int]@);
        if ps[i].len() > 0 {
            let piece = slice_of(&ps[i], 0, ps[i].len());
            assert(piece@ == ps@[i as int]@);
            let ghost before = views(r@);
            r.push(piece);
            assert(views(r@) == before.push(piece@));
        }
        i += 1;
    }
    assert(all.take(ps.len() as int) == all);
    r
}

/// The value of a string of digits, `None` when it does not fit in `u32`.
fn parse_digits(v: &[char]) -> (r: Option<u32>)
    requires
        all_digits(v@),
    ensures
        r matches Some(x) ==> x == digits_value(v@),
        r is None ==> digits_value(v@) > u32::MAX,
{
    let mut acc: u32 = 0;
    let mut i: usize = 0;
    while i < v.len()
        invariant
            i <= v.len(),
            all_digits(v@),
            acc == digits_value(v@.take(i as int)),
        decreases v.len() - i,
    {
        assert(v@.take(i + 1).drop_last() == v@.take(i as int));
        assert(is_digit_char(v@[i as int]));
        let d: u32 = (v[i] as u32) - ('0' as u32);
        if acc > (u32::MAX - d) / 10 {
            proof {
                lemma_digits_value_grows(v@, i + 1);
            }
            return None;
        }
        acc = acc * 10 + d;
        i += 1;
    }
    assert(v@.take(v.len() as int) == v@);
    Some(acc)
}

/// `(major, minor)` of a usbipd version string, see [`version_of`].
pub fn parse_version(v: &str) -> (r: Option<(u32, u32)>)
    ensures
        r == version_of(v@),
{
    let chars = chars_of(v);
    let t = trim_chars(&chars);
    let runs = digit_runs_of(&t);
    proof {
        lemma_digit_runs(t@);
        lemma_non_empty(digit_runs(t@));
    }
    let toks = non_empty_of(runs);
    let ghost tv = non_empty(digit_runs(trim(v@)));
    assert(views(toks@) == tv);
    if toks.len() == 0 {
        return None;
    }
    assert(tv[0] == toks@[0]@);
    let major = match parse_digits(&toks[0]) {
        Some(x) => x,
        None => {
            return None;
        },
    };
    if toks.len() == 1 {
        return Some((major, 0));
    }
    assert(tv[1] == toks@[1]@);
    match parse_digits(&toks[1]) {
        Some(minor) => Some((major, minor)),
        None => None,
    }
}


// ---------------------------------------------------------------------------
// Hardware id
// ---------------------------------------------------------------------------

pub open spec fn vid_tag() -> Seq<char> {
    seq!['v', 'i', 'd', '_']
}

pub open spec fn pid_tag() -> Seq<char> {
    seq!['&', 'p', 'i', 'd', '_']
}

pub open spec fn all_hex(s: Seq<char>) -> bool {
    forall|i: int| 0 <= i < s.len() ==> is_hex_char(#[trigger] s[i])
}

/// A `vid_xxxx&pid_xxxx` token starts at `i` of the lower-cased id `s`: four
/// hex digits each, and no further hex digit right after the PID.
pub open spec fn token_at(s: Seq<char>, i: int) -> bool {
    &&& 0 <= i
    &&& i + 17 <= s.len()
    &&& matches_at(s, vid_tag(), i)
    &&& all_hex(s.subrange(i + 4, i + 8))
    &&& matches_at(s, pid_tag(), i + 8)
    &&& all_hex(s.subrange(i + 13, i + 17))
    &&& !(i + 17 < s.len() && is_hex_char(s[i + 17]))
}

/// The first token at or after `i`.
pub open spec fn first_token_from(s: Seq<char>, i: int) -> Option<int>
    decreases s.len() - i,
{
    if i < 0 || i + 17 > s.len() {
        None
    } else if token_at(s, i) {
        Some(i)
    } else {
        first_token_from(s, i + 1)
    }
}

/// `VID:PID` (lower case) of a Windows instance id: the VID and the PID of
/// the first `VID_xxxx&PID_xxxx` token, ASCII case ignored, exactly four hex
/// digits each and no extra hex digit right after the PID.
pub open spec fn vid_pid_spec(id: Seq<char>) -> Option<Seq<char>> {
    let s = lower(id);
    match first_token_from(s, 0) {
        None => None,
        Some(i) => Some(s.subrange(i + 4, i + 8) + seq![':'] + s.subrange(i + 13, i + 17)),
    }
}

proof fn lemma_first_token_from(s: Seq<char>, i: int)
    requires
        0 <= i,
    ensures
        first_token_from(s, i) matches Some(k) ==> i <= k && token_at(s, k),
    decreases s.len() - i,
{
    if i + 17 <= s.len() && !token_at(s, i) {
        lemma_first_token_from(s, i + 1);
    }
}

/// The result only depends on the id up to ASCII case, and it has the shape
/// `hhhh:hhhh` with lower-case hex digits.
pub proof fn law_vid_pid_shape_and_case(a: Seq<char>, b: Seq<char>)
    requires
        lower(a) == lower(b),
    ensures
        vid_pid_spec(a) == vid_pid_spec(b),
        vid_pid_spec(a) matches Some(r) ==> r.len() == 9 && r[4] == ':' && forall|j: int|
            0 <= j < 9 && j != 4 ==> ('0' <= #[trigger] r[j] <= '9' || 'a' <= r[j] <= 'f'),
{
    let s = lower(a);
    lemma_first_token_from(s, 0);
    if let Some(i) = first_token_from(s, 0) {
        let r = s.subrange(i + 4, i + 8) + seq![':'] + s.subrange(i + 13, i + 17);
        assert forall|j: int| 0 <= j < 9 && j != 4 implies ('0' <= #[trigger] r[j] <= '9' || 'a'
            <= r[j] <= 'f') by {
            let k = if j < 4 {
                i + 4 + j
            } else {
                i + 13 + (j - 5)
            };
            if j < 4 {
                assert(r[j] == s.subrange(i + 4, i + 8)[j]);
                assert(is_hex_char(s.subrange(i + 4, i + 8)[j]));
            } else {
                assert(r[j] == s.subrange(i + 13, i + 17)[j - 5]);
                assert(is_hex_char(s.subrange(i + 13, i + 17)[j - 5]));
            }
            assert(r[j] == s[k]);
            assert(s[k] == lower_char(a[k]));
        }
    }
}

fn hex_run(v: &[char], a: usize, b: usize) -> (r: bool)
    requires
        a <= b <= v.len(),
    ensures
        r == all_hex(v@.subrange(a as int, b as int)),
{
    let mut i = a;
    while i < b
        invariant
            a <= i <= b <= v.len(),
            forall|j: int| a <= j < i ==> is_hex_char(v@[j]),
        decreases b - i,
    {
        if !is_hex_digit(v[i]) {
            assert(v@.subrange(a as int, b as int)[i - a] == v@[i as int]);
            return false;
        }
        i += 1;
    }
    assert forall|j: int| 0 <= j < b - a implies is_hex_char(
        #[trigger] v@.subrange(a as int, b as int)[j],
    ) by {
        assert(v@.subrange(a as int, b as int)[j] == v@[a + j]);
    }
    true
}

/// Whether a token starts at `i` (see [`token_at`]).
fn token_here(s: &[char], i: usize, vtag: &[char], ptag: &[char]) -> (r: bool)
    requires
        vtag@ == vid_tag(),
        ptag@ == pid_tag(),
    ensures
        r == token_at(s@, i as int),
{
    if i > s.len() || s.len() - i < 17 {
        return false;
    }
    occurs_at(s, vtag, i) && hex_run(s, i + 4, i + 8) && occurs_at(s, ptag, i + 8) && hex_run(
        s,
        i + 13,
        i + 17,
    ) && !(i + 17 < s.len() && is_hex_digit(s[i + 17]))
}

pub fn vid_pid_of(instance_id: &str) -> (r: Option<String>)
    ensures
        r matches Some(x) ==> vid_pid_spec(instance_id@) == Some(x@),
        r is None ==> vid_pid_spec(instance_id@) is None,
{
    let raw = chars_of(instance_id);
    let s = lower_chars(&raw);
    let vtag = vec!['v', 'i', 'd', '_'];
    let ptag = vec!['&', 'p', 'i', 'd', '_'];
    let mut i: usize = 0;
    while i <= s.len() && s.len() - i >= 17
        invariant
            s@ == lower(instance_id@),
            vtag@ == vid_tag(),
            ptag@ == pid_tag(),
            first_token_from(s@, 0) == first_token_from(s@, i as int),
        decreases s.len() - i,
    {
        if token_here(&s, i, &vtag, &ptag) {
            let vid = slice_of(&s, i + 4, i + 8);
            let pid = slice_of(&s, i + 13, i + 17);
            let mut out = vid;
            out.push(':');
            push_all(&mut out, &pid);
            return Some(string_from(&out));
        }
        i += 1;
    }
    None
}

// ---------------------------------------------------------------------------
// `usbipd state` entries
// ---------------------------------------------------------------------------

/// One entry of the `Devices` array of `usbipd state`; absent or `null`
/// values are `None`.
pub struct DeviceStateJson {
    pub bus_id: Option<String>,
    pub client_ip_address: Option<String>,
    pub description: String,
    pub instance_id: String,
    pub is_forced: bool,
    pub persisted_guid: Option<String>,
    pub stub_instance_id: Option<String>,
}

pub open spec fn opt_view(o: Option<String>) -> Option<Seq<char>> {
    match o {
        Some(s) => Some(s@),
        None => None,
    }
}

/// A value that is present and not blank.
pub open spec fn present(o: Option<Seq<char>>) -> bool {
    o matches Some(s) && !all_space(s)
}

pub open spec fn or_empty(o: Option<Seq<char>>) -> Seq<char> {
    match o {
        Some(s) => s,
        None => Seq::empty(),
    }
}

pub open spec fn zero_id() -> Seq<char> {
    seq!['0', '0', '0', '0', ':', '0', '0', '0', '0']
}

/// The device record of a state entry: entries with a blank instance id are
/// dropped; bound/connected/attached mean that the persisted GUID, bus id and
/// client address are present; the hardware id comes from the instance id
/// (`0000:0000` when it has none).
pub open spec fn device_of_entry(d: DeviceStateJson) -> Option<DeviceView> {
    if all_space(d.instance_id@) {
        None
    } else {
        Some(
            DeviceView {
                instance_id: d.instance_id@,
                hardware_id: match vid_pid_spec(d.instance_id@) {
                    Some(h) => h,
                    None => zero_id(),
                },
                description: d.description@,
                is_forced: d.is_forced,
                bus_id: or_empty(opt_view(d.bus_id)),
                persisted_guid: or_empty(opt_view(d.persisted_guid)),
                stub_instance_id: or_empty(opt_view(d.stub_instance_id)),
                client_ip_address: or_empty(opt_view(d.client_ip_address)),
                is_bound: present(opt_view(d.persisted_guid)),
                is_connected: present(opt_view(d.bus_id)),
                is_attached: present(opt_view(d.client_ip_address)),
                name: Seq::empty(),
            },
        )
    }
}

/// The devices of a state document, in order.
pub open spec fn devices_of_entries(es: Seq<DeviceStateJson>) -> Seq<DeviceView>
    decreases es.len(),
{
    if es.len() == 0 {
        Seq::empty()
    } else {
        let r = devices_of_entries(es.drop_last());
        match device_of_entry(es.last()) {
            Some(d) => r.push(d),
            None => r,
        }
    }
}

fn is_present(o: &Option<String>) -> (r: bool)
    ensures
        r == present(opt_view(*o)),
{
    match o {
        Some(s) => {
            let c = chars_of(s.as_str());
            !is_blank(&c)
        },
        None => false,
    }
}

fn take_or_empty(o: Option<String>) -> (r: String)
    ensures
        r@ == or_empty(opt_view(o)),
{
    match o {
        Some(s) => s,
        None => String::new(),
    }
}

pub fn state_device_to_usb_device(d: DeviceStateJson) -> (r: Option<UsbDevice>)
    ensures
        r matches Some(x) ==> device_of_entry(d) == Some(x@),
        r is None ==> device_of_entry(d) is None,
{
    let id_chars = chars_of(d.instance_id.as_str());
    if is_blank(&id_chars) {
        return None;
    }
    let is_bound = is_present(&d.persisted_guid);
    let is_connected = is_present(&d.bus_id);
    let is_attached = is_present(&d.client_ip_address);
    let hardware_id = match vid_pid_of(d.instance_id.as_str()) {
        Some(h) => h,
        None => {
            let z = vec!['0', '0', '0', '0', ':', '0', '0', '0', '0'];
            string_from(&z)
        },
    };
    Some(
        UsbDevice {
            instance_id: d.instance_id,
            hardware_id,
            description: d.description,
            is_forced: d.is_forced,
            bus_id: take_or_empty(d.bus_id),
            persisted_guid: take_or_empty(d.persisted_guid),
            stub_instance_id: take_or_empty(d.stub_instance_id),
            client_ip_address: take_or_empty(d.client_ip_address),
            is_bound,
            is_connected,
            is_attached,
            name: String::new(),
        },
    )
}

/// The device list of a parsed `usbipd state` document (the `Devices` array).
pub fn devices_from_state(entries: Vec<DeviceStateJson>) -> (r: Vec<UsbDevice>)
    ensures
        device_views(r@) == devices_of_entries(entries@),
{
    let mut r: Vec<UsbDevice> = Vec::new();
    let mut rest = entries;
    let ghost all = rest@;
    let n = rest.len();
    let mut i: usize = 0;
    while rest.len() > 0
        invariant
            rest@.len() + i == all.len(),
            all.len() == n,
            rest@ == all.skip(i as int),
            device_views(r@) == devices_of_entries(all.take(i as int)),
        decreases rest.len(),
    {
        let e = rest.remove(0);
        assert(e == all[i as int]);
        assert(all.take(i + 1).drop_last() == all.take(i as int));
        assert(rest@ == all.skip(i + 1));
        match state_device_to_usb_device(e) {
            Some(d) => {
                let ghost before = device_views(r@);
                r.push(d);
                assert(device_views(r@) == before.push(d@));
            },
            None => {},
        }
        i += 1;
    }
    assert(all.take(all.len() as int) == all);
    r
}


// ---------------------------------------------------------------------------
// `Get-UsbipdDevice` text blocks
// ---------------------------------------------------------------------------

pub open spec fn true_word() -> Seq<char> {
    seq!['t', 'r', 'u', 'e']
}

pub open spec fn yes_word() -> Seq<char> {
    seq!['y', 'e', 's']
}

pub open spec fn one_word() -> Seq<char> {
    seq!['1']
}

/// `true`, `yes` and `1` (any case, surrounding blanks ignored) are true.
pub open spec fn bool_of(v: Seq<char>) -> bool {
    let w = lower(trim(v));
    w == true_word() || w == yes_word() || w == one_word()
}

pub fn parse_bool(v: &str) -> (r: bool)
    ensures
        r == bool_of(v@),
{
    let c = chars_of(v);
    let t = trim_chars(&c);
    let w = lower_chars(&t);
    let a = vec!['t', 'r', 'u', 'e'];
    let b = vec!['y', 'e', 's'];
    let one = vec!['1'];
    assert(a@ == true_word());
    assert(b@ == yes_word());
    assert(one@ == one_word());
    let r = same_chars(&w, &a) || same_chars(&w, &b) || same_chars(&w, &one);
    assert(w@ == lower(trim(v@)));
    r
}

pub open spec fn key_hardware_id() -> Seq<char> {
    seq!['h', 'a', 'r', 'd', 'w', 'a', 'r', 'e', 'i', 'd']
}

pub open spec fn key_description() -> Seq<char> {
    seq!['d', 'e', 's', 'c', 'r', 'i', 'p', 't', 'i', 'o', 'n']
}

pub open spec fn key_is_forced() -> Seq<char> {
    seq!['i', 's', 'f', 'o', 'r', 'c', 'e', 'd']
}

pub open spec fn key_bus_id() -> Seq<char> {
    seq!['b', 'u', 's', 'i', 'd']
}

pub open spec fn key_persisted_guid() -> Seq<char> {
    seq!['p', 'e', 'r', 's', 'i', 's', 't', 'e', 'd', 'g', 'u', 'i', 'd']
}

pub open spec fn key_stub_instance_id() -> Seq<char> {
    seq!['s', 't', 'u', 'b', 'i', 'n', 's', 't', 'a', 'n', 'c', 'e', 'i', 'd']
}

pub open spec fn key_client_ip() -> Seq<char> {
    seq!['c', 'l', 'i', 'e', 'n', 't', 'i', 'p', 'a', 'd', 'd', 'r', 'e', 's', 's']
}

pub open spec fn key_is_bound() -> Seq<char> {
    seq!['i', 's', 'b', 'o', 'u', 'n', 'd']
}

pub open spec fn key_is_connected() -> Seq<char> {
    seq!['i', 's', 'c', 'o', 'n', 'n', 'e', 'c', 't', 'e', 'd']
}

pub open spec fn key_is_attached() -> Seq<char> {
    seq!['i', 's', 'a', 't', 't', 'a', 'c', 'h', 'e', 'd']
}

pub open spec fn key_instance_id() -> Seq<char> {
    seq!['i', 'n', 's', 't', 'a', 'n', 'c', 'e', 'i', 'd']
}

/// The device after one `Key : Value` line (key compared without case;
/// unknown keys change nothing).
pub open spec fn with_property(d: DeviceView, key: Seq<char>, value: Seq<char>) -> DeviceView {
    let k = lower(key);
    if k == key_hardware_id() {
        DeviceView { hardware_id: value, ..d }
    } else if k == key_description() {
        DeviceView { description: value, ..d }
    } else if k == key_is_forced() {
        DeviceView { is_forced: bool_of(value), ..d }
    } else if k == key_bus_id() {
        DeviceView { bus_id: value, ..d }
    } else if k == key_persisted_guid() {
        DeviceView { persisted_guid: value, ..d }
    } else if k == key_stub_instance_id() {
        DeviceView { stub_instance_id: value, ..d }
    } else if k == key_client_ip() {
        DeviceView { client_ip_address: value, ..d }
    } else if k == key_is_bound() {
        DeviceView { is_bound: bool_of(value), ..d }
    } else if k == key_is_connected() {
        DeviceView { is_connected: bool_of(value), ..d }
    } else if k == key_is_attached() {
        DeviceView { is_attached: bool_of(value), ..d }
    } else {
        d
    }
}

pub fn apply_property(d: &mut UsbDevice, key: &str, value: String)
    ensures
        final(d)@ == with_property(old(d)@, key@, value@),
{
    let kc = chars_of(key);
    let k = lower_chars(&kc);
    if same_chars(&k, &vec!['h', 'a', 'r', 'd', 'w', 'a', 'r', 'e', 'i', 'd']) {
        d.hardware_id = value;
    } else if same_chars(&k, &vec!['d', 'e', 's', 'c', 'r', 'i', 'p', 't', 'i', 'o', 'n']) {
        d.description = value;
    } else if same_chars(&k, &vec!['i', 's', 'f', 'o', 'r', 'c', 'e', 'd']) {
        d.is_forced = parse_bool(value.as_str());
    } else if same_chars(&k, &vec!['b', 'u', 's', 'i', 'd']) {
        d.bus_id = value;
    } else if same_chars(
        &k,
        &vec!['p', 'e', 'r', 's', 'i', 's', 't', 'e', 'd', 'g', 'u', 'i', 'd'],
    ) {
        d.persisted_guid = value;
    } else if same_chars(
        &k,
        &vec!['s', 't', 'u', 'b', 'i', 'n', 's', 't', 'a', 'n', 'c', 'e', 'i', 'd'],
    ) {
        d.stub_instance_id = value;
    } else if same_chars(
        &k,
        &vec!['c', 'l', 'i', 'e', 'n', 't', 'i', 'p', 'a', 'd', 'd', 'r', 'e', 's', 's'],
    ) {
        d.client_ip_address = value;
    } else if same_chars(&k, &vec!['i', 's', 'b', 'o', 'u', 'n', 'd']) {
        d.is_bound = parse_bool(value.as_str());
    } else if same_chars(&k, &vec!['i', 's', 'c', 'o', 'n', 'n', 'e', 'c', 't', 'e', 'd']) {
        d.is_connected = parse_bool(value.as_str());
    } else if same_chars(&k, &vec!['i', 's', 'a', 't', 't', 'a', 'c', 'h', 'e', 'd']) {
        d.is_attached = parse_bool(value.as_str());
    }
}

/// A wrapped description line joins the description with one space.
pub open spec fn continued(desc: Seq<char>, line: Seq<char>) -> Seq<char> {
    if desc.len() > 0 && desc.last() != ' ' {
        desc + seq![' '] + line
    } else {
        desc + line
    }
}

/// The finished device is kept when its hardware id is not blank.
pub open spec fn flushed(devs: Seq<DeviceView>, cur: Option<DeviceView>) -> Seq<DeviceView> {
    match cur {
        Some(d) => if !all_space(d.hardware_id) {
            devs.push(d)
        } else {
            devs
        },
        None => devs,
    }
}

/// One line of the text blocks: a blank line ends the current device, an
/// `InstanceId : ...` line starts a new one, other `Key : Value` lines set a
/// property and lines without a colon continue the description.
pub open spec fn block_step(st: (Seq<DeviceView>, Option<DeviceView>), raw: Seq<char>) -> (
    Seq<DeviceView>,
    Option<DeviceView>,
) {
    if all_space(raw) {
        (flushed(st.0, st.1), None)
    } else {
        let line = trim(raw);
        match first_match(line, seq![':']) {
            Some(k) => {
                let key = trim(line.take(k));
                let value = trim(line.subrange(k + 1, line.len() as int));
                if lower(key) == key_instance_id() {
                    (flushed(st.0, st.1), Some(DeviceView { instance_id: value, ..empty_device() }))
                } else {
                    (
                        st.0,
                        match st.1 {
                            Some(d) => Some(with_property(d, key, value)),
                            None => None,
                        },
                    )
                }
            },
            None => (
                st.0,
                match st.1 {
                    Some(d) => Some(DeviceView { description: continued(d.description, line), ..d }),
                    None => None,
                },
            ),
        }
    }
}

pub open spec fn block_fold(lines: Seq<Seq<char>>) -> (Seq<DeviceView>, Option<DeviceView>)
    decreases lines.len(),
{
    if lines.len() == 0 {
        (Seq::empty(), None)
    } else {
        block_step(block_fold(lines.drop_last()), lines.last())
    }
}

/// The devices described by `Get-UsbipdDevice` text blocks.
pub open spec fn device_list_of(text: Seq<char>) -> Seq<DeviceView> {
    let st = block_fold(text_lines(text));
    flushed(st.0, st.1)
}

pub open spec fn opt_device(o: Option<UsbDevice>) -> Option<DeviceView> {
    match o {
        Some(d) => Some(d@),
        None => None,
    }
}

fn flush_into(devices: &mut Vec<UsbDevice>, cur: Option<UsbDevice>)
    ensures
        device_views(final(devices)@) == flushed(device_views(old(devices)@), opt_device(cur)),
{
    match cur {
        Some(d) => {
            let hw = chars_of(d.hardware_id.as_str());
            if !is_blank(&hw) {
                let ghost before = device_views(devices@);
                devices.push(d);
                assert(device_views(devices@) == before.push(d@));
            }
        },
        None => {},
    }
}

pub fn parse_device_list(text: &str) -> (r: Vec<UsbDevice>)
    ensures
        device_views(r@) == device_list_of(text@),
{
    let chars = chars_of(text);
    let lines = lines_of(&chars);
    let ghost ls = views(lines@);
    let mut devices: Vec<UsbDevice> = Vec::new();
    let mut cur: Option<UsbDevice> = None;
    let colon = vec![':'];
    let mut i: usize = 0;
    while i < lines.len()
        invariant
            i <= lines.len(),
            ls == views(lines@),
            ls == text_lines(text@),
            colon@ == seq![':'],
            (device_views(devices@), opt_device(cur)) == block_fold(ls.take(i as int)),
        decreases lines.len() - i,
    {
        assert(ls.take(i + 1).drop_last() == ls.take(i as int));
        assert(ls[i as int] == lines@[i as int]@);
        let raw = &lines[i];
        if is_blank(raw) {
            let c = cur;
            cur = None;
            flush_into(&mut devices, c);
        } else {
            let line = trim_chars(raw);
            proof {
                crate::text::lemma_first_match(line@, colon@);
            }
            assert(colon@.len() == 1);
            match find(&line, &colon) {
                Some(k) => {
                    assert(first_match(line@, colon@) == Some(k as int));
                    assert(crate::text::matches_at(line@, colon@, k as int));
                    let key_part = slice_of(&line, 0, k);
                    let key = trim_chars(&key_part);
                    let n = line.len();
                    let value_part = slice_of(&line, k + 1, n);
                    let value = trim_chars(&value_part);
                    let lk = lower_chars(&key);
                    assert(key_part@ == line@.take(k as int));
                    if same_chars(&lk, &vec!['i', 'n', 's', 't', 'a', 'n', 'c', 'e', 'i', 'd']) {
                        let c = cur;
                        flush_into(&mut devices, c);
                        let mut d = UsbDevice::default();
                        d.instance_id = string_from(&value);
                        cur = Some(d);
                    } else {
                        match cur {
                            Some(mut d) => {
                                let ks = string_from(&key);
                                apply_property(&mut d, ks.as_str(), string_from(&value));
                                cur = Some(d);
                            },
                            None => {
                                cur = None;
                            },
                        }
                    }
                },
                None => {
                    match cur {
                        Some(mut d) => {
                            let desc = chars_of(d.description.as_str());
                            let mut nd = desc;
                            if nd.len() > 0 && nd[nd.len() - 1] != ' ' {
                                nd.push(' ');
                            }
                            push_all(&mut nd, &line);
                            assert(nd@ == continued(desc@, line@));
                            d.description = string_from(&nd);
                            cur = Some(d);
                        },
                        None => {
                            cur = None;
                        },
                    }
                },
            }
        }
        i += 1;
    }
    assert(ls.take(lines.len() as int) == ls);
    flush_into(&mut devices, cur);
    devices
}


// ---------------------------------------------------------------------------
// Attach errors
// ---------------------------------------------------------------------------

/// Errors after which an attach is retried: the device is busy, used by
/// Windows or not found yet (compared without ASCII case).
pub open spec fn transient_error(stderr: Seq<char>) -> bool {
    let s = lower(stderr);
    has_sub(s, "device busy"@) || has_sub(s, "used by windows"@) || has_sub(
        s,
        "device not found"@,
    ) || has_sub(s, "not found"@)
}

/// usbipd says the device is already attached to a client.
pub open spec fn already_attached_error(stderr: Seq<char>) -> bool {
    has_sub(lower(stderr), "already attached"@)
}

fn contains_str(hay: &[char], pat: &str) -> (r: bool)
    ensures
        r == has_sub(hay@, pat@),
{
    let p = chars_of(pat);
    contains(hay, &p)
}

pub fn is_transient_attach_error(stderr: &str) -> (r: bool)
    ensures
        r == transient_error(stderr@),
{
    let c = chars_of(stderr);
    let s = lower_chars(&c);
    contains_str(&s, "device busy") || contains_str(&s, "used by windows") || contains_str(
        &s,
        "device not found",
    ) || contains_str(&s, "not found")
}

pub fn is_already_attached_error(stderr: &str) -> (r: bool)
    ensures
        r == already_attached_error(stderr@),
{
    let c = chars_of(stderr);
    let s = lower_chars(&c);
    contains_str(&s, "already attached")
}

/// In Chinese, the three well-known attach failures are replaced by their
/// translation; anything else is shown as usbipd wrote it.
pub open spec fn translated_attach_error(raw: Seq<char>, zh: bool) -> Seq<char> {
    if zh && has_sub(raw, "A firewall appears to be blocking the connection"@) {
        msg_text(Msg::FirewallBlocked, true)
    } else if zh && has_sub(raw, "There is no WSL 2 distribution running"@) {
        msg_text(Msg::NoWslRunning, true)
    } else if zh && has_sub(raw, "The device appears to be used by Windows"@) {
        msg_text(Msg::DeviceUsedByWindows, true)
    } else {
        raw
    }
}

pub fn translate_attach_error(raw: &str, zh: bool) -> (r: String)
    ensures
        r@ == translated_attach_error(raw@, zh),
{
    if zh {
        let c = chars_of(raw);
        if contains_str(&c, "A firewall appears to be blocking the connection") {
            return t(Msg::FirewallBlocked, true);
        }
        if contains_str(&c, "There is no WSL 2 distribution running") {
            return t(Msg::NoWslRunning, true);
        }
        if contains_str(&c, "The device appears to be used by Windows") {
            return t(Msg::DeviceUsedByWindows, true);
        }
    }
    raw.to_owned()
}

// ---------------------------------------------------------------------------
// Looking devices up
// ---------------------------------------------------------------------------

/// The id usbipd is given for a device: its bus id or its hardware id.
pub open spec fn id_spec(d: DeviceView, use_bus_id: bool) -> Seq<char> {
    if use_bus_id {
        d.bus_id
    } else {
        d.hardware_id
    }
}

pub fn id_of(dev: &UsbDevice, use_bus_id: bool) -> (r: String)
    ensures
        r@ == id_spec(dev@, use_bus_id),
{
    if use_bus_id {
        dev.bus_id.clone()
    } else {
        dev.hardware_id.clone()
    }
}

/// The first index at or after `i` whose hardware id equals `hw` up to case.
pub open spec fn first_with_id_from(list: Seq<DeviceView>, hw: Seq<char>, i: int) -> Option<int>
    decreases list.len() - i,
{
    if i < 0 || i >= list.len() {
        None
    } else if eq_ignore_case(list[i].hardware_id, hw) {
        Some(i)
    } else {
        first_with_id_from(list, hw, i + 1)
    }
}

pub open spec fn first_with_id(list: Seq<DeviceView>, hw: Seq<char>) -> Option<int> {
    first_with_id_from(list, hw, 0)
}

pub proof fn lemma_first_with_id_from(list: Seq<DeviceView>, hw: Seq<char>, i: int)
    requires
        0 <= i,
    ensures
        first_with_id_from(list, hw, i) matches Some(k) ==> i <= k < list.len() && eq_ignore_case(
            list[k].hardware_id,
            hw,
        ) && forall|j: int| i <= j < k ==> !eq_ignore_case(#[trigger] list[j].hardware_id, hw),
        first_with_id_from(list, hw, i) is None ==> forall|j: int|
            i <= j < list.len() ==> !eq_ignore_case(#[trigger] list[j].hardware_id, hw),
    decreases list.len() - i,
{
    if i < list.len() && !eq_ignore_case(list[i].hardware_id, hw) {
        lemma_first_with_id_from(list, hw, i + 1);
    }
}

/// What `first_with_id` means: the least index with that hardware id.
pub proof fn lemma_first_with_id(list: Seq<DeviceView>, hw: Seq<char>)
    ensures
        first_with_id(list, hw) matches Some(k) ==> 0 <= k < list.len() && eq_ignore_case(
            list[k].hardware_id,
            hw,
        ) && forall|j: int| 0 <= j < k ==> !eq_ignore_case(#[trigger] list[j].hardware_id, hw),
        first_with_id(list, hw) is None ==> forall|j: int|
            0 <= j < list.len() ==> !eq_ignore_case(#[trigger] list[j].hardware_id, hw),
{
    lemma_first_with_id_from(list, hw, 0);
}

/// The first device of `list` with hardware id `hardware_id` (ASCII case ignored).
pub fn find_device<'a>(list: &'a [UsbDevice], hardware_id: &str) -> (r: Option<&'a UsbDevice>)
    ensures
        r matches Some(d) ==> (first_with_id(device_views(list@), hardware_id@) matches Some(k)
            && 0 <= k < list@.len() && d@ == list@[k]@),
        r is None ==> first_with_id(device_views(list@), hardware_id@) is None,
{
    let hw = chars_of(hardware_id);
    let ghost l = device_views(list@);
    proof {
        lemma_first_with_id(l, hardware_id@);
    }
    let mut i: usize = 0;
    while i < list.len()
        invariant
            i <= list.len(),
            l == device_views(list@),
            hw@ == hardware_id@,
            first_with_id(l, hardware_id@) == first_with_id_from(l, hardware_id@, i as int),
        decreases list.len() - i,
    {
        let h = chars_of(list[i].hardware_id.as_str());
        if eq_ignore_ascii_case(&h, &hw) {
            return Some(&list[i]);
        }
        i += 1;
    }
    None
}

/// Some listed device is attached and has instance id `iid` (when `iid` is
/// not empty) or hardware id `hw` (when `hw` is not empty), ASCII case ignored.
pub open spec fn attached_in(list: Seq<DeviceView>, hw: Seq<char>, iid: Seq<char>) -> bool {
    exists|i: int|
        0 <= i < list.len() && #[trigger] list[i].is_attached && ((iid.len() > 0
            && eq_ignore_case(list[i].instance_id, iid)) || (hw.len() > 0 && eq_ignore_case(
            list[i].hardware_id,
            hw,
        )))
}

pub fn is_attached_in(list: &[UsbDevice], hardware_id: &str, instance_id: &str) -> (r: bool)
    ensures
        r == attached_in(device_views(list@), hardware_id@, instance_id@),
{
    let hw = chars_of(hardware_id);
    let iid = chars_of(instance_id);
    let ghost l = device_views(list@);
    let mut i: usize = 0;
    while i < list.len()
        invariant
            i <= list.len(),
            l == device_views(list@),
            hw@ == hardware_id@,
            iid@ == instance_id@,
            forall|j: int|
                0 <= j < i ==> !(#[trigger] l[j].is_attached && ((iid@.len() > 0 && eq_ignore_case(
                    l[j].instance_id,
                    iid@,
                )) || (hw@.len() > 0 && eq_ignore_case(l[j].hardware_id, hw@)))),
        decreases list.len() - i,
    {
        let d = &list[i];
        assert(l[i as int] == d@);
        if d.is_attached {
            if iid.len() > 0 {
                let x = chars_of(d.instance_id.as_str());
                if eq_ignore_ascii_case(&x, &iid) {
                    assert(l[i as int].is_attached && eq_ignore_case(l[i as int].instance_id, iid@));
                    return true;
                }
            }
            if hw.len() > 0 {
                let y = chars_of(d.hardware_id.as_str());
                if eq_ignore_ascii_case(&y, &hw) {
                    assert(l[i as int].is_attached && eq_ignore_case(l[i as int].hardware_id, hw@));
                    return true;
                }
            }
        }
        i += 1;
    }
    false
}


// ---------------------------------------------------------------------------
// Numbers as text
// ---------------------------------------------------------------------------

/// Decimal digits of `n`, without leading zeros (`"0"` for zero).
pub open spec fn decimal(n: nat) -> Seq<char>
    decreases n,
{
    if n < 10 {
        seq![(('0' as int) + n) as char]
    } else {
        decimal(n / 10).push((('0' as int) + (n % 10)) as char)
    }
}

/// The decimal digits of `n`.
pub fn u64_digits(n: u64) -> (r: Vec<char>)
    ensures
        r@ == decimal(n as nat),
{
    let mut digits: Vec<char> = Vec::new();
    let mut m: u64 = n;
    // digits are produced least significant first, then reversed
    let mut rev: Vec<char> = Vec::new();
    loop
        invariant_except_break
            decimal(n as nat) == decimal(m as nat) + rev@.reverse(),
        ensures
            decimal(n as nat) == rev@.reverse(),
        decreases m,
    {
        let d: u64 = m % 10;
        let c: char = (((d as u8) + 48u8) as char);
        assert(c == (('0' as int) + (m % 10)) as char);
        if m < 10 {
            assert(decimal(m as nat) == seq![c]);
            rev.push(c);
            assert(rev@.reverse() == seq![c] + rev@.drop_last().reverse());
            break;
        }
        assert(decimal(m as nat) == decimal((m / 10) as nat).push(c));
        rev.push(c);
        assert(rev@.reverse() == seq![c] + rev@.drop_last().reverse());
        assert(decimal((m / 10) as nat) + rev@.reverse() == decimal(m as nat) + rev@.drop_last().reverse());
        m = m / 10;
    }
    let mut i: usize = rev.len();
    while i > 0
        invariant
            i <= rev.len(),
            digits@ == rev@.subrange(i as int, rev@.len() as int).reverse(),
        decreases i,
    {
        i -= 1;
        digits.push(rev[i]);
        assert(rev@.subrange(i as int, rev@.len() as int).reverse() == rev@.subrange(
            i + 1,
            rev@.len() as int,
        ).reverse().push(rev@[i as int]));
    }
    assert(rev@.subrange(0, rev@.len() as int) == rev@);
    assert(decimal(n as nat) == rev@.reverse());
    digits
}

/// `n.to_string()`.
pub fn u32_text(n: u32) -> (r: String)
    ensures
        r@ == decimal(n as nat),
{
    let d = u64_digits(n as u64);
    string_from(&d)
}


// ---------------------------------------------------------------------------
// The usbipd client
// ---------------------------------------------------------------------------

pub const USBIPD_MIN_MAJOR: u32 = 4;

pub const USBIPD_MIN_MINOR: u32 = 4;

/// A usbipd-win installation that passed [`Usbipd::check`].
pub struct Usbipd {
    pub exe: String,
    pub version: String,
    pub install_dir: String,
}

pub ghost struct UsbipdView {
    pub exe: Seq<char>,
    pub version: Seq<char>,
    pub install_dir: Seq<char>,
}

impl View for Usbipd {
    type V = UsbipdView;

    open spec fn view(&self) -> UsbipdView {
        UsbipdView { exe: self.exe@, version: self.version@, install_dir: self.install_dir@ }
    }
}

/// One run of `usbipd.exe` to perform: its arguments, whether it needs the
/// administrator prompt, and how long to wait for it.
pub struct Invocation {
    pub exe: String,
    pub args: Vec<String>,
    pub privileged: bool,
    pub timeout_ms: u64,
}

pub ghost struct InvocationView {
    pub exe: Seq<char>,
    pub args: Seq<Seq<char>>,
    pub privileged: bool,
    pub timeout_ms: u64,
}

impl View for Invocation {
    type V = InvocationView;

    open spec fn view(&self) -> InvocationView {
        InvocationView {
            exe: self.exe@,
            args: string_views(self.args@),
            privileged: self.privileged,
            timeout_ms: self.timeout_ms,
        }
    }
}

/// What came back from launching usbipd.
pub enum RunOutcome {
    /// An elevated launch: the exit code, `None` when the prompt was declined,
    /// or why the launch failed.
    Elevated(Result<Option<u32>, String>),
    /// A plain launch: the captured output, or why the launch failed.
    Plain(Result<CmdOutput, String>),
}

/// The installation details read from the system for [`Usbipd::check`].
pub struct InstallProbe {
    /// The Uninstall registry entry of usbipd-win, if any.
    pub info: Option<AppInfo>,
    /// Whether [`install_dir_of`] names an existing folder.
    pub dir_exists: bool,
    /// Whether [`exe_path_of`] names an existing file.
    pub exe_exists: bool,
    /// What `usbipd.exe --version` printed, when it was asked (see
    /// [`needs_version_query`]) and ran.
    pub version_output: Option<String>,
}

/// `dir` joined with a relative name by the Windows rule of `Path::join`:
/// nothing is added after an empty folder, a bare drive (`C:`) or a folder
/// that already ends in a separator, a backslash otherwise.
pub open spec fn joined_path(dir: Seq<char>, name: Seq<char>) -> Seq<char> {
    if dir.len() == 0 {
        name
    } else if dir.last() == '\\' || dir.last() == '/' || (dir.len() == 2 && is_ascii_letter(
        dir[0],
    ) && dir[1] == ':') {
        dir + name
    } else {
        dir + seq!['\\'] + name
    }
}

/// `dir` joined with the relative name `name` (see [`joined_path`]).
pub fn join_path(dir: &str, name: &str) -> (r: String)
    ensures
        r@ == joined_path(dir@, name@),
{
    let d = chars_of(dir);
    let n = chars_of(name);
    if d.len() == 0 {
        return string_from(&n);
    }
    let mut out = d;
    let last = out[out.len() - 1];
    let bare_drive = out.len() == 2 && (('a' <= out[0] && out[0] <= 'z') || ('A' <= out[0]
        && out[0] <= 'Z')) && out[1] == ':';
    if last != '\\' && last != '/' && !bare_drive {
        out.push('\\');
    }
    push_all(&mut out, &n);
    string_from(&out)
}

pub open spec fn is_ascii_letter(c: char) -> bool {
    ('a' <= c && c <= 'z') || ('A' <= c && c <= 'Z')
}

/// A folder on a local drive: `X:\...`.
pub open spec fn local_path(p: Seq<char>) -> bool {
    p.len() >= 3 && is_ascii_letter(p[0]) && p[1] == ':' && p[2] == '\\'
}

pub fn install_dir_of(info: &AppInfo) -> (r: String)
    ensures
        r@ == trim(info.install_location@),
{
    let c = chars_of(info.install_location.as_str());
    let t = trim_chars(&c);
    string_from(&t)
}

pub fn exe_path_of(install_dir: &str) -> (r: String)
    ensures
        r@ == joined_path(install_dir@, "usbipd.exe"@),
{
    join_path(install_dir, "usbipd.exe")
}

/// The registry gave no version, so `usbipd --version` has to be asked.
pub open spec fn version_query_needed(info: AppInfo) -> bool {
    all_space(info.display_version@)
}

pub fn needs_version_query(info: &AppInfo) -> (r: bool)
    ensures
        r == version_query_needed(*info),
{
    let c = chars_of(info.display_version.as_str());
    is_blank(&c)
}

/// The version text [`Usbipd::check`] reads.
pub open spec fn probed_version(p: InstallProbe) -> Seq<char> {
    match p.info {
        Some(info) => if version_query_needed(info) {
            match p.version_output {
                Some(o) => trim(o@),
                None => trim(info.display_version@),
            }
        } else {
            trim(info.display_version@)
        },
        None => Seq::empty(),
    }
}

/// What [`Usbipd::check`] decides.
pub open spec fn check_outcome(p: InstallProbe, zh: bool) -> Result<
    (Seq<char>, Seq<char>, Seq<char>, Option<Seq<char>>),
    Seq<char>,
> {
    match p.info {
        None => Err(msg_text(Msg::UsbipdNotInstalled, zh)),
        Some(info) => if !p.dir_exists || !p.exe_exists {
            Err(msg_text(Msg::UsbipdNotInstalled, zh))
        } else {
            let v = probed_version(p);
            match version_of(v) {
                None => Err("Failed to parse usbipd version: "@ + v),
                Some((major, minor)) => if major < USBIPD_MIN_MAJOR || (major == USBIPD_MIN_MAJOR
                    && minor < USBIPD_MIN_MINOR) {
                    Err(msg_text(Msg::UsbipdLowVersion, zh))
                } else {
                    let dir = trim(info.install_location@);
                    Ok(
                        (
                            joined_path(dir, "usbipd.exe"@),
                            decimal(major as nat) + seq!['.'] + decimal(minor as nat),
                            dir,
                            if local_path(dir) {
                                None
                            } else {
                                Some(msg_text(Msg::UsbipdRemoteDisk, zh))
                            },
                        ),
                    )
                },
            }
        },
    }
}

/// usbipd-win is accepted only from version 4.4 on: a passed check read a
/// version `major.minor` of at least (4, 4) in lexicographic order, and
/// reports it as `major.minor`; an installed usbipd-win whose version reads
/// below that is refused as too old.
pub proof fn law_check_needs_4_4(p: InstallProbe, zh: bool)
    ensures
        check_outcome(p, zh) matches Ok((_, ver, _, _)) ==> (version_of(probed_version(p)) matches Some(
            (major, minor),
        ) && (major > 4 || (major == 4 && minor >= 4)) && ver == decimal(major as nat) + seq!['.']
            + decimal(minor as nat)),
        (p.info is Some && p.dir_exists && p.exe_exists) ==> ((version_of(probed_version(p)) matches Some(
            (major, minor),
        ) && (major < 4 || (major == 4 && minor < 4))) ==> check_outcome(p, zh) == Err::<
            (Seq<char>, Seq<char>, Seq<char>, Option<Seq<char>>),
            Seq<char>,
        >(msg_text(Msg::UsbipdLowVersion, zh))),
{
}

/// The class of an elevated run's exit code; every code above 255 (negative
/// ones included when read as signed) is unknown.
pub open spec fn elevated_code(code: u32) -> ErrCode {
    if code <= 255 {
        err_code_of_exit(code as i32)
    } else {
        ErrCode::UnknownError
    }
}

pub open spec fn id_flag(use_bus_id: bool) -> Seq<char> {
    if use_bus_id {
        "--busid"@
    } else {
        "--hardware-id"@
    }
}

pub open spec fn bind_args(id: Seq<char>, use_bus_id: bool, force: bool) -> Seq<Seq<char>> {
    let a = seq!["bind"@, id_flag(use_bus_id), id];
    if force {
        a.push("--force"@)
    } else {
        a
    }
}

pub open spec fn attach_args(id: Seq<char>, use_bus_id: bool, host_ip: Option<Seq<char>>) -> Seq<
    Seq<char>,
> {
    let a = seq!["attach"@, id_flag(use_bus_id), id, "--wsl"@];
    match host_ip {
        Some(ip) => a.push("--host-ip"@).push(ip),
        None => a,
    }
}

fn flag_text(use_bus_id: bool) -> (r: String)
    ensures
        r@ == id_flag(use_bus_id),
{
    if use_bus_id {
        "--busid".to_owned()
    } else {
        "--hardware-id".to_owned()
    }
}

fn push_word(v: &mut Vec<String>, w: String)
    ensures
        string_views(final(v)@) == string_views(old(v)@).push(w@),
{
    v.push(w);
    assert(string_views(v@) =~= string_views(old(v)@).push(w@));
}

impl Usbipd {
    pub fn duplicate(&self) -> (r: Usbipd)
        ensures
            r@ == self@,
    {
        Usbipd {
            exe: self.exe.clone(),
            version: self.version.clone(),
            install_dir: self.install_dir.clone(),
        }
    }

    /// Decide whether a usbipd-win installation is usable: it must be
    /// registered, its folder and `usbipd.exe` must exist and its version must
    /// be at least 4.4 (major.minor). A folder off the local disks gives a
    /// warning.
    pub fn check(probe: &InstallProbe, zh: bool) -> (r: Result<(Usbipd, Option<String>), String>)
        ensures
            match (r, check_outcome(*probe, zh)) {
                (Ok((u, w)), Ok((exe, ver, dir, warn))) => u.exe@ == exe && u.version@ == ver
                    && u.install_dir@ == dir && match (w, warn) {
                    (Some(a), Some(b)) => a@ == b,
                    (None, None) => true,
                    _ => false,
                },
                (Err(e), Err(m)) => e@ == m,
                _ => false,
            },
    {
        let info = match &probe.info {
            None => {
                return Err(t(Msg::UsbipdNotInstalled, zh));
            },
            Some(i) => i,
        };
        if !probe.dir_exists || !probe.exe_exists {
            return Err(t(Msg::UsbipdNotInstalled, zh));
        }
        let dv = chars_of(info.display_version.as_str());
        let mut version = trim_chars(&dv);
        if needs_version_query(info) {
            match &probe.version_output {
                Some(o) => {
                    let oc = chars_of(o.as_str());
                    version = trim_chars(&oc);
                },
                None => {},
            }
        }
        let vs = string_from(&version);
        let (major, minor) = match parse_version(vs.as_str()) {
            Some(p) => p,
            None => {
                let mut m = chars_of("Failed to parse usbipd version: ");
                push_all(&mut m, &version);
                return Err(string_from(&m));
            },
        };
        if major < USBIPD_MIN_MAJOR || (major == USBIPD_MIN_MAJOR && minor < USBIPD_MIN_MINOR) {
            return Err(t(Msg::UsbipdLowVersion, zh));
        }
        let install_dir = install_dir_of(info);
        let exe = exe_path_of(install_dir.as_str());
        let loc = chars_of(install_dir.as_str());
        let is_local = loc.len() >= 3 && (('a' <= loc[0] && loc[0] <= 'z') || ('A' <= loc[0]
            && loc[0] <= 'Z')) && loc[1] == ':' && loc[2] == '\\';
        let warning = if !is_local {
            Some(t(Msg::UsbipdRemoteDisk, zh))
        } else {
            None
        };
        let mut ver = chars_of(u32_text(major).as_str());
        ver.push('.');
        let mn = chars_of(u32_text(minor).as_str());
        push_all(&mut ver, &mn);
        Ok((Usbipd { exe, version: string_from(&ver), install_dir }, warning))
    }

    /// The command line for `usbipd args...`.
    pub fn command(&self, args: Vec<String>, privileged: bool) -> (r: Invocation)
        ensures
            r@ == (InvocationView {
                exe: self.exe@,
                args: string_views(args@),
                privileged,
                timeout_ms: 10_000,
            }),
    {
        Invocation { exe: self.exe.clone(), args, privileged, timeout_ms: 10_000 }
    }

    /// What a finished run of usbipd means: an elevated run only yields its
    /// exit code (a declined prompt is an error); a plain run also yields its
    /// cleaned output, and a run killed on timeout has code `Timeout`.
    pub fn run(&self, outcome: RunOutcome, zh: bool) -> (r: Result<CmdOut, String>)
        ensures
            outcome matches RunOutcome::Elevated(Ok(Some(code))) ==> r matches Ok(o) && o.code
                == elevated_code(code) && o.stdout@.len() == 0 && o.stderr@.len() == 0,
            outcome matches RunOutcome::Elevated(Ok(None)) ==> r matches Err(e) && e@ == msg_text(
                Msg::CanceledByUser,
                zh,
            ),
            outcome matches RunOutcome::Elevated(Err(e)) ==> r matches Err(x) && x@ == e@,
            outcome matches RunOutcome::Plain(Err(e)) ==> r matches Err(x) && x@ == e@,
            outcome matches RunOutcome::Plain(Ok(out)) ==> r matches Ok(o) && o.code == match out.exit_code {
                Some(c) => err_code_of_exit(c),
                None => ErrCode::Timeout,
            } && (o.stdout@, o.stderr@) == stripped(out.stdout@ + newline() + out.stderr@),
    {
        match outcome {
            RunOutcome::Elevated(Ok(Some(code))) => {
                let k = if code <= 255 {
                    exit_code_to_err_code(code as i32)
                } else {
                    ErrCode::UnknownError
                };
                Ok(CmdOut { code: k, stdout: String::new(), stderr: String::new() })
            },
            RunOutcome::Elevated(Ok(None)) => Err(t(Msg::CanceledByUser, zh)),
            RunOutcome::Elevated(Err(e)) => Err(e),
            RunOutcome::Plain(Err(e)) => Err(e),
            RunOutcome::Plain(Ok(out)) => {
                let code = match out.exit_code {
                    Some(c) => exit_code_to_err_code(c),
                    None => ErrCode::Timeout,
                };
                let mut all = chars_of(out.stdout.as_str());
                all.push('\n');
                let e = chars_of(out.stderr.as_str());
                push_all(&mut all, &e);
                assert(all@ == out.stdout@ + newline() + out.stderr@);
                let text = string_from(&all);
                let (stdout, stderr) = strip_prefixes(text.as_str());
                Ok(CmdOut { code, stdout, stderr })
            },
        }
    }

    /// `usbipd state`, run without elevation with an 8 s timeout.
    pub fn state_command(&self) -> (r: Invocation)
        ensures
            r@ == (InvocationView {
                exe: self.exe@,
                args: seq!["state"@],
                privileged: false,
                timeout_ms: 8_000,
            }),
    {
        let mut args: Vec<String> = Vec::new();
        push_word(&mut args, "state".to_owned());
        assert(string_views(args@) =~= seq!["state"@]);
        Invocation { exe: self.exe.clone(), args, privileged: false, timeout_ms: 8_000 }
    }

    /// What a run of `usbipd state` means: a timeout or a non-zero exit is an
    /// error (with stderr, or stdout when stderr is blank); blank output means
    /// no devices; anything else is the JSON document to read.
    pub fn list_devices(&self, out: Result<CmdOutput, String>) -> (r: Result<Option<String>, String>)
        ensures
            match out {
                Err(e) => r matches Err(x) && x@ == e@,
                Ok(o) => if o.timed_out {
                    r matches Err(x) && x@ == "Failed to fetch USB device list: usbipd state timed out."@
                } else if o.exit_code != Some(0i32) {
                    r matches Err(x) && x@ == "Failed to fetch USB device list: "@ + if all_space(
                        o.stderr@,
                    ) {
                        trim(o.stdout@)
                    } else {
                        trim(o.stderr@)
                    }
                } else if all_space(o.stdout@) {
                    r matches Ok(None)
                } else {
                    r matches Ok(Some(j)) && j@ == o.stdout@
                },
            },
    {
        let o = match out {
            Err(e) => {
                return Err(e);
            },
            Ok(o) => o,
        };
        if o.timed_out {
            return Err("Failed to fetch USB device list: usbipd state timed out.".to_owned());
        }
        if o.exit_code != Some(0i32) {
            let ec = chars_of(o.stderr.as_str());
            let detail = if is_blank(&ec) {
                let oc = chars_of(o.stdout.as_str());
                trim_chars(&oc)
            } else {
                trim_chars(&ec)
            };
            let mut m = chars_of("Failed to fetch USB device list: ");
            push_all(&mut m, &detail);
            return Err(string_from(&m));
        }
        let sc = chars_of(o.stdout.as_str());
        if is_blank(&sc) {
            return Ok(None);
        }
        Ok(Some(o.stdout))
    }

    /// `usbipd bind --busid|--hardware-id <id> [--force]`, elevated.
    pub fn bind(&self, id: &str, use_bus_id: bool, force: bool) -> (r: Invocation)
        ensures
            r@ == (InvocationView {
                exe: self.exe@,
                args: bind_args(id@, use_bus_id, force),
                privileged: true,
                timeout_ms: 10_000,
            }),
    {
        let mut args: Vec<String> = Vec::new();
        push_word(&mut args, "bind".to_owned());
        push_word(&mut args, flag_text(use_bus_id));
        push_word(&mut args, id.to_owned());
        if force {
            push_word(&mut args, "--force".to_owned());
        }
        assert(string_views(args@) =~= bind_args(id@, use_bus_id, force));
        self.command(args, true)
    }

    /// `usbipd unbind --busid|--hardware-id <id>`, elevated.
    pub fn unbind(&self, id: &str, use_bus_id: bool) -> (r: Invocation)
        ensures
            r@ == (InvocationView {
                exe: self.exe@,
                args: seq!["unbind"@, id_flag(use_bus_id), id@],
                privileged: true,
                timeout_ms: 10_000,
            }),
    {
        let mut args: Vec<String> = Vec::new();
        push_word(&mut args, "unbind".to_owned());
        push_word(&mut args, flag_text(use_bus_id));
        push_word(&mut args, id.to_owned());
        assert(string_views(args@) =~= seq!["unbind"@, id_flag(use_bus_id), id@]);
        self.command(args, true)
    }

    /// `usbipd attach --busid|--hardware-id <id> --wsl [--host-ip <ip>]`.
    pub fn attach(&self, id: &str, use_bus_id: bool, host_ip: Option<&str>) -> (r: Invocation)
        ensures
            r@ == (InvocationView {
                exe: self.exe@,
                args: attach_args(
                    id@,
                    use_bus_id,
                    match host_ip {
                        Some(ip) => Some(ip@),
                        None => None,
                    },
                ),
                privileged: false,
                timeout_ms: 10_000,
            }),
    {
        let mut args: Vec<String> = Vec::new();
        push_word(&mut args, "attach".to_owned());
        push_word(&mut args, flag_text(use_bus_id));
        push_word(&mut args, id.to_owned());
        push_word(&mut args, "--wsl".to_owned());
        match host_ip {
            Some(ip) => {
                push_word(&mut args, "--host-ip".to_owned());
                push_word(&mut args, ip.to_owned());
            },
            None => {},
        }
        assert(string_views(args@) =~= attach_args(
            id@,
            use_bus_id,
            match host_ip {
                Some(ip) => Some(ip@),
                None => None,
            },
        ));
        self.command(args, false)
    }

    /// `usbipd detach --busid|--hardware-id <id>`.
    pub fn detach(&self, id: &str, use_bus_id: bool) -> (r: Invocation)
        ensures
            r@ == (InvocationView {
                exe: self.exe@,
                args: seq!["detach"@, id_flag(use_bus_id), id@],
                privileged: false,
                timeout_ms: 10_000,
            }),
    {
        let mut args: Vec<String> = Vec::new();
        push_word(&mut args, "detach".to_owned());
        push_word(&mut args, flag_text(use_bus_id));
        push_word(&mut args, id.to_owned());
        assert(string_views(args@) =~= seq!["detach"@, id_flag(use_bus_id), id@]);
        self.command(args, false)
    }
}

/// `usbipd detach --all`.
pub fn detach_all_command(usbipd: &Usbipd) -> (r: Invocation)
    ensures
        r@ == (InvocationView {
            exe: usbipd.exe@,
            args: seq!["detach"@, "--all"@],
            privileged: false,
            timeout_ms: 10_000,
        }),
{
    let mut args: Vec<String> = Vec::new();
    push_word(&mut args, "detach".to_owned());
    push_word(&mut args, "--all".to_owned());
    assert(string_views(args@) =~= seq!["detach"@, "--all"@]);
    usbipd.command(args, false)
}

/// `detach --all` succeeded, or its error text.
pub fn detach_all(out: Result<CmdOut, String>) -> (r: Result<(), String>)
    ensures
        match out {
            Err(e) => r matches Err(x) && x@ == e@,
            Ok(o) => if o.code == ErrCode::Success {
                r is Ok
            } else {
                r matches Err(x) && x@ == o.stderr@
            },
        },
{
    let o = out?;
    if o.code == ErrCode::Success {
        Ok(())
    } else {
        Err(o.stderr)
    }
}

} // verus!
