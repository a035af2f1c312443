//! Plain data exchanged with the operating system, and the text encodings the
//! Windows calls need.

use vstd::prelude::*;
use crate::text::{chars_of, concat, has_sub, lower_char, contains, string_from, to_lower_char, to_lowercase, unicode_lower};
use crate::usbipd::{decimal, u64_digits};
use crate::snapshot::{lex_le, lemma_lex_total, lemma_lex_trans, instance_le};

verus! {

/// What running a console process produced. `exit_code` is `None` when the
/// process was killed on timeout.
pub struct CmdOutput {
    pub exit_code: Option<i32>,
    pub stdout: String,
    pub stderr: String,
    pub timed_out: bool,
}

/// An entry of the Windows "Uninstall" registry keys.
pub struct AppInfo {
    pub display_name: String,
    pub install_location: String,
    pub display_version: String,
    pub publisher: String,
}

/// `arg` written for a Windows command line: kept as is when it is not empty
/// and holds no space, tab or quote; otherwise wrapped in quotes with inner
/// quotes escaped as `\"`.
pub open spec fn quoted(arg: Seq<char>) -> Seq<char> {
    if arg.len() > 0 && !arg.contains(' ') && !arg.contains('\t') && !arg.contains('"') {
        arg
    } else {
        seq!['"'] + escape_quotes(arg) + seq!['"']
    }
}

/// Every `"` replaced by `\"`.
pub open spec fn escape_quotes(s: Seq<char>) -> Seq<char>
    decreases s.len(),
{
    if s.len() == 0 {
        s
    } else if s.last() == '"' {
        escape_quotes(s.drop_last()) + seq!['\\', '"']
    } else {
        escape_quotes(s.drop_last()).push(s.last())
    }
}

pub fn quote_arg(arg: &str) -> (r: String)
    ensures
        r@ == quoted(arg@),
{
    let c = chars_of(arg);
    let mut plain = c.len() > 0;
    let mut i: usize = 0;
    while i < c.len()
        invariant
            i <= c.len(),
            plain == (c@.len() > 0 && forall|j: int|
                0 <= j < i ==> c@[j] != ' ' && c@[j] != '\t' && c@[j] != '"'),
        decreases c.len() - i,
    {
        if c[i] == ' ' || c[i] == '\t' || c[i] == '"' {
            plain = false;
        }
        i += 1;
    }
    if plain {
        assert(!c@.contains(' ') && !c@.contains('\t') && !c@.contains('"'));
        return arg.to_owned();
    }
    assert(c@.len() == 0 || c@.contains(' ') || c@.contains('\t') || c@.contains('"')) by {
        if c@.len() > 0 {
            let j = choose|j: int|
                0 <= j < c@.len() && !(c@[j] != ' ' && c@[j] != '\t' && c@[j] != '"');
            assert(c@[j] == ' ' || c@[j] == '\t' || c@[j] == '"');
        }
    }
    let mut out: Vec<char> = Vec::new();
    out.push('"');
    let mut k: usize = 0;
    while k < c.len()
        invariant
            k <= c.len(),
            out@ == seq!['"'] + escape_quotes(c@.take(k as int)),
        decreases c.len() - k,
    {
        assert(c@.take(k + 1).drop_last() == c@.take(k as int));
        if c[k] == '"' {
            out.push('\\');
            out.push('"');
        } else {
            out.push(c[k]);
        }
        k += 1;
    }
    assert(c@.take(c.len() as int) == c@);
    out.push('"');
    string_from(&out)
}

/// The parameter string of an elevated launch: the quoted arguments joined
/// by single spaces.
pub open spec fn joined_params(args: Seq<Seq<char>>) -> Seq<char>
    decreases args.len(),
{
    if args.len() == 0 {
        Seq::empty()
    } else if args.len() == 1 {
        quoted(args[0])
    } else {
        joined_params(args.drop_last()) + seq![' '] + quoted(args.last())
    }
}

pub open spec fn string_views(v: Seq<String>) -> Seq<Seq<char>> {
    v.map_values(|s: String| s@)
}

pub fn elevated_params(args: &Vec<String>) -> (r: String)
    ensures
        r@ == joined_params(string_views(args@)),
{
    let mut out: Vec<char> = Vec::new();
    let ghost a = string_views(args@);
    let mut i: usize = 0;
    while i < args.len()
        invariant
            i <= args.len(),
            a == string_views(args@),
            out@ == joined_params(a.take(i as int)),
        decreases args.len() - i,
    {
        assert(a.take(i + 1).drop_last() == a.take(i as int));
        assert(a.take(i + 1).last() == args@[i as int]@);
        let q = quote_arg(args[i].as_str());
        let qc = chars_of(q.as_str());
        if i > 0 {
            out.push(' ');
        } else {
            assert(a.take(1)[0] == a[0]);
        }
        let mut k: usize = 0;
        let ghost start = out@;
        while k < qc.len()
            invariant
                k <= qc.len(),
                out@ == start + qc@.take(k as int),
            decreases qc.len() - k,
        {
            out.push(qc[k]);
            assert(qc@.take(k + 1) == qc@.take(k as int).push(qc@[k as int]));
            assert(start + qc@.take(k + 1) == (start + qc@.take(k as int)).push(qc@[k as int]));
            k += 1;
        }
        assert(qc@.take(qc.len() as int) == qc@);
        if i == 0 {
            assert(out@ == qc@);
        }
        i += 1;
    }
    assert(a.take(args.len() as int) == a);
    string_from(&out)
}

// ---------------------------------------------------------------------------
// UTF-16
// ---------------------------------------------------------------------------

/// The UTF-16 code units of one character.
pub open spec fn utf16_of_char(c: char) -> Seq<u16> {
    let v = (c as u32) as int;
    if v < 0x10000 {
        seq![v as u16]
    } else {
        let w = v - 0x10000;
        seq![(0xD800 + w / 0x400) as u16, (0xDC00 + w % 0x400) as u16]
    }
}

/// The UTF-16 encoding of a text.
pub open spec fn utf16_of(s: Seq<char>) -> Seq<u16>
    decreases s.len(),
{
    if s.len() == 0 {
        Seq::empty()
    } else {
        utf16_of(s.drop_last()) + utf16_of_char(s.last())
    }
}

/// A NUL-terminated UTF-16 string, as the wide Windows APIs take it.
pub fn wide(s: &str) -> (r: Vec<u16>)
    ensures
        r@ == utf16_of(s@).push(0u16),
{
    let c = chars_of(s);
    let mut out: Vec<u16> = Vec::new();
    let mut i: usize = 0;
    while i < c.len()
        invariant
            i <= c.len(),
            out@ == utf16_of(c@.take(i as int)),
        decreases c.len() - i,
    {
        assert(c@.take(i + 1).drop_last() == c@.take(i as int));
        let ch = c[i];
        proof {
            vstd::utf8::char_is_scalar(ch);
        }
        let v: u32 = ch as u32;
        let ghost before = out@;
        if v < 0x10000 {
            out.push(v as u16);
            assert(out@ == before + utf16_of_char(ch));
        } else {
            let w: u32 = v - 0x10000;
            let hi: u16 = (0xD800 + w / 0x400) as u16;
            let lo: u16 = (0xDC00 + w % 0x400) as u16;
            out.push(hi);
            out.push(lo);
            assert(utf16_of_char(ch) == seq![hi, lo]);
            assert(out@ == before + utf16_of_char(ch));
        }
        i += 1;
    }
    assert(c@.take(c.len() as int) == c@);
    out.push(0u16);
    out
}

/// `to_wide`: the same encoding as [`wide`].
pub fn to_wide(s: &str) -> (r: Vec<u16>)
    ensures
        r@ == utf16_of(s@).push(0u16),
{
    wide(s)
}

// ---------------------------------------------------------------------------
// Reading what the system reports
// ---------------------------------------------------------------------------

/// A locale name for Chinese: it starts with `zh`, ASCII case ignored.
pub open spec fn chinese_locale(name: Seq<char>) -> bool {
    name.len() >= 2 && lower_char(name[0]) == 'z' && lower_char(name[1]) == 'h'
}

pub fn is_chinese_locale(name: &str) -> (r: bool)
    ensures
        r == chinese_locale(name@),
{
    let c = chars_of(name);
    c.len() >= 2 && to_lower_char(c[0]) == 'z' && to_lower_char(c[1]) == 'h'
}

/// An installed program's display name names what is looked for: it is
/// not empty and holds `needle`, both Unicode lower-cased.
pub open spec fn names_app(display_name: Seq<char>, needle: Seq<char>) -> bool {
    display_name.len() > 0 && has_sub(unicode_lower(display_name), unicode_lower(needle))
}

pub fn display_name_matches(display_name: &str, needle: &str) -> (r: bool)
    ensures
        r == names_app(display_name@, needle@),
{
    if display_name.is_empty() {
        return false;
    }
    let a = to_lowercase(display_name);
    let b = to_lowercase(needle);
    let x = chars_of(a.as_str());
    let y = chars_of(b.as_str());
    contains(&x, &y)
}

/// `a.b.c.d`.
pub open spec fn ipv4_of(a: u8, b: u8, c: u8, d: u8) -> Seq<char> {
    decimal(a as nat) + seq!['.'] + decimal(b as nat) + seq!['.'] + decimal(c as nat) + seq!['.']
        + decimal(d as nat)
}

/// An IPv4 address from its four bytes, most significant first.
pub fn ipv4_text(a: u8, b: u8, c: u8, d: u8) -> (r: String)
    ensures
        r@ == ipv4_of(a, b, c, d),
{
    let mut v = u64_digits(a as u64);
    v.push('.');
    let mut v = concat(&v, &u64_digits(b as u64));
    v.push('.');
    let mut v = concat(&v, &u64_digits(c as u64));
    v.push('.');
    let v = concat(&v, &u64_digits(d as u64));
    assert(v@ =~= ipv4_of(a, b, c, d));
    string_from(&v)
}

// ---------------------------------------------------------------------------
// Network cards in name order
// ---------------------------------------------------------------------------

pub open spec fn pair_views(v: Seq<(String, String)>) -> Seq<(Seq<char>, Seq<char>)> {
    v.map_values(|c: (String, String)| (c.0@, c.1@))
}

/// A card is ordered by its Unicode lower-cased name.
pub open spec fn card_key(c: (Seq<char>, Seq<char>)) -> Seq<char> {
    unicode_lower(c.0)
}

pub open spec fn sorted_by_name(s: Seq<(Seq<char>, Seq<char>)>) -> bool {
    forall|i: int, j: int| 0 <= i < j < s.len() ==> lex_le(card_key(#[trigger] s[i]), card_key(#[trigger] s[j]))
}

/// Where a stable insertion puts `x` into `t` from index `i` on.
pub open spec fn card_pos_from(t: Seq<(Seq<char>, Seq<char>)>, x: (Seq<char>, Seq<char>), i: int) -> int
    decreases t.len() - i,
{
    if i < 0 || i >= t.len() {
        t.len() as int
    } else if !lex_le(card_key(t[i]), card_key(x)) {
        i
    } else {
        card_pos_from(t, x, i + 1)
    }
}

proof fn lemma_card_pos_from(t: Seq<(Seq<char>, Seq<char>)>, x: (Seq<char>, Seq<char>), i: int)
    requires
        0 <= i <= t.len(),
    ensures
        i <= card_pos_from(t, x, i) <= t.len(),
        forall|q: int| i <= q < card_pos_from(t, x, i) ==> lex_le(card_key(#[trigger] t[q]), card_key(x)),
        card_pos_from(t, x, i) < t.len() ==> !lex_le(card_key(t[card_pos_from(t, x, i)]), card_key(x)),
    decreases t.len() - i,
{
    if i < t.len() && lex_le(card_key(t[i]), card_key(x)) {
        lemma_card_pos_from(t, x, i + 1);
    }
}

/// The cards sorted stably by lower-cased name, as `sort_by` on the
/// lower-cased names gives.
pub open spec fn by_card_name(s: Seq<(Seq<char>, Seq<char>)>) -> Seq<(Seq<char>, Seq<char>)>
    decreases s.len(),
{
    if s.len() == 0 {
        s
    } else {
        let t = by_card_name(s.drop_last());
        t.insert(card_pos_from(t, s.last(), 0), s.last())
    }
}

proof fn lemma_insert_card(s: Seq<(Seq<char>, Seq<char>)>, p: int, x: (Seq<char>, Seq<char>))
    requires
        sorted_by_name(s),
        0 <= p <= s.len(),
        forall|q: int| 0 <= q < p ==> lex_le(card_key(#[trigger] s[q]), card_key(x)),
        p < s.len() ==> !lex_le(card_key(s[p]), card_key(x)),
    ensures
        sorted_by_name(s.insert(p, x)),
{
    let t = s.insert(p, x);
    if p < s.len() {
        lemma_lex_total(card_key(s[p]), card_key(x));
    }
    assert forall|i: int, j: int| 0 <= i < j < t.len() implies lex_le(
        card_key(#[trigger] t[i]),
        card_key(#[trigger] t[j]),
    ) by {
        if j == p {
            assert(t[i] == s[i]);
        } else if i == p {
            assert(t[j] == s[j - 1]);
            if j - 1 > p {
                lemma_lex_trans(card_key(x), card_key(s[p]), card_key(s[j - 1]));
            }
        } else {
            let si = if i < p { i } else { i - 1 };
            let sj = if j < p { j } else { j - 1 };
            assert(t[i] == s[si]);
            assert(t[j] == s[sj]);
        }
    }
}

/// [`by_card_name`] orders by name and keeps every card.
pub proof fn lemma_by_card_name(s: Seq<(Seq<char>, Seq<char>)>)
    ensures
        sorted_by_name(by_card_name(s)),
        by_card_name(s).to_multiset() == s.to_multiset(),
    decreases s.len(),
{
    broadcast use vstd::seq_lib::group_to_multiset_ensures;

    if s.len() > 0 {
        let init = s.drop_last();
        lemma_by_card_name(init);
        let t = by_card_name(init);
        lemma_card_pos_from(t, s.last(), 0);
        lemma_insert_card(t, card_pos_from(t, s.last(), 0), s.last());
        assert(s == init.push(s.last()));
    }
}

/// The usable network cards (name, IPv4 address) in name order, compared
/// Unicode lower-cased, equal names keeping their order.
pub fn sort_network_cards(cards: Vec<(String, String)>) -> (r: Vec<(String, String)>)
    ensures
        pair_views(r@) == by_card_name(pair_views(cards@)),
        sorted_by_name(pair_views(r@)),
        pair_views(r@).to_multiset() == pair_views(cards@).to_multiset(),
{
    let ghost orig = pair_views(cards@);
    let mut out: Vec<(String, String)> = Vec::new();
    let mut keys: Vec<String> = Vec::new();
    let mut i: usize = 0;
    while i < cards.len()
        invariant
            i <= cards.len(),
            orig == pair_views(cards@),
            pair_views(out@) == by_card_name(orig.take(i as int)),
            keys.len() == out.len(),
            forall|k: int| 0 <= k < keys.len() ==> #[trigger] keys@[k]@ == card_key(pair_views(out@)[k]),
        decreases cards.len() - i,
    {
        let c = (cards[i].0.clone(), cards[i].1.clone());
        let ghost x = (c.0@, c.1@);
        assert(x == orig[i as int]);
        let key = to_lowercase(c.0.as_str());
        let ghost s = pair_views(out@);
        let mut p: usize = 0;
        while p < out.len()
            invariant
                p <= out.len(),
                s == pair_views(out@),
                keys.len() == out.len(),
                forall|k: int| 0 <= k < keys.len() ==> #[trigger] keys@[k]@ == card_key(s[k]),
                key@ == card_key(x),
                card_pos_from(s, x, 0) == card_pos_from(s, x, p as int),
            ensures
                p <= out.len(),
                card_pos_from(s, x, 0) == p,
            decreases out.len() - p,
        {
            assert(keys@[p as int]@ == card_key(s[p as int]));
            if !instance_le(&keys[p], &key) {
                break;
            }
            p += 1;
        }
        proof {
            assert(orig.take(i + 1).drop_last() == orig.take(i as int));
            assert(orig.take(i + 1).last() == x);
        }
        let ghost ks = keys@;
        out.insert(p, c);
        keys.insert(p, key);
        assert(pair_views(out@) =~= s.insert(p as int, x));
        assert forall|k: int| 0 <= k < keys.len() implies #[trigger] keys@[k]@ == card_key(pair_views(out@)[k]) by {
            if k < p {
                assert(keys@[k] == ks[k]);
            } else if k > p {
                assert(keys@[k] == ks[k - 1]);
            }
        }
        i += 1;
    }
    assert(orig.take(orig.len() as int) == orig);
    proof {
        lemma_by_card_name(orig);
    }
    out
}

// ---------------------------------------------------------------------------
// Choosing the network cards
// ---------------------------------------------------------------------------

/// The interface type of a software loopback adapter.
pub const IF_TYPE_SOFTWARE_LOOPBACK: u32 = 24;

/// The interface type of a tunnel adapter.
pub const IF_TYPE_TUNNEL: u32 = 131;

/// What the adapter list reports of one network adapter: whether it is up,
/// its interface type, its first IPv4 address (bytes, most significant
/// first) and its friendly name.
pub struct AdapterInfo {
    pub up: bool,
    pub if_type: u32,
    pub ipv4: Option<(u8, u8, u8, u8)>,
    pub name: String,
}

pub ghost struct AdapterView {
    pub up: bool,
    pub if_type: u32,
    pub ipv4: Option<(u8, u8, u8, u8)>,
    pub name: Seq<char>,
}

impl View for AdapterInfo {
    type V = AdapterView;

    open spec fn view(&self) -> AdapterView {
        AdapterView { up: self.up, if_type: self.if_type, ipv4: self.ipv4, name: self.name@ }
    }
}

pub open spec fn adapter_views(v: Seq<AdapterInfo>) -> Seq<AdapterView> {
    v.map_values(|a: AdapterInfo| a@)
}

/// An adapter offered as a network card: up, neither loopback nor tunnel,
/// with an IPv4 address and a name.
pub open spec fn usable_adapter(a: AdapterView) -> bool {
    &&& a.up
    &&& a.if_type != IF_TYPE_SOFTWARE_LOOPBACK
    &&& a.if_type != IF_TYPE_TUNNEL
    &&& a.ipv4 is Some
    &&& a.name.len() > 0
}

/// The card of a usable adapter: its name and its dotted address.
pub open spec fn card_of(a: AdapterView) -> (Seq<char>, Seq<char>) {
    match a.ipv4 {
        Some((b0, b1, b2, b3)) => (a.name, ipv4_of(b0, b1, b2, b3)),
        None => (a.name, Seq::empty()),
    }
}

/// The cards of the usable adapters, in the order of the adapter list.
pub open spec fn cards_of(adapters: Seq<AdapterView>) -> Seq<(Seq<char>, Seq<char>)> {
    adapters.filter(|a: AdapterView| usable_adapter(a)).map_values(|a: AdapterView| card_of(a))
}

/// The usable network cards `(name, IPv4 address)` of an adapter list, in
/// name order (see [`sort_network_cards`]).
pub fn network_cards_of(adapters: Vec<AdapterInfo>) -> (r: Vec<(String, String)>)
    ensures
        pair_views(r@) == by_card_name(cards_of(adapter_views(adapters@))),
        sorted_by_name(pair_views(r@)),
        pair_views(r@).to_multiset() == cards_of(adapter_views(adapters@)).to_multiset(),
{
    let ghost all = adapter_views(adapters@);
    let ghost pred = |a: AdapterView| usable_adapter(a);
    let ghost f = |a: AdapterView| card_of(a);
    let mut cards: Vec<(String, String)> = Vec::new();
    let mut i: usize = 0;
    while i < adapters.len()
        invariant
            i <= adapters.len(),
            all == adapter_views(adapters@),
            pred == (|a: AdapterView| usable_adapter(a)),
            f == (|a: AdapterView| card_of(a)),
            pair_views(cards@) == all.take(i as int).filter(pred).map_values(f),
        decreases adapters.len() - i,
    {
        let a = &adapters[i];
        assert(all[i as int] == a@);
        proof {
            assert(all.take(i + 1) == all.take(i as int).push(all[i as int]));
            all.take(i as int).lemma_filter_push(all[i as int], pred);
        }
        if a.up && a.if_type != IF_TYPE_SOFTWARE_LOOPBACK && a.if_type != IF_TYPE_TUNNEL
            && !a.name.as_str().is_empty() {
            match a.ipv4 {
                Some((b0, b1, b2, b3)) => {
                    let ghost fs = all.take(i as int).filter(pred);
                    cards.push((a.name.clone(), ipv4_text(b0, b1, b2, b3)));
                    assert(fs.push(all[i as int]).map_values(f) =~= fs.map_values(f).push(
                        f(all[i as int]),
                    ));
                    assert(pair_views(cards@) =~= fs.map_values(f).push(f(all[i as int])));
                },
                None => {},
            }
        }
        i += 1;
    }
    assert(all.take(adapters.len() as int) == all);
    sort_network_cards(cards)
}

} // verus!
