//! How the end of a background operation is reported to the window, and the
//! choices made before an attach starts.

use vstd::prelude::*;
use crate::config::AppConfig;
use crate::controller::{OpRequest, card_views};
use crate::lang::{Msg, msg_text, t};
use crate::text::{chars_of, concat, string_from};

verus! {

/// Which operation ran, for the wording of its report.
#[derive(Debug, Clone, Copy, PartialEq, Eq, Structural)]
pub enum OpKind {
    Bind,
    Unbind,
    Attach,
    Detach,
}

pub open spec fn kind_of(r: OpRequest) -> OpKind {
    match r {
        OpRequest::Bind { .. } => OpKind::Bind,
        OpRequest::Unbind { .. } => OpKind::Unbind,
        OpRequest::UnbindAll { .. } => OpKind::Unbind,
        OpRequest::Attach { .. } => OpKind::Attach,
        OpRequest::Detach { .. } => OpKind::Detach,
    }
}

pub fn op_kind(r: &OpRequest) -> (k: OpKind)
    ensures
        k == kind_of(*r),
{
    match r {
        OpRequest::Bind { .. } => OpKind::Bind,
        OpRequest::Unbind { .. } => OpKind::Unbind,
        OpRequest::UnbindAll { .. } => OpKind::Unbind,
        OpRequest::Attach { .. } => OpKind::Attach,
        OpRequest::Detach { .. } => OpKind::Detach,
    }
}

pub open spec fn success_msg(k: OpKind) -> Msg {
    match k {
        OpKind::Bind => Msg::BindSuccess,
        OpKind::Unbind => Msg::UnbindSuccess,
        OpKind::Attach => Msg::AttachSuccess,
        OpKind::Detach => Msg::DetachSuccess,
    }
}

pub open spec fn failure_msg(k: OpKind) -> Msg {
    match k {
        OpKind::Bind => Msg::ErrMsgBindFail,
        OpKind::Unbind => Msg::ErrMsgUnbindFail,
        OpKind::Attach => Msg::ErrMsgAttachFail,
        OpKind::Detach => Msg::ErrMsgDetachFail,
    }
}

/// `<what failed>: <why>`.
pub open spec fn failure_text(k: OpKind, e: Seq<char>, zh: bool) -> Seq<char> {
    msg_text(failure_msg(k), zh) + seq![':', ' '] + e
}

/// The report of an operation: success with its own message, or the
/// operation's success text when it has none; failure with the reason
/// behind what failed.
pub open spec fn done_report(k: OpKind, r: Result<Seq<char>, Seq<char>>, zh: bool) -> (bool, Seq<char>) {
    match r {
        Ok(m) => (true, if m.len() == 0 {
            msg_text(success_msg(k), zh)
        } else {
            m
        }),
        Err(e) => (false, failure_text(k, e, zh)),
    }
}

pub open spec fn result_view(r: Result<String, String>) -> Result<Seq<char>, Seq<char>> {
    match r {
        Ok(m) => Ok(m@),
        Err(e) => Err(e@),
    }
}

/// The `(ok, message)` of [`crate::model::UiMsg::OpDone`] for a finished operation.
pub fn op_done(k: OpKind, r: Result<String, String>, zh: bool) -> (out: (bool, String))
    ensures
        (out.0, out.1@) == done_report(k, result_view(r), zh),
{
    match r {
        Ok(m) => {
            if m.as_str().is_empty() {
                let msg = match k {
                    OpKind::Bind => Msg::BindSuccess,
                    OpKind::Unbind => Msg::UnbindSuccess,
                    OpKind::Attach => Msg::AttachSuccess,
                    OpKind::Detach => Msg::DetachSuccess,
                };
                (true, t(msg, zh))
            } else {
                (true, m)
            }
        },
        Err(e) => {
            let msg = match k {
                OpKind::Bind => Msg::ErrMsgBindFail,
                OpKind::Unbind => Msg::ErrMsgUnbindFail,
                OpKind::Attach => Msg::ErrMsgAttachFail,
                OpKind::Detach => Msg::ErrMsgDetachFail,
            };
            let head = t(msg, zh);
            let a = chars_of(head.as_str());
            let mut v = concat(&a, &Vec::new());
            v.push(':');
            v.push(' ');
            let b = chars_of(e.as_str());
            let v = concat(&v, &b);
            assert(v@ =~= failure_text(k, e@, zh));
            (false, string_from(&v))
        },
    }
}

/// The first card whose name is exactly `name`.
pub open spec fn card_named(cards: Seq<(Seq<char>, Seq<char>)>, name: Seq<char>, i: int) -> Option<int>
    decreases cards.len() - i,
{
    if i < 0 || i >= cards.len() {
        None
    } else if cards[i].0 == name {
        Some(i)
    } else {
        card_named(cards, name, i + 1)
    }
}

/// `<no such card> (<name>)`.
pub open spec fn no_card_text(name: Seq<char>, zh: bool) -> Seq<char> {
    msg_text(Msg::ErrNoNetCard, zh) + seq![' ', '('] + name + seq![')']
}

/// The host address an attach announces: none unless the settings name a
/// network card; then the address of the first card with exactly that name,
/// and an error when none has it.
pub open spec fn host_ip_for(
    specify: bool,
    name: Seq<char>,
    cards: Seq<(Seq<char>, Seq<char>)>,
    zh: bool,
) -> Result<Option<Seq<char>>, Seq<char>> {
    if !specify {
        Ok(None)
    } else {
        match card_named(cards, name, 0) {
            Some(k) => Ok(Some(cards[k].1)),
            None => Err(no_card_text(name, zh)),
        }
    }
}

pub open spec fn ip_view(r: Result<Option<String>, String>) -> Result<Option<Seq<char>>, Seq<char>> {
    match r {
        Ok(Some(s)) => Ok(Some(s@)),
        Ok(None) => Ok(None),
        Err(e) => Err(e@),
    }
}

pub fn attach_host_ip(config: &AppConfig, cards: &Vec<(String, String)>, zh: bool) -> (r: Result<
    Option<String>,
    String,
>)
    ensures
        ip_view(r) == host_ip_for(
            config.specify_net_card,
            config.forward_net_card@,
            card_views(cards@),
            zh,
        ),
{
    if !config.specify_net_card {
        return Ok(None);
    }
    let ghost l = card_views(cards@);
    let name = chars_of(config.forward_net_card.as_str());
    let mut i: usize = 0;
    while i < cards.len()
        invariant
            i <= cards.len(),
            l == card_views(cards@),
            name@ == config.forward_net_card@,
            config.specify_net_card,
            card_named(l, name@, 0) == card_named(l, name@, i as int),
        decreases cards.len() - i,
    {
        let c = chars_of(cards[i].0.as_str());
        assert(l[i as int] == (cards@[i as int].0@, cards@[i as int].1@));
        if crate::usbipd::same_chars(&c, &name) {
            return Ok(Some(cards[i].1.clone()));
        }
        i += 1;
    }
    let head = t(Msg::ErrNoNetCard, zh);
    let a = chars_of(head.as_str());
    let mut v = concat(&a, &Vec::new());
    v.push(' ');
    v.push('(');
    let v = concat(&v, &name);
    let mut v = v;
    v.push(')');
    assert(v@ =~= no_card_text(config.forward_net_card@, zh));
    Err(string_from(&v))
}

/// The outcome of unbinding several devices: the last failure, or success
/// with no message when none failed.
pub open spec fn last_failure(rs: Seq<Result<Seq<char>, Seq<char>>>) -> Result<Seq<char>, Seq<char>>
    decreases rs.len(),
{
    if rs.len() == 0 {
        Ok(Seq::empty())
    } else {
        match rs.last() {
            Err(e) => Err(e),
            Ok(_) => last_failure(rs.drop_last()),
        }
    }
}

pub open spec fn results_view(v: Seq<Result<String, String>>) -> Seq<Result<Seq<char>, Seq<char>>> {
    v.map_values(|r: Result<String, String>| result_view(r))
}

pub fn unbind_all_outcome(results: &Vec<Result<String, String>>) -> (r: Result<String, String>)
    ensures
        result_view(r) == last_failure(results_view(results@)),
{
    let ghost l = results_view(results@);
    let mut out: Result<String, String> = Ok(String::new());
    let mut i: usize = 0;
    while i < results.len()
        invariant
            i <= results.len(),
            l == results_view(results@),
            result_view(out) == last_failure(l.take(i as int)),
        decreases results.len() - i,
    {
        assert(l.take(i + 1).drop_last() == l.take(i as int));
        assert(l.take(i + 1).last() == l[i as int]);
        match &results[i] {
            Err(e) => {
                out = Err(e.clone());
            },
            Ok(_) => {},
        }
        i += 1;
    }
    assert(l.take(l.len() as int) == l);
    out
}

} // verus!
