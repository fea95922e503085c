//! Running a command in a sandbox through the API: the checks on the
//! request, the user it runs as, and the environment it gets, whose trace
//! context always comes from the request's own headers.

use vstd::prelude::*;
use crate::text::{has_prefix, opt_str_view, starts_with, views};

verus! {

broadcast use vstd::string::group_string_axioms;

/// The refusal of a command request, if any: the command must not be
/// empty, and `sudo` needs the server to allow it.
pub open spec fn exec_request_check(command_empty: bool, sudo_requested: bool, allow_sudo_exec: bool) -> Option<(u16, Seq<char>)> {
    if command_empty {
        Some((400, "command is required"@))
    } else if sudo_requested && !allow_sudo_exec {
        Some((403, "sudo execution is disabled for HTTP API. Set [api].allow_sudo_exec = true to enable it"@))
    } else {
        None
    }
}

/// Refuse an empty command, and `sudo` where the server does not allow
/// it; the error is the status and message of the answer.
pub fn check_exec_request(command_empty: bool, sudo_requested: bool, allow_sudo_exec: bool) -> (r: Result<(), (u16, String)>)
    ensures
        match exec_request_check(command_empty, sudo_requested, allow_sudo_exec) {
            None => r is Ok,
            Some((status, message)) => r matches Err((s, m)) && s == status && m@ == message,
        },
{
    if command_empty {
        Err((400, String::from_str("command is required")))
    } else if sudo_requested && !allow_sudo_exec {
        Err(
            (
                403,
                String::from_str(
                    "sudo execution is disabled for HTTP API. Set [api].allow_sudo_exec = true to enable it",
                ),
            ),
        )
    } else {
        Ok(())
    }
}

/// The user a command runs as: `root` with `sudo`, else the sandbox's
/// default user.
pub fn exec_user(sudo_requested: bool) -> (r: Option<String>)
    ensures
        sudo_requested ==> (r matches Some(u) && u@ == "root"@),
        !sudo_requested ==> r is None,
{
    if sudo_requested {
        Some(String::from_str("root"))
    } else {
        None
    }
}

/// Whether an environment entry sets the trace context.
pub open spec fn is_trace_entry(e: Seq<char>) -> bool {
    has_prefix(e, "TRACEPARENT="@) || has_prefix(e, "TRACESTATE="@)
}

/// `name` followed by `value`, when there is a value.
pub open spec fn entry_if(name: Seq<char>, value: Option<Seq<char>>) -> Seq<Seq<char>> {
    match value {
        Some(v) => seq![name + v],
        None => Seq::empty(),
    }
}

/// The environment of a command: the caller's entries but those setting
/// the trace context, then `TRACEPARENT` and `TRACESTATE` from the
/// request's headers, when it has them.
pub open spec fn exec_env_of(env: Seq<Seq<char>>, traceparent: Option<Seq<char>>, tracestate: Option<Seq<char>>) -> Seq<Seq<char>> {
    env.filter(|e: Seq<char>| !is_trace_entry(e)) + entry_if("TRACEPARENT="@, traceparent) + entry_if(
        "TRACESTATE="@,
        tracestate,
    )
}

/// Build the environment of a command from the caller's entries and the
/// trace headers of the request.
pub fn exec_env(env: Vec<String>, traceparent: Option<&str>, tracestate: Option<&str>) -> (r: Vec<String>)
    ensures
        views(r@) == exec_env_of(views(env@), opt_str_view(traceparent), opt_str_view(tracestate)),
{
    let ghost pred = |e: Seq<char>| !is_trace_entry(e);
    let mut r: Vec<String> = Vec::new();
    let n = env.len();
    for i in 0..n
        invariant
            n == env@.len(),
            pred == (|e: Seq<char>| !is_trace_entry(e)),
            views(r@) == views(env@).take(i as int).filter(pred),
    {
        let e = env[i].as_str();
        proof {
            assert(views(env@).take(i + 1) =~= views(env@).take(i as int).push(e@));
            views(env@).take(i as int).lemma_filter_push(e@, pred);
        }
        if !(starts_with(e, "TRACEPARENT=") || starts_with(e, "TRACESTATE=")) {
            let ghost before = r@;
            r.push(e.to_owned());
            assert(views(r@) =~= views(before).push(e@));
        }
    }
    assert(views(env@).take(n as int) =~= views(env@));
    let ghost kept = views(r@);
    if let Some(tp) = traceparent {
        let mut entry = String::from_str("TRACEPARENT=");
        entry.append(tp);
        r.push(entry);
    }
    assert(views(r@) =~= kept + entry_if("TRACEPARENT="@, opt_str_view(traceparent)));
    let ghost with_parent = views(r@);
    if let Some(ts) = tracestate {
        let mut entry = String::from_str("TRACESTATE=");
        entry.append(ts);
        r.push(entry);
    }
    assert(views(r@) =~= with_parent + entry_if("TRACESTATE="@, opt_str_view(tracestate)));
    r
}

/// The trace context a command sees is the request's: every `TRACEPARENT`
/// entry of its environment is the one from the request's header, and
/// there is one exactly when the request has that header.
pub proof fn lemma_trace_context_from_headers(env: Seq<Seq<char>>, traceparent: Option<Seq<char>>, tracestate: Option<Seq<char>>)
    ensures
        forall|i: int|
            0 <= i < exec_env_of(env, traceparent, tracestate).len() && has_prefix(
                #[trigger] exec_env_of(env, traceparent, tracestate)[i],
                "TRACEPARENT="@,
            ) ==> traceparent is Some && exec_env_of(env, traceparent, tracestate)[i] == "TRACEPARENT="@
                + traceparent->0,
        traceparent is Some ==> exec_env_of(env, traceparent, tracestate).contains("TRACEPARENT="@ + traceparent->0),
{
    let pred = |e: Seq<char>| !is_trace_entry(e);
    let kept = env.filter(pred);
    let out = exec_env_of(env, traceparent, tracestate);
    reveal_strlit("TRACEPARENT=");
    reveal_strlit("TRACESTATE=");
    env.filter_lemma(pred);
    assert forall|i: int| 0 <= i < out.len() && has_prefix(#[trigger] out[i], "TRACEPARENT="@) implies traceparent is Some
        && out[i] == "TRACEPARENT="@ + traceparent->0 by {
        if i < kept.len() {
            assert(out[i] == kept[i]);
            assert(pred(kept[i]));
        } else {
            let rest = entry_if("TRACEPARENT="@, traceparent) + entry_if("TRACESTATE="@, tracestate);
            assert(out[i] == rest[i - kept.len()]);
            if traceparent is None || i - kept.len() >= 1 {
                let ts = tracestate->0;
                assert(out[i] == "TRACESTATE="@ + ts);
                assert(out[i][5] == 'S');
                assert(out[i].take(12)[5] == 'P');
            }
        }
    }
    if traceparent is Some {
        assert(out[kept.len() as int] == "TRACEPARENT="@ + traceparent->0);
    }
}

} // verus!
