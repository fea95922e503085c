//! Listing sandboxes through the API: the label filters of the query, and
//! which sandboxes a caller sees, namely those it may access whose labels
//! match every filter.

use vstd::prelude::*;
use crate::http_api::{percent_decoded, sandbox_access_allowed, sandbox_access_of, url_decode};
use crate::identity::{has_role_spec, AgentIdentity};
use crate::text::{opt_str_view, split_char, split_on, split_once_char, split_once_spec, str_eq, views};

verus! {

broadcast use vstd::string::group_string_axioms;

/// The value a query parameter decodes to: percent-decoded, or as written
/// when it does not decode.
pub open spec fn decoded_or_raw(v: Seq<char>) -> Seq<char> {
    match percent_decoded(v) {
        Some(d) => d,
        None => v,
    }
}

/// The label filter of one query parameter `label=<key>:<value>`.
pub open spec fn label_filter_of(param: Seq<char>) -> Option<(Seq<char>, Seq<char>)> {
    match split_once_spec(param, '=', "="@) {
        Some((k, v)) => if k == "label"@ {
            split_once_spec(decoded_or_raw(v), ':', ":"@)
        } else {
            None
        },
        None => None,
    }
}

/// The label filters of a query, in order.
pub open spec fn label_filters_of(query: Option<Seq<char>>) -> Seq<(Seq<char>, Seq<char>)> {
    match query {
        Some(q) => split_on(q, '&').filter_map(|p: Seq<char>| label_filter_of(p)),
        None => Seq::empty(),
    }
}

/// The view of a list of string pairs.
pub open spec fn pairs_view(v: Seq<(String, String)>) -> Seq<(Seq<char>, Seq<char>)> {
    v.map_values(|p: (String, String)| (p.0@, p.1@))
}

/// Read the label filters `label=<key>:<value>` of a listing's query; the
/// value is percent-decoded where it decodes. Other parameters, and labels
/// without `:`, are passed over.
pub fn label_filters(query: Option<&str>) -> (r: Vec<(String, String)>)
    ensures
        pairs_view(r@) == label_filters_of(opt_str_view(query)),
{
    let mut r: Vec<(String, String)> = Vec::new();
    let q = match query {
        Some(q) => q,
        None => {
            assert(pairs_view(r@) =~= Seq::<(Seq<char>, Seq<char>)>::empty());
            return r;
        },
    };
    let params = split_char(q, '&');
    let n = params.len();
    let ghost f = |p: Seq<char>| label_filter_of(p);
    for i in 0..n
        invariant
            n == params@.len(),
            views(params@) == split_on(q@, '&'),
            f == (|p: Seq<char>| label_filter_of(p)),
            pairs_view(r@) == views(params@).take(i as int).filter_map(f),
    {
        let param = params[i].as_str();
        let ghost before = r@;
        proof {
            assert(views(params@).take(i + 1).drop_last() =~= views(params@).take(i as int));
            assert(views(params@).take(i + 1).last() == param@);
        }
        if let Some((k, v)) = split_once_char(param, '=', "=") {
            if str_eq(k.as_str(), "label") {
                let decoded = match url_decode(v.as_str()) {
                    Some(d) => d,
                    None => v,
                };
                if let Some((lk, lv)) = split_once_char(decoded.as_str(), ':', ":") {
                    r.push((lk, lv));
                    assert(pairs_view(r@) =~= pairs_view(before).push(label_filter_of(param@)->0));
                }
            }
        }
        assert(pairs_view(r@) =~= views(params@).take(i + 1).filter_map(f));
    }
    assert(views(params@).take(n as int) =~= views(params@));
    r
}

/// Whether a sandbox's labels (one entry per key) give `key` the value
/// `value`.
pub open spec fn has_label(labels: Seq<(Seq<char>, Seq<char>)>, key: Seq<char>, value: Seq<char>) -> bool {
    exists|i: int| 0 <= i < labels.len() && #[trigger] labels[i] == (key, value)
}

/// Whether labels satisfy every filter.
pub open spec fn labels_match_of(labels: Seq<(Seq<char>, Seq<char>)>, filters: Seq<(Seq<char>, Seq<char>)>) -> bool {
    forall|j: int| 0 <= j < filters.len() ==> has_label(labels, #[trigger] filters[j].0, filters[j].1)
}

/// Whether a sandbox's labels satisfy every filter (each key carries the
/// filter's value).
pub fn labels_match(labels: &Vec<(String, String)>, filters: &Vec<(String, String)>) -> (r: bool)
    ensures
        r == labels_match_of(pairs_view(labels@), pairs_view(filters@)),
{
    let nf = filters.len();
    for j in 0..nf
        invariant
            nf == filters@.len(),
            forall|k: int| 0 <= k < j ==> has_label(pairs_view(labels@), #[trigger] pairs_view(filters@)[k].0, pairs_view(filters@)[k].1),
    {
        let fk = filters[j].0.as_str();
        let fv = filters[j].1.as_str();
        let nl = labels.len();
        let mut found = false;
        for i in 0..nl
            invariant
                nl == labels@.len(),
                fk@ == pairs_view(filters@)[j as int].0,
                fv@ == pairs_view(filters@)[j as int].1,
                found == has_label(pairs_view(labels@).take(i as int), fk@, fv@),
        {
            proof {
                assert(pairs_view(labels@).take(i + 1).drop_last() =~= pairs_view(labels@).take(i as int));
            }
            let hit = str_eq(labels[i].0.as_str(), fk) && str_eq(labels[i].1.as_str(), fv);
            proof {
                let t = pairs_view(labels@).take(i + 1);
                if hit {
                    assert(t[i as int] == (fk@, fv@));
                }
                if found && !hit {
                    let w = choose|w: int| 0 <= w < i && #[trigger] pairs_view(labels@).take(i as int)[w] == (fk@, fv@);
                    assert(t[w] == (fk@, fv@));
                }
                if has_label(t, fk@, fv@) && !hit {
                    let w = choose|w: int| 0 <= w < i + 1 && #[trigger] t[w] == (fk@, fv@);
                    assert(w < i);
                    assert(pairs_view(labels@).take(i as int)[w] == (fk@, fv@));
                }
            }
            found = found || hit;
        }
        assert(pairs_view(labels@).take(nl as int) =~= pairs_view(labels@));
        if !found {
            assert(!labels_match_of(pairs_view(labels@), pairs_view(filters@)));
            return false;
        }
    }
    true
}

/// What a listing knows of a sandbox.
#[derive(Debug, Clone)]
pub struct SandboxListing {
    pub name: String,
    /// Whether the sandbox has recorded state.
    pub recorded: bool,
    pub owner_user_id: Option<String>,
    pub owner_org_id: Option<String>,
    /// Its labels, one entry per key.
    pub labels: Vec<(String, String)>,
}

/// The view of an optional string.
pub open spec fn opt_view(s: Option<String>) -> Option<Seq<char>> {
    match s {
        Some(x) => Some(x@),
        None => None,
    }
}

/// Whether a caller sees a sandbox in a listing: its state is recorded,
/// the caller may access it, and its labels match every filter.
pub open spec fn listed(
    e: SandboxListing,
    identity: AgentIdentity,
    trusted: bool,
    auth_required: bool,
    subject_user: Seq<char>,
    subject_org: Seq<char>,
    filters: Seq<(Seq<char>, Seq<char>)>,
) -> bool {
    &&& e.recorded
    &&& sandbox_access_of(
        trusted,
        auth_required,
        identity.api_key is Some || identity.jwt_claims is Some,
        has_role_spec(identity, "admin"@),
        opt_view(e.owner_user_id),
        opt_view(e.owner_org_id),
        subject_user,
        subject_org,
    )
    &&& labels_match_of(pairs_view(e.labels@), filters)
}

/// The names of the sandboxes a caller sees, in listing order.
pub open spec fn visible_names_of(
    entries: Seq<SandboxListing>,
    identity: AgentIdentity,
    trusted: bool,
    auth_required: bool,
    subject_user: Seq<char>,
    subject_org: Seq<char>,
    filters: Seq<(Seq<char>, Seq<char>)>,
) -> Seq<Seq<char>> {
    entries.filter_map(
        |e: SandboxListing|
            if listed(e, identity, trusted, auth_required, subject_user, subject_org, filters) {
                Some(e.name@)
            } else {
                None
            },
    )
}

/// The names of the sandboxes a caller sees in a listing.
pub fn visible_sandboxes(
    entries: &Vec<SandboxListing>,
    identity: &AgentIdentity,
    trusted: bool,
    auth_required: bool,
    subject_user: &str,
    subject_org: &str,
    filters: &Vec<(String, String)>,
) -> (r: Vec<String>)
    ensures
        views(r@) == visible_names_of(
            entries@,
            *identity,
            trusted,
            auth_required,
            subject_user@,
            subject_org@,
            pairs_view(filters@),
        ),
{
    let ghost f = |e: SandboxListing|
        if listed(e, *identity, trusted, auth_required, subject_user@, subject_org@, pairs_view(filters@)) {
            Some(e.name@)
        } else {
            None
        };
    let mut r: Vec<String> = Vec::new();
    let n = entries.len();
    for i in 0..n
        invariant
            n == entries@.len(),
            f == (|e: SandboxListing|
                if listed(e, *identity, trusted, auth_required, subject_user@, subject_org@, pairs_view(filters@)) {
                    Some(e.name@)
                } else {
                    None
                }),
            views(r@) == entries@.take(i as int).filter_map(f),
    {
        let e = &entries[i];
        proof {
            assert(entries@.take(i + 1).drop_last() =~= entries@.take(i as int));
            assert(entries@.take(i + 1).last() == *e);
        }
        let owner_user = match &e.owner_user_id {
            Some(u) => Some(u.as_str()),
            None => None,
        };
        let owner_org = match &e.owner_org_id {
            Some(o) => Some(o.as_str()),
            None => None,
        };
        let visible = e.recorded && sandbox_access_allowed(
            identity,
            owner_user,
            owner_org,
            trusted,
            auth_required,
            subject_user,
            subject_org,
        ) && labels_match(&e.labels, filters);
        let ghost before = r@;
        if visible {
            r.push(e.name.clone());
            assert(views(r@) =~= views(before).push(e.name@));
        }
        assert(views(r@) =~= entries@.take(i + 1).filter_map(f));
    }
    assert(entries@.take(n as int) =~= entries@);
    r
}

/// A listing is tenant-scoped: a caller who is not an administrator sees
/// an owned sandbox only when both of its recorded owners are the caller's
/// own quota subject.
pub proof fn lemma_listing_is_tenant_scoped(
    e: SandboxListing,
    identity: AgentIdentity,
    trusted: bool,
    auth_required: bool,
    subject_user: Seq<char>,
    subject_org: Seq<char>,
    filters: Seq<(Seq<char>, Seq<char>)>,
)
    requires
        listed(e, identity, trusted, auth_required, subject_user, subject_org, filters),
        !has_role_spec(identity, "admin"@),
        e.owner_user_id is Some || e.owner_org_id is Some,
    ensures
        e.owner_user_id matches Some(u) && u@ == subject_user,
        e.owner_org_id matches Some(o) && o@ == subject_org,
{
}

} // verus!
