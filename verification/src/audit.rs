//! The audit trail: records, filtering and the identities of entries.
use vstd::prelude::*;

use crate::events::{DenialReason, DomainEvent};
use crate::mount::MountName;
use crate::fsops::{file_name_of, path_file_name};
use crate::text::opt_text;
use crate::token::TokenId;

verus! {

broadcast use {vstd::string::group_string_axioms, vstd::multiset::group_multiset_axioms};

/// The outcome of an audited operation.
#[derive(Debug, Clone, Copy, PartialEq, Eq, Structural)]
pub enum AuditResult {
    Success,
    Error,
}

/// The characters of an optional mount name.
pub open spec fn opt_name(o: Option<MountName>) -> Option<Seq<char>> {
    match o {
        Some(n) => Some(n@),
        None => None,
    }
}

/// One line of the audit log. The timestamp is in nanoseconds since the Unix epoch (UTC).
#[derive(Debug, PartialEq, Eq)]
pub struct AuditEntry {
    pub id: u64,
    pub timestamp: i128,
    pub token_id: Option<TokenId>,
    pub operation: String,
    pub mount: Option<MountName>,
    pub path: Option<String>,
    pub result: AuditResult,
    pub error_code: Option<String>,
}

/// A filter over audit entries; absent fields do not filter.
#[derive(Debug, PartialEq, Eq)]
pub struct AuditQuery {
    pub mount: Option<MountName>,
    pub token_id: Option<TokenId>,
    pub operation: Option<String>,
    pub result: Option<AuditResult>,
    pub limit: Option<u64>,
    pub before: Option<i128>,
    pub after: Option<i128>,
    pub after_id: Option<u64>,
}

impl Default for AuditQuery {
    fn default() -> (q: AuditQuery)
        ensures
            q.mount is None,
            q.token_id is None,
            q.operation is None,
            q.result is None,
            q.limit is None,
            q.before is None,
            q.after is None,
            q.after_id is None,
    {
        AuditQuery {
            mount: None,
            token_id: None,
            operation: None,
            result: None,
            limit: None,
            before: None,
            after: None,
            after_id: None,
        }
    }
}

/// What is recorded about an operation, before it gets an identity and a time.
#[derive(Debug, PartialEq, Eq)]
pub struct AuditRecord {
    pub token_id: Option<TokenId>,
    pub operation: String,
    pub mount: Option<MountName>,
    pub path: Option<String>,
    pub result: AuditResult,
    pub error_code: Option<String>,
}

impl AuditRecord {
    /// A successful operation.
    pub fn ok(
        operation: String,
        token_id: Option<TokenId>,
        mount: Option<MountName>,
        path: Option<String>,
    ) -> (r: AuditRecord)
        ensures
            r == (AuditRecord {
                token_id,
                operation,
                mount,
                path,
                result: AuditResult::Success,
                error_code: None,
            }),
    {
        AuditRecord { token_id, operation, mount, path, result: AuditResult::Success, error_code: None }
    }

    /// A failed operation with its error code.
    pub fn error(
        operation: String,
        token_id: Option<TokenId>,
        mount: Option<MountName>,
        path: Option<String>,
        error_code: String,
    ) -> (r: AuditRecord)
        ensures
            r == (AuditRecord {
                token_id,
                operation,
                mount,
                path,
                result: AuditResult::Error,
                error_code: Some(error_code),
            }),
    {
        AuditRecord {
            token_id,
            operation,
            mount,
            path,
            result: AuditResult::Error,
            error_code: Some(error_code),
        }
    }
}

/// The error code recorded for a denial.
pub open spec fn denial_code(reason: DenialReason) -> Seq<char> {
    match reason {
        DenialReason::AuthRequired => "auth_required"@,
        DenialReason::TokenInvalid => "token_invalid"@,
        DenialReason::TokenExpired => "token_expired"@,
        DenialReason::MissingScope => "missing_scope"@,
        DenialReason::PolicyViolation => "policy_violated"@,
        DenialReason::InvalidPath => "invalid_path"@,
        DenialReason::OutOfBounds => "out_of_bounds"@,
        DenialReason::SymlinkDenied => "symlink_denied"@,
        DenialReason::MountNotFound => "mount_not_found"@,
        DenialReason::NotFound => "not_found"@,
        DenialReason::Other => "internal"@,
    }
}

/// The error code recorded for a denial.
pub fn denial_reason_code(reason: &DenialReason) -> (code: &'static str)
    ensures
        code@ == denial_code(*reason),
{
    match reason {
        DenialReason::AuthRequired => "auth_required",
        DenialReason::TokenInvalid => "token_invalid",
        DenialReason::TokenExpired => "token_expired",
        DenialReason::MissingScope => "missing_scope",
        DenialReason::PolicyViolation => "policy_violated",
        DenialReason::InvalidPath => "invalid_path",
        DenialReason::OutOfBounds => "out_of_bounds",
        DenialReason::SymlinkDenied => "symlink_denied",
        DenialReason::MountNotFound => "mount_not_found",
        DenialReason::NotFound => "not_found",
        DenialReason::Other => "internal",
    }
}

/// The record of an event: its operation name, token, mount and path; denials are errors
/// carrying the denial code.
pub open spec fn event_record(e: DomainEvent, r: AuditRecord) -> bool {
    match e {
        DomainEvent::FileRead { token_id, mount, path, .. } => {
            &&& r.operation@ == "file_read"@
            &&& r.token_id == Some(token_id)
            &&& opt_name(r.mount) == Some(mount@)
            &&& opt_text(r.path) == Some(path@)
            &&& r.result == AuditResult::Success
            &&& r.error_code is None
        },
        DomainEvent::FileWritten { token_id, mount, path, .. } => {
            &&& r.operation@ == "file_written"@
            &&& r.token_id == Some(token_id)
            &&& opt_name(r.mount) == Some(mount@)
            &&& opt_text(r.path) == Some(path@)
            &&& r.result == AuditResult::Success
            &&& r.error_code is None
        },
        DomainEvent::DirListed { token_id, mount, path } => {
            &&& r.operation@ == "dir_listed"@
            &&& r.token_id == Some(token_id)
            &&& opt_name(r.mount) == Some(mount@)
            &&& opt_text(r.path) == Some(path@)
            &&& r.result == AuditResult::Success
            &&& r.error_code is None
        },
        DomainEvent::MountRegistered { name, .. } => {
            &&& r.operation@ == "mount_registered"@
            &&& r.token_id is None
            &&& opt_name(r.mount) == Some(name@)
            &&& r.path is None
            &&& r.result == AuditResult::Success
            &&& r.error_code is None
        },
        DomainEvent::MountUpdated { name } => {
            &&& r.operation@ == "mount_updated"@
            &&& r.token_id is None
            &&& opt_name(r.mount) == Some(name@)
            &&& r.path is None
            &&& r.result == AuditResult::Success
            &&& r.error_code is None
        },
        DomainEvent::MountRemoved { name } => {
            &&& r.operation@ == "mount_removed"@
            &&& r.token_id is None
            &&& opt_name(r.mount) == Some(name@)
            &&& r.path is None
            &&& r.result == AuditResult::Success
            &&& r.error_code is None
        },
        DomainEvent::TokenCreated { id, .. } => {
            &&& r.operation@ == "token_created"@
            &&& r.token_id == Some(id)
            &&& r.mount is None
            &&& r.path is None
            &&& r.result == AuditResult::Success
            &&& r.error_code is None
        },
        DomainEvent::TokenRevoked { id } => {
            &&& r.operation@ == "token_revoked"@
            &&& r.token_id == Some(id)
            &&& r.mount is None
            &&& r.path is None
            &&& r.result == AuditResult::Success
            &&& r.error_code is None
        },
        DomainEvent::AccessDenied { token_id, reason, mount } => {
            &&& r.operation@ == "access_denied"@
            &&& r.token_id == token_id
            &&& opt_name(r.mount) == opt_name(mount)
            &&& r.path is None
            &&& r.result == AuditResult::Error
            &&& opt_text(r.error_code) == Some(denial_code(reason))
        },
    }
}

/// The audit record of a domain event.
pub fn record_for_event(event: DomainEvent) -> (r: AuditRecord)
    ensures
        event_record(event, r),
{
    match event {
        DomainEvent::FileRead { token_id, mount, path, .. } => AuditRecord::ok(
            "file_read".to_owned(),
            Some(token_id),
            Some(mount),
            Some(path.as_str().to_owned()),
        ),
        DomainEvent::FileWritten { token_id, mount, path, .. } => AuditRecord::ok(
            "file_written".to_owned(),
            Some(token_id),
            Some(mount),
            Some(path.as_str().to_owned()),
        ),
        DomainEvent::DirListed { token_id, mount, path } => AuditRecord::ok(
            "dir_listed".to_owned(),
            Some(token_id),
            Some(mount),
            Some(path.as_str().to_owned()),
        ),
        DomainEvent::MountRegistered { name, .. } => AuditRecord::ok(
            "mount_registered".to_owned(),
            None,
            Some(name),
            None,
        ),
        DomainEvent::MountUpdated { name } => AuditRecord::ok(
            "mount_updated".to_owned(),
            None,
            Some(name),
            None,
        ),
        DomainEvent::MountRemoved { name } => AuditRecord::ok(
            "mount_removed".to_owned(),
            None,
            Some(name),
            None,
        ),
        DomainEvent::TokenCreated { id, .. } => AuditRecord::ok(
            "token_created".to_owned(),
            Some(id),
            None,
            None,
        ),
        DomainEvent::TokenRevoked { id } => AuditRecord::ok(
            "token_revoked".to_owned(),
            Some(id),
            None,
            None,
        ),
        DomainEvent::AccessDenied { token_id, reason, mount } => AuditRecord::error(
            "access_denied".to_owned(),
            token_id,
            mount,
            None,
            denial_reason_code(&reason).to_owned(),
        ),
    }
}

/// Whether an entry passes every filter that the query sets: the same mount, token,
/// operation and result; strictly before `before`, strictly after `after` and with an
/// identity above `after_id`.
pub open spec fn entry_matches(e: AuditEntry, f: AuditQuery) -> bool {
    &&& (f.mount matches Some(m) ==> opt_name(e.mount) == Some(m@))
    &&& (f.token_id matches Some(t) ==> e.token_id == Some(t))
    &&& (f.operation matches Some(op) ==> e.operation@ == op@)
    &&& (f.result matches Some(r) ==> e.result == r)
    &&& (f.before matches Some(b) ==> e.timestamp < b)
    &&& (f.after matches Some(a) ==> e.timestamp > a)
    &&& (f.after_id matches Some(i) ==> e.id > i)
}

/// An entry that passes a query has the query's mount, token, operation and result where
/// the query names them, falls strictly inside its time bounds, and has an identity above
/// its `after_id`.
pub proof fn lemma_matching_entry_meets_query(s: Seq<AuditEntry>, f: AuditQuery, x: AuditEntry)
    requires
        matching_entries(s, f).contains(x),
    ensures
        f.mount is Some ==> x.mount is Some && x.mount->Some_0@ == f.mount->Some_0@,
        f.token_id is Some ==> x.token_id == f.token_id,
        f.operation is Some ==> x.operation@ == f.operation->Some_0@,
        f.result is Some ==> Some(x.result) == f.result,
        f.before is Some ==> x.timestamp < f.before->Some_0,
        f.after is Some ==> x.timestamp > f.after->Some_0,
        f.after_id is Some ==> x.id > f.after_id->Some_0,
{
    let m = matching_entries(s, f);
    let i = choose|i: int| 0 <= i < m.len() && m[i] == x;
    s.lemma_filter_pred(|e: AuditEntry| entry_matches(e, f), i);
}

/// Whether `entry` passes `filter`.
pub fn match_filter(entry: &AuditEntry, filter: &AuditQuery) -> (r: bool)
    ensures
        r == entry_matches(*entry, *filter),
        r ==> (filter.mount is Some ==> entry.mount is Some && entry.mount->Some_0@ == filter.mount->Some_0@),
        r ==> (filter.token_id is Some ==> entry.token_id == filter.token_id),
        r ==> (filter.operation is Some ==> entry.operation@ == filter.operation->Some_0@),
        r ==> (filter.result is Some ==> Some(entry.result) == filter.result),
        r ==> (filter.before is Some ==> entry.timestamp < filter.before->Some_0),
        r ==> (filter.after is Some ==> entry.timestamp > filter.after->Some_0),
        r ==> (filter.after_id is Some ==> entry.id > filter.after_id->Some_0),
{
    if let Some(mount) = &filter.mount {
        match &entry.mount {
            Some(m) => {
                if !m.same_as(mount) {
                    return false;
                }
            },
            None => {
                return false;
            },
        }
    }
    if let Some(token_id) = filter.token_id {
        match entry.token_id {
            Some(t) => {
                if t != token_id {
                    return false;
                }
            },
            None => {
                return false;
            },
        }
    }
    if let Some(operation) = &filter.operation {
        if entry.operation != *operation {
            return false;
        }
    }
    if let Some(result) = filter.result {
        if entry.result != result {
            return false;
        }
    }
    if let Some(before) = filter.before {
        if entry.timestamp >= before {
            return false;
        }
    }
    if let Some(after) = filter.after {
        if entry.timestamp <= after {
            return false;
        }
    }
    if let Some(after_id) = filter.after_id {
        if entry.id <= after_id {
            return false;
        }
    }
    true
}

/// Whether entries are in non-decreasing identity order.
pub open spec fn sorted_by_id(s: Seq<AuditEntry>) -> bool {
    forall|i: int, j: int| 0 <= i <= j < s.len() ==> (#[trigger] s[i]).id <= (#[trigger] s[j]).id
}

/// The entries that pass `f`, in the order given.
pub open spec fn matching_entries(s: Seq<AuditEntry>, f: AuditQuery) -> Seq<AuditEntry> {
    s.filter(|e: AuditEntry| entry_matches(e, f))
}

/// The last `limit` entries of `s`, or all of them when there is no limit or fewer entries.
pub open spec fn keep_last(s: Seq<AuditEntry>, limit: Option<u64>) -> Seq<AuditEntry> {
    match limit {
        Some(l) => if s.len() > l {
            s.skip(s.len() - l)
        } else {
            s
        },
        None => s,
    }
}

/// Whether an entry has identity `id`.
pub open spec fn has_id(id: u64) -> spec_fn(AuditEntry) -> bool {
    |e: AuditEntry| e.id == id
}

/// The entries of `s` with identity `id`, in the order given.
pub open spec fn entries_with_id(s: Seq<AuditEntry>, id: u64) -> Seq<AuditEntry> {
    s.filter(has_id(id))
}

/// Whether `t` is `s` sorted stably by identity: in identity order, with the entries of each
/// identity in the order that `s` has them.
pub open spec fn stably_sorted_by_id(s: Seq<AuditEntry>, t: Seq<AuditEntry>) -> bool {
    sorted_by_id(t) && forall|id: u64| #[trigger] entries_with_id(t, id) == entries_with_id(s, id)
}

/// Putting `e` after the entries with identities up to its own and before the greater ones
/// adds it at the end of the entries with its identity and changes no other identity's.
proof fn lemma_insert_entries_with_id(before: Seq<AuditEntry>, k: int, e: AuditEntry, id: u64)
    requires
        0 <= k <= before.len(),
        forall|j: int| 0 <= j < k ==> (#[trigger] before[j]).id <= e.id,
        forall|j: int| k <= j < before.len() ==> (#[trigger] before[j]).id > e.id,
    ensures
        entries_with_id(before.insert(k, e), id) == if e.id == id {
            entries_with_id(before, id).push(e)
        } else {
            entries_with_id(before, id)
        },
{
    let p = has_id(id);
    let a = before.take(k);
    let b = before.skip(k);
    assert(before.insert(k, e) =~= a + seq![e] + b);
    assert(before =~= a + b);
    Seq::filter_distributes_over_add(a + seq![e], b, p);
    Seq::filter_distributes_over_add(a, seq![e], p);
    Seq::filter_distributes_over_add(a, b, p);
    assert(seq![e] =~= Seq::<AuditEntry>::empty().push(e));
    Seq::<AuditEntry>::empty().lemma_filter_push(e, p);
    assert(Seq::<AuditEntry>::empty().filter(p) =~= Seq::<AuditEntry>::empty()) by {
        reveal(Seq::filter);
    }
    if e.id == id {
        assert(b.all(|x: AuditEntry| !p(x))) by {
            assert forall|j: int| 0 <= j < b.len() implies !p(#[trigger] b[j]) by {
                assert(b[j] == before[k + j]);
            }
        }
        b.lemma_all_neg_filter_empty(p);
        assert(b.filter(p) =~= Seq::<AuditEntry>::empty());
        assert(a.filter(p) + seq![e] =~= a.filter(p).push(e));
        assert(a.filter(p) + Seq::<AuditEntry>::empty() =~= a.filter(p));
        assert(a.filter(p).push(e) + Seq::<AuditEntry>::empty() =~= a.filter(p).push(e));
    } else {
        assert(a.filter(p) + Seq::<AuditEntry>::empty() =~= a.filter(p));
    }
}

/// The answer to an audit query over `entries`: the matching entries sorted by identity,
/// and of those the `limit` with the highest identities.
pub fn filter_entries(entries: Vec<AuditEntry>, filter: &AuditQuery) -> (r: Vec<AuditEntry>)
    ensures
        exists|t: Seq<AuditEntry>|
            #![trigger t.to_multiset()]
            t.to_multiset() == matching_entries(entries@, *filter).to_multiset()
                && stably_sorted_by_id(matching_entries(entries@, *filter), t) && r@ == keep_last(
                t,
                filter.limit,
            ),
        sorted_by_id(r@),
        forall|k: int| #![trigger r@[k]] 0 <= k < r@.len() ==> (filter.mount is Some ==> r@[k].mount is Some && r@[k].mount->Some_0@ == filter.mount->Some_0@),
        forall|k: int| #![trigger r@[k]] 0 <= k < r@.len() ==> (filter.token_id is Some ==> r@[k].token_id == filter.token_id),
        forall|k: int| #![trigger r@[k]] 0 <= k < r@.len() ==> (filter.operation is Some ==> r@[k].operation@ == filter.operation->Some_0@),
        forall|k: int| #![trigger r@[k]] 0 <= k < r@.len() ==> (filter.result is Some ==> Some(r@[k].result) == filter.result),
        forall|k: int| #![trigger r@[k]] 0 <= k < r@.len() ==> (filter.before is Some ==> r@[k].timestamp < filter.before->Some_0),
        forall|k: int| #![trigger r@[k]] 0 <= k < r@.len() ==> (filter.after is Some ==> r@[k].timestamp > filter.after->Some_0),
        forall|k: int| #![trigger r@[k]] 0 <= k < r@.len() ==> (filter.after_id is Some ==> r@[k].id > filter.after_id->Some_0),
{
    let ghost pred = |e: AuditEntry| entry_matches(e, *filter);
    let ghost all = entries@;
    let mut sorted: Vec<AuditEntry> = Vec::new();
    let mut i: usize = 0;
    let mut rest = entries;
    let n: usize = rest.len();
    proof {
        assert(all.take(0) =~= Seq::<AuditEntry>::empty());
        reveal(Seq::filter);
        assert(rest@ =~= all.skip(0));
    }
    while rest.len() > 0
        invariant
            pred == (|e: AuditEntry| entry_matches(e, *filter)),
            0 <= i <= all.len(),
            all.len() == n,
            rest@ == all.skip(i as int),
            sorted_by_id(sorted@),
            sorted@.to_multiset() == all.take(i as int).filter(pred).to_multiset(),
            forall|id: u64| #[trigger]
                entries_with_id(sorted@, id) == entries_with_id(all.take(i as int).filter(pred), id),
        decreases rest.len(),
    {
        let e = rest.remove(0);
        proof {
            assert(e == all[i as int]);
            assert(all.take(i + 1) =~= all.take(i as int).push(e));
            all.take(i as int).lemma_filter_push(e, pred);
            assert(rest@ =~= all.skip(i + 1));
        }
        if match_filter(&e, filter) {
            let mut k: usize = 0;
            while k < sorted.len() && sorted[k].id <= e.id
                invariant
                    0 <= k <= sorted@.len(),
                    forall|j: int| 0 <= j < k ==> (#[trigger] sorted@[j]).id <= e.id,
                decreases sorted@.len() - k,
            {
                k = k + 1;
            }
            proof {
                assert forall|j: int| k <= j < sorted@.len() implies (#[trigger] sorted@[j]).id
                    > e.id by {
                    assert(sorted@[k as int].id <= sorted@[j].id);
                }
            }
            let ghost before = sorted@;
            let ghost eid = e.id;
            let ghost ge = e;
            sorted.insert(k, e);
            proof {
                assert forall|a: int, b: int| 0 <= a <= b < sorted@.len() implies (
                #[trigger] sorted@[a]).id <= (#[trigger] sorted@[b]).id by {
                    if a < k && b < k {
                        assert(before[a].id <= before[b].id);
                    } else if a < k && b == k {
                    } else if a < k && b > k {
                        assert(before[a].id <= before[b - 1].id);
                    } else if a == k && b > k {
                        assert(before[k as int].id > eid);
                        assert(before[k as int].id <= before[b - 1].id);
                    } else if a > k {
                        assert(before[a - 1].id <= before[b - 1].id);
                    }
                }
                assert(sorted@.remove(k as int) =~= before);
                assert(sorted@[k as int] == ge);
                vstd::seq_lib::to_multiset_remove(sorted@, k as int);
                sorted@.to_multiset_ensures();
                assert(sorted@.contains(ge));
                assert(sorted@.to_multiset() =~= before.to_multiset().insert(ge));
                vstd::seq_lib::to_multiset_build(all.take(i as int).filter(pred), ge);
                assert forall|id: u64| #[trigger] entries_with_id(sorted@, id) == entries_with_id(
                    all.take(i + 1).filter(pred),
                    id,
                ) by {
                    lemma_insert_entries_with_id(before, k as int, ge, id);
                    assert(sorted@ == before.insert(k as int, ge));
                    all.take(i as int).filter(pred).lemma_filter_push(ge, has_id(id));
                }
            }
        }
        i = i + 1;
    }
    proof {
        assert(all.take(i as int) =~= all);
    }
    let ghost t = sorted@;
    let keep: usize = match filter.limit {
        Some(limit) => if (sorted.len() as u64) > limit {
            limit as usize
        } else {
            sorted.len()
        },
        None => sorted.len(),
    };
    let drop = sorted.len() - keep;
    let mut out: Vec<AuditEntry> = Vec::new();
    let mut j: usize = 0;
    let mut src = sorted;
    while j < drop
        invariant
            0 <= j <= drop,
            drop <= t.len(),
            src@ == t.skip(j as int),
        decreases drop - j,
    {
        let _ = src.remove(0);
        proof {
            assert(src@ =~= t.skip(j + 1));
        }
        j = j + 1;
    }
    proof {
        assert(src@ == keep_last(t, filter.limit));
        assert(sorted_by_id(src@)) by {
            assert forall|a: int, b: int| 0 <= a <= b < src@.len() implies (
            #[trigger] src@[a]).id <= (#[trigger] src@[b]).id by {
                assert(src@[a] == t[a + drop]);
                assert(src@[b] == t[b + drop]);
            }
        }
        assert forall|k: int| #![trigger src@[k]] 0 <= k < src@.len() implies matching_entries(
            all,
            *filter,
        ).contains(src@[k]) by {
            let x = t[k + drop];
            assert(src@[k] == x);
            assert(t.contains(x));
            t.to_multiset_ensures();
            all.filter(pred).to_multiset_ensures();
            assert(t.to_multiset() == all.filter(pred).to_multiset());
            assert(t.to_multiset().count(x) > 0);
            assert(all.filter(pred).to_multiset().count(x) > 0);
            assert(matching_entries(all, *filter) == all.filter(pred));
        }
        assert forall|k: int| #![trigger src@[k]] 0 <= k < src@.len() implies (filter.mount is Some ==> src@[k].mount is Some && src@[k].mount->Some_0@ == filter.mount->Some_0@) && (filter.token_id is Some ==> src@[k].token_id == filter.token_id) && (filter.operation is Some ==> src@[k].operation@ == filter.operation->Some_0@) && (filter.result is Some ==> Some(src@[k].result) == filter.result) && (filter.before is Some ==> src@[k].timestamp < filter.before->Some_0) && (filter.after is Some ==> src@[k].timestamp > filter.after->Some_0) && (filter.after_id is Some ==> src@[k].id > filter.after_id->Some_0) by {
            lemma_matching_entry_meets_query(all, *filter, src@[k]);
        }
    }
    src
}

/// The identity that follows the highest identity in `ids`, or 1 for none; saturating.
pub open spec fn next_id_after(ids: Seq<u64>) -> u64
    decreases ids.len(),
{
    if ids.len() == 0 {
        1
    } else {
        let rest = next_id_after(ids.drop_last());
        let candidate = if ids.last() == u64::MAX {
            u64::MAX
        } else {
            (ids.last() + 1) as u64
        };
        if candidate > rest {
            candidate
        } else {
            rest
        }
    }
}

/// The next identity to hand out after the identities already in the log.
pub fn scan_next_id(ids: &Vec<u64>) -> (next: u64)
    ensures
        next == next_id_after(ids@),
        next >= 1,
        forall|i: int| 0 <= i < ids@.len() && ids@[i] < u64::MAX ==> next > #[trigger] ids@[i],
{
    let mut next: u64 = 1;
    let mut i: usize = 0;
    proof {
        assert(ids@.take(0) =~= Seq::<u64>::empty());
    }
    while i < ids.len()
        invariant
            0 <= i <= ids@.len(),
            next == next_id_after(ids@.take(i as int)),
            next >= 1,
            forall|j: int| 0 <= j < i && ids@[j] < u64::MAX ==> next > #[trigger] ids@[j],
        decreases ids@.len() - i,
    {
        let candidate = ids[i].saturating_add(1);
        proof {
            assert(ids@.take(i + 1).drop_last() =~= ids@.take(i as int));
        }
        if candidate > next {
            next = candidate;
        }
        i = i + 1;
    }
    proof {
        assert(ids@.take(ids@.len() as int) =~= ids@);
    }
    next
}

/// The audit log's location and the identity of the next entry.
#[derive(Debug)]
pub struct AuditService {
    path: String,
    next_id: u64,
}

impl AuditService {
    /// A log at `path` whose next entry gets identity `next_id`.
    pub fn new(path: String, next_id: u64) -> (s: AuditService)
        ensures
            s.path()@ == path@,
            s.next_id() == next_id,
    {
        AuditService { path, next_id }
    }

    /// The location of the log.
    pub closed spec fn path(&self) -> String {
        self.path
    }

    /// The identity of the next entry.
    pub closed spec fn next_id(&self) -> u64 {
        self.next_id
    }

    /// The location of the log.
    pub fn log_path(&self) -> (p: &str)
        ensures
            p@ == self.path()@,
    {
        self.path.as_str()
    }

    /// Turns a record into the next entry, stamped with `now`; identities count up, wrapping
    /// as an atomic counter does.
    pub fn next_entry(&mut self, record: AuditRecord, now: i128) -> (e: AuditEntry)
        ensures
            e == (AuditEntry {
                id: old(self).next_id(),
                timestamp: now,
                token_id: record.token_id,
                operation: record.operation,
                mount: record.mount,
                path: record.path,
                result: record.result,
                error_code: record.error_code,
            }),
            final(self).next_id() == (if old(self).next_id() == u64::MAX {
                0
            } else {
                (old(self).next_id() + 1) as u64
            }),
            final(self).path() == old(self).path(),
    {
        let id = self.next_id;
        self.next_id = self.next_id.wrapping_add(1);
        AuditEntry {
            id,
            timestamp: now,
            token_id: record.token_id,
            operation: record.operation,
            mount: record.mount,
            path: record.path,
            result: record.result,
            error_code: record.error_code,
        }
    }

    /// After the log is rotated, identities start again at 1.
    pub fn restart_ids(&mut self)
        ensures
            final(self).next_id() == 1,
            final(self).path() == old(self).path(),
    {
        self.next_id = 1;
    }
}

/// Whether a log with `rows` lines must be rotated under a limit of `max_rows`.
pub fn needs_rotation(rows: usize, max_rows: usize) -> (r: bool)
    ensures
        r == (rows > max_rows),
{
    rows > max_rows
}

/// `path` with its file name replaced, as `Path::with_file_name` gives it.
pub uninterp spec fn path_with_file_name(path: Seq<char>, name: Seq<char>) -> Seq<char>;

/// `Path::with_file_name` on a UTF-8 path.
#[verifier::external_body]
fn with_file_name(path: &str, name: &str) -> (r: String)
    ensures
        r@ == path_with_file_name(path@, name@),
{
    std::path::Path::new(path).with_file_name(name).to_string_lossy().into_owned()
}

/// Where a full log is moved: the same directory, the file name with `.1` appended
/// (`audit.log.1` when the path has no file name).
pub fn rotate_path(path: &str) -> (r: String)
    ensures
        r@ == path_with_file_name(
            path@,
            match path_file_name(path@) {
                Some(n) => n,
                None => "audit.log"@,
            } + ".1"@,
        ),
{
    let name = match file_name_of(path) {
        Some(n) => n,
        None => "audit.log".to_owned(),
    };
    let rotated = name.concat(".1");
    with_file_name(path, rotated.as_str())
}

} // verus!
