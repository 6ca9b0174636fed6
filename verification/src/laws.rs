//! What holds of the library as a whole: the persistence actor, the
//! synchronizer, the snapshot and the router, taken together.
//!
//! The store is not part of the library. Where a law speaks of it, the law's
//! `requires` states what the store is relied on to do: it lists its rows by
//! ascending id, gives a new row an id above all others, so that the new row
//! is the last one of the next read, and a delete takes out the rows with the
//! given id and no others.

use crate::authority::{
    is_port_digit, lemma_port_suffix_unique, lookup_key, port_suffix_at, upstream_uri,
};
use crate::db::{
    asks_for_reload, transition, AddReq, BusEvent, DBAction, DBEvent, DBMessage, Phase, StoreOp,
    StoreResult,
};
use crate::models::{ascending_ids, views_of, Tunnel, TunnelView};
use crate::proxy_service::{
    dispatch_of, extension, last_dot_at, local_action, sync_step, uri_parses, DispatchView,
    MakeProxyService, RequestView, StockResponse, SyncAction, SyncEvent, SyncPhase,
};
use crate::routing::{
    decides, distinct_sources, has_entry_for, has_row_for, lemma_decider_exists, lemma_mapping_at,
    lemma_table_entry, lemma_table_size, mapping_of, table_map, DuplicatePolicy, Snapshot,
};
use vstd::prelude::*;

verus! {

/// The row that an `Add` creates.
pub open spec fn added_row(id: i32, req: AddReq) -> Tunnel {
    Tunnel { id, domain_from: req.from, domain_to: req.to }
}

/// The mapping leads `key` to `target`.
pub open spec fn leads_to(
    mapping: Map<Seq<char>, Seq<char>>,
    key: Seq<char>,
    target: Seq<char>,
) -> bool {
    mapping.contains_key(key) && mapping[key] == target
}

/// One resynchronization: `before` is listening; a delivery of the change bus
/// that asks for a reload takes it to `loading`, where it asks for a full
/// read, and the rows of that read take it to `after`, where it announces
/// the new snapshot.
pub open spec fn resynced(
    before: MakeProxyService,
    delivery: BusEvent,
    loading: MakeProxyService,
    rows: Vec<Tunnel>,
    after: MakeProxyService,
) -> bool {
    &&& before.wf()
    &&& before.phase() == SyncPhase::Listening
    &&& asks_for_reload(delivery)
    &&& sync_step(before, SyncEvent::Bus(delivery), loading, SyncAction::Load)
    &&& sync_step(loading, SyncEvent::Tunnels(rows), after, SyncAction::Publish)
}

/// What a resynchronization brings about: the synchronizer asks for one full
/// read, installs the rows it is given as they are, announces the new
/// snapshot, and listens again. The mapping it installs is the one the rows
/// stand for under its policy.
pub proof fn law_resync_installs_the_read(
    before: MakeProxyService,
    delivery: BusEvent,
    loading: MakeProxyService,
    first: SyncAction,
    rows: Vec<Tunnel>,
    after: MakeProxyService,
    second: SyncAction,
)
    requires
        before.wf(),
        before.phase() == SyncPhase::Listening,
        asks_for_reload(delivery),
        sync_step(before, SyncEvent::Bus(delivery), loading, first),
        sync_step(loading, SyncEvent::Tunnels(rows), after, second),
    ensures
        resynced(before, delivery, loading, rows, after),
        first == SyncAction::Load,
        loading.cache() == before.cache(),
        second == SyncAction::Publish,
        after.phase() == SyncPhase::Listening,
        after.wf(),
        after.policy() == before.policy(),
        after.cache().listing() == views_of(rows@),
        after.cache().mapping() == mapping_of(views_of(rows@), before.policy()),
{
}

/// Round trip of an `Add`. The actor inserts the rule, reads the rows again,
/// answers with the id of the new row and then announces the change. A
/// `GetALl` that follows answers with rows that hold a rule with that id and
/// those two domains. Once the synchronizer has loaded them, the installed
/// mapping leads the new source domain to the new target, under `LastWins`
/// always and under `FirstWins` where the domain had no row before.
pub proof fn law_add_round_trip(
    before: Seq<Tunnel>,
    req: AddReq,
    id: i32,
    after: Vec<Tunnel>,
    stale: MakeProxyService,
    delivery: BusEvent,
    loading: MakeProxyService,
    fresh: MakeProxyService,
)
    requires
        after@ == before.push(added_row(id, req)),
        resynced(stale, delivery, loading, after, fresh),
    ensures
        transition(Phase::Idle, DBEvent::Command(DBMessage::Add(req))) == (
            Phase::Inserting,
            seq![DBAction::Store(StoreOp::Insert(req))],
        ),
        transition(Phase::Inserting, DBEvent::Store(StoreResult::Done)) == (
            Phase::Confirming,
            seq![DBAction::Store(StoreOp::LoadAll)],
        ),
        transition(Phase::Confirming, DBEvent::Store(StoreResult::Rows(after))) == (
            Phase::Idle,
            seq![DBAction::Added(id), DBAction::Notify],
        ),
        transition(Phase::Idle, DBEvent::Command(DBMessage::GetALl)) == (
            Phase::Listing,
            seq![DBAction::Store(StoreOp::LoadAll)],
        ),
        transition(Phase::Listing, DBEvent::Store(StoreResult::Rows(after))) == (
            Phase::Idle,
            seq![DBAction::Tunnels(after)],
        ),
        after@.contains(added_row(id, req)),
        fresh.cache().listing() == views_of(after@),
        stale.policy() == DuplicatePolicy::LastWins || !has_row_for(views_of(before), req.from@)
            ==> leads_to(fresh.cache().mapping(), req.from@, req.to@),
{
    let row = added_row(id, req);
    let n: int = before.len() as int;
    assert(after@[n] == row);
    assert(after@.last() == row);
    let rows = views_of(after@);
    let policy = stale.policy();
    assert(rows[n] == row@);
    if policy == DuplicatePolicy::LastWins || !has_row_for(views_of(before), req.from@) {
        assert forall|j: int|
            0 <= j < rows.len() && (#[trigger] rows[j]).domain_from
                == req.from@ implies match policy {
            DuplicatePolicy::LastWins => j <= n,
            DuplicatePolicy::FirstWins => n <= j,
        } by {
            if policy == DuplicatePolicy::FirstWins && j < n {
                assert(views_of(before)[j] == rows[j]);
                assert(has_row_for(views_of(before), req.from@));
            }
        }
        assert(decides(rows, policy, req.from@, n));
        lemma_mapping_at(rows, policy, req.from@, n);
    }
}

/// Deletion. The actor deletes the rule and, once the delete is committed,
/// announces the change. What a `GetALl` answers afterwards holds no rule
/// with the removed id. Once the synchronizer has loaded those rows, a source
/// domain that only removed rows led anywhere from has left the mapping, and
/// a request for it goes to the local handler. (A source domain that another
/// row still names stays in the mapping: the store allows such rows.)
pub proof fn law_remove_takes_effect(
    before: Seq<Tunnel>,
    id: i32,
    after: Vec<Tunnel>,
    stale: MakeProxyService,
    delivery: BusEvent,
    loading: MakeProxyService,
    fresh: MakeProxyService,
    req: RequestView,
)
    requires
        after@ == before.filter(|t: Tunnel| t.id != id),
        resynced(stale, delivery, loading, after, fresh),
        req.host is Some,
        forall|i: int|
            0 <= i < before.len() && (#[trigger] before[i]).domain_from@ == lookup_key(
                req.host->0,
            ) ==> before[i].id == id,
    ensures
        transition(Phase::Idle, DBEvent::Command(DBMessage::Remove(id))) == (
            Phase::Removing,
            seq![DBAction::Store(StoreOp::Delete(id))],
        ),
        transition(Phase::Removing, DBEvent::Store(StoreResult::Done)) == (
            Phase::Idle,
            seq![DBAction::Notify],
        ),
        forall|i: int| 0 <= i < after@.len() ==> (#[trigger] after@[i]).id != id,
        fresh.cache().listing() == views_of(after@),
        !fresh.cache().mapping().contains_key(lookup_key(req.host->0)),
        dispatch_of(fresh.cache().mapping(), req) == DispatchView::Local(
            local_action(req.method, req.path),
        ),
{
    let keep = |t: Tunnel| t.id != id;
    let key = lookup_key(req.host->0);
    broadcast use vstd::seq_lib::group_filter_ensures;

    assert forall|i: int| 0 <= i < after@.len() implies (#[trigger] after@[i]).id != id by {
        assert(keep(after@[i]));
    }
    let rows = views_of(after@);
    if has_row_for(rows, key) {
        let w: int = choose|w: int| 0 <= w < rows.len() && (#[trigger] rows[w]).domain_from == key;
        assert(rows[w] == after@[w]@);
        assert(keep(after@[w]));
        assert(before.filter(keep).contains(after@[w]));
        before.lemma_filter_contains_rev(keep, after@[w]);
        let b: int = choose|b: int| 0 <= b < before.len() && before[b] == after@[w];
        assert(before[b].domain_from@ == key);
        assert(false);
    }
}

/// Idempotent resync. Two resynchronizations install the same content when
/// the store did not change between the two reads: what is installed depends
/// on the rows alone, not on how many change events there were, nor on
/// whether the synchronizer had fallen behind.
pub proof fn law_resync_is_idempotent(
    s0: MakeProxyService,
    first_delivery: BusEvent,
    s1: MakeProxyService,
    first_read: Vec<Tunnel>,
    s2: MakeProxyService,
    second_delivery: BusEvent,
    s3: MakeProxyService,
    second_read: Vec<Tunnel>,
    s4: MakeProxyService,
)
    requires
        resynced(s0, first_delivery, s1, first_read, s2),
        resynced(s2, second_delivery, s3, second_read, s4),
        views_of(first_read@) == views_of(second_read@),
    ensures
        s4.cache().listing() == s2.cache().listing(),
        s4.cache().mapping() == s2.cache().mapping(),
        table_map(s4.cache().entries()) == table_map(s2.cache().entries()),
        forall|req: RequestView| #[trigger]
            dispatch_of(s4.cache().mapping(), req) == dispatch_of(s2.cache().mapping(), req),
{
}

/// A change event and the notice of having fallen behind are answered alike,
/// by a full read; neither stops the synchronizer.
pub proof fn law_lag_is_a_signal(pre: MakeProxyService, post: MakeProxyService, action: SyncAction)
    requires
        pre.wf(),
        pre.phase() == SyncPhase::Listening,
        sync_step(pre, SyncEvent::Bus(BusEvent::Lagged), post, action),
    ensures
        action == SyncAction::Load,
        post.phase() == SyncPhase::Loading,
        sync_step(pre, SyncEvent::Bus(BusEvent::Changed), post, action),
{
}

/// One target per key, and one generation per snapshot. In every well-formed
/// snapshot the lookup table names no source domain twice, each of its
/// entries is what the mapping holds for its source, every key of the mapping
/// has its entry, so that the mapping has as many keys as the table has
/// entries, and the mapping is the one that the snapshot's own listing stands
/// for.
pub proof fn law_one_target_per_key(snapshot: Snapshot)
    requires
        snapshot.wf(),
    ensures
        distinct_sources(snapshot.entries()),
        forall|i: int|
            0 <= i < snapshot.entries().len() ==> leads_to(
                snapshot.mapping(),
                (#[trigger] snapshot.entries()[i]).0,
                snapshot.entries()[i].1,
            ),
        forall|key: Seq<char>| #[trigger]
            snapshot.mapping().contains_key(key) ==> has_entry_for(snapshot.entries(), key),
        snapshot.mapping().dom().finite(),
        snapshot.mapping().dom().len() == snapshot.entries().len(),
        snapshot.mapping() == mapping_of(snapshot.listing(), snapshot.policy()),
{
    let entries = snapshot.entries();
    lemma_table_size(entries);
    assert forall|i: int| 0 <= i < entries.len() implies leads_to(
        snapshot.mapping(),
        (#[trigger] entries[i]).0,
        entries[i].1,
    ) by {
        lemma_table_entry(entries, i);
    }
    assert forall|key: Seq<char>| #[trigger]
        snapshot.mapping().contains_key(key) implies has_entry_for(entries, key) by {
        assert(table_map(entries).contains_key(key));
    }
}

/// What the mapping of a listing holds: its keys are the source domains that
/// have a row, and each leads to the target of the row that decides for it.
pub proof fn law_mapping_follows_listing(
    rows: Seq<TunnelView>,
    policy: DuplicatePolicy,
    key: Seq<char>,
)
    ensures
        mapping_of(rows, policy).contains_key(key) <==> has_row_for(rows, key),
        has_row_for(rows, key) ==> exists|i: int| #[trigger]
            decides(rows, policy, key, i) && mapping_of(rows, policy)[key] == rows[i].domain_to,
{
    if has_row_for(rows, key) {
        let i: int = lemma_decider_exists(rows, policy, key);
        lemma_mapping_at(rows, policy, key, i);
    }
}

/// Forwarding. A request whose lookup key the mapping knows is never handled
/// locally. It goes to the mapped target over plain HTTP with its path and
/// query unchanged, and the upstream is told the target authority as `Host`;
/// only a target that makes no URI turns it into a gateway failure.
pub proof fn law_match_is_forwarded(mapping: Map<Seq<char>, Seq<char>>, req: RequestView)
    requires
        req.host is Some,
        mapping.contains_key(lookup_key(req.host->0)),
    ensures
        ({
            let target = mapping[lookup_key(req.host->0)];
            let uri = upstream_uri(target, req.path, req.query);
            dispatch_of(mapping, req) == if uri_parses(uri) {
                DispatchView::Forward { uri, host: target }
            } else {
                DispatchView::Reject(StockResponse::BadGateway)
            }
        }),
        !(dispatch_of(mapping, req) is Local),
{
}

/// No-match fallback. A request is handed to the local handler exactly when
/// it has a usable `Host` whose lookup key the mapping does not know; it is
/// then never forwarded.
pub proof fn law_no_match_goes_local(mapping: Map<Seq<char>, Seq<char>>, req: RequestView)
    ensures
        dispatch_of(mapping, req) is Local <==> req.host is Some && !mapping.contains_key(
            lookup_key(req.host->0),
        ),
        dispatch_of(mapping, req) is Local ==> dispatch_of(mapping, req) == DispatchView::Local(
            local_action(req.method, req.path),
        ),
        dispatch_of(mapping, req) is Forward ==> req.host is Some && mapping.contains_key(
            lookup_key(req.host->0),
        ),
        req.host is None ==> dispatch_of(mapping, req) == DispatchView::Reject(
            StockResponse::BadRequest,
        ),
{
}

/// Submission order. Two `Add` commands served one after the other are
/// answered with ids in that order, and every later read that lists by
/// ascending id shows the two rules in that order too.
pub proof fn law_submission_order(
    before: Seq<Tunnel>,
    first: AddReq,
    first_id: i32,
    after_first: Vec<Tunnel>,
    second: AddReq,
    second_id: i32,
    after_second: Vec<Tunnel>,
    later: Vec<Tunnel>,
    i: int,
    j: int,
)
    requires
        after_first@ == before.push(added_row(first_id, first)),
        after_second@ == after_first@.push(added_row(second_id, second)),
        ascending_ids(views_of(after_second@)),
        ascending_ids(views_of(later@)),
        0 <= i < later@.len(),
        0 <= j < later@.len(),
        later@[i].id == first_id,
        later@[j].id == second_id,
    ensures
        transition(Phase::Confirming, DBEvent::Store(StoreResult::Rows(after_first))) == (
            Phase::Idle,
            seq![DBAction::Added(first_id), DBAction::Notify],
        ),
        transition(Phase::Confirming, DBEvent::Store(StoreResult::Rows(after_second))) == (
            Phase::Idle,
            seq![DBAction::Added(second_id), DBAction::Notify],
        ),
        first_id < second_id,
        i < j,
{
    let n: int = before.len() as int;
    assert(after_first@.last() == added_row(first_id, first));
    assert(after_second@.last() == added_row(second_id, second));
    assert(after_second@[n] == added_row(first_id, first));
    assert(after_second@[n + 1] == added_row(second_id, second));
    let rows = views_of(after_second@);
    assert(rows[n].id == first_id);
    assert(rows[n + 1].id == second_id);
    let listed = views_of(later@);
    assert(listed[i].id == first_id);
    assert(listed[j].id == second_id);
    if j <= i {
        if j < i {
            assert(listed[j].id < listed[i].id);
        }
        assert(false);
    }
}

/// The actor serves one command at a time: between taking a command and
/// finishing it, it takes no other. A command that arrives while one is being
/// served ends the actor instead of being served out of turn.
pub proof fn law_one_command_at_a_time(phase: Phase, command: DBMessage)
    requires
        phase != Phase::Idle,
    ensures
        transition(phase, DBEvent::Command(command)).0 == Phase::Stopped,
        phase != Phase::Stopped ==> transition(phase, DBEvent::Command(command)).1
            == seq![DBAction::Terminate],
{
}

/// A failure of the store is fatal: in whatever phase the actor is serving a
/// command, it ends and asks for nothing more.
pub proof fn law_store_failure_is_fatal(phase: Phase)
    requires
        phase != Phase::Stopped,
    ensures
        transition(phase, DBEvent::Store(StoreResult::Failed)) == (
            Phase::Stopped,
            seq![DBAction::Terminate],
        ),
{
}

/// Every subscription brings a change event, after the receiver has been
/// handed out.
pub proof fn law_subscribe_implies_signal()
    ensures
        transition(Phase::Idle, DBEvent::Command(DBMessage::Subscribe)) == (
            Phase::Idle,
            seq![DBAction::Subscribed, DBAction::Notify],
        ),
{
}

/// A value made of anything, a colon and a port of digits is looked up under
/// what stands before that colon. The port may be empty, and what stands
/// before it may hold colons of its own, as a bracketed address does.
pub proof fn law_port_is_stripped(host: Seq<char>, port: Seq<char>)
    requires
        forall|j: int| 0 <= j < port.len() ==> is_port_digit(#[trigger] port[j]),
    ensures
        lookup_key(host + seq![':'] + port) == host,
{
    let value = host + seq![':'] + port;
    let at: int = host.len() as int;
    assert(value[at] == ':');
    assert forall|j: int| at < j < value.len() implies is_port_digit(#[trigger] value[j]) by {
        assert(value[j] == port[j - at - 1]);
    }
    assert(port_suffix_at(value, at));
    lemma_port_suffix_unique(value, at, choose|i: int| port_suffix_at(value, i));
    assert(value.take(at) =~= host);
}

/// A value is looked up as it is when its last colon, if it has one, is
/// followed by something that is not a digit: index `k` holds such a
/// character, and no colon comes after it.
pub proof fn law_value_without_port_is_kept(host: Seq<char>, k: int)
    requires
        0 <= k < host.len(),
        host[k] != ':',
        !is_port_digit(host[k]),
        forall|j: int| k < j < host.len() ==> #[trigger] host[j] != ':',
    ensures
        lookup_key(host) == host,
{
    assert forall|i: int| !port_suffix_at(host, i) by {
        if port_suffix_at(host, i) {
            if i < k {
                assert(is_port_digit(host[k]));
            } else if i > k {
                assert(host[i] != ':');
            }
        }
    }
}

/// A value without a colon is looked up as it is.
pub proof fn law_value_without_colon_is_kept(host: Seq<char>)
    requires
        forall|j: int| 0 <= j < host.len() ==> #[trigger] host[j] != ':',
    ensures
        lookup_key(host) == host,
{
    assert forall|i: int| !port_suffix_at(host, i) by {
        if port_suffix_at(host, i) {
            assert(host[i] != ':');
        }
    }
}

/// The extension of a name made of a stem, a dot and a part without dots is
/// that part.
pub proof fn law_extension_follows_the_last_dot(stem: Seq<char>, ext: Seq<char>)
    requires
        forall|j: int| 0 <= j < ext.len() ==> #[trigger] ext[j] != '.',
    ensures
        extension(stem + seq!['.'] + ext) == ext,
{
    let name = stem + seq!['.'] + ext;
    let at: int = stem.len() as int;
    assert(name[at] == '.');
    assert forall|j: int| at < j < name.len() implies #[trigger] name[j] != '.' by {
        assert(name[j] == ext[j - at - 1]);
    }
    assert(last_dot_at(name, at));
    let w: int = choose|i: int| last_dot_at(name, i);
    if w < at {
        assert(name[at] != '.');
    } else if at < w {
        assert(name[w] != '.');
    }
    assert(name.skip(at + 1) =~= ext);
}

/// A name without a dot is its own extension.
pub proof fn law_extension_without_dot(name: Seq<char>)
    requires
        forall|j: int| 0 <= j < name.len() ==> #[trigger] name[j] != '.',
    ensures
        extension(name) == name,
{
    assert forall|i: int| !last_dot_at(name, i) by {
        if last_dot_at(name, i) {
            assert(name[i] != '.');
        }
    }
}

} // verus!
