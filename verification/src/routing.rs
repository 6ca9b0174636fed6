//! The routing cache snapshot: the lookup mapping and the full listing, both
//! taken from one read of the store and replaced together.

use crate::models::{views_of, Tunnel, TunnelView};
use vstd::prelude::*;

verus! {

/// Which row decides where a source domain leads when the store holds several
/// rows for it. The store does not forbid such rows, so the choice is the
/// operator's.
#[derive(Clone, Copy, Debug, PartialEq, Eq, Structural)]
pub enum DuplicatePolicy {
    /// The row that comes last in the listing (the one with the greatest id).
    LastWins,
    /// The row that comes first in the listing (the one with the smallest id).
    FirstWins,
}

/// Row `i` is the one that decides what `key` maps to: it is a row for `key`,
/// and under `LastWins` no row for `key` follows it, under `FirstWins` none
/// precedes it.
pub open spec fn decides(
    rows: Seq<TunnelView>,
    policy: DuplicatePolicy,
    key: Seq<char>,
    i: int,
) -> bool {
    &&& 0 <= i < rows.len()
    &&& rows[i].domain_from == key
    &&& forall|j: int|
        0 <= j < rows.len() && (#[trigger] rows[j]).domain_from == key ==> match policy {
            DuplicatePolicy::LastWins => j <= i,
            DuplicatePolicy::FirstWins => i <= j,
        }
}

/// Some row is a row for `key`.
pub open spec fn has_row_for(rows: Seq<TunnelView>, key: Seq<char>) -> bool {
    exists|i: int| 0 <= i < rows.len() && (#[trigger] rows[i]).domain_from == key
}

/// The mapping that a listing stands for: every source domain that has a row
/// leads to the target of the row that decides for it.
pub open spec fn mapping_of(rows: Seq<TunnelView>, policy: DuplicatePolicy) -> Map<
    Seq<char>,
    Seq<char>,
> {
    Map::new(
        |key: Seq<char>| has_row_for(rows, key),
        |key: Seq<char>| rows[choose|i: int| decides(rows, policy, key, i)].domain_to,
    )
}

/// At most one row decides for a key.
pub proof fn lemma_decides_unique(
    rows: Seq<TunnelView>,
    policy: DuplicatePolicy,
    key: Seq<char>,
    i: int,
    j: int,
)
    requires
        decides(rows, policy, key, i),
        decides(rows, policy, key, j),
    ensures
        i == j,
{
    assert(rows[i].domain_from == key);
    assert(rows[j].domain_from == key);
}

/// Every key that has a row has a row that decides for it.
pub proof fn lemma_decider_exists(
    rows: Seq<TunnelView>,
    policy: DuplicatePolicy,
    key: Seq<char>,
) -> (i: int)
    requires
        has_row_for(rows, key),
    ensures
        decides(rows, policy, key, i),
    decreases rows.len(),
{
    let n: int = rows.len() as int;
    let front = rows.drop_last();
    assert forall|j: int| 0 <= j < n - 1 implies front[j] == rows[j] by {}
    if has_row_for(front, key) {
        let k: int = lemma_decider_exists(front, policy, key);
        assert(front[k] == rows[k]);
        if policy == DuplicatePolicy::LastWins && rows[n - 1].domain_from == key {
            n - 1
        } else {
            assert forall|j: int|
                0 <= j < rows.len() && (#[trigger] rows[j]).domain_from == key implies match policy
            {
                DuplicatePolicy::LastWins => j <= k,
                DuplicatePolicy::FirstWins => k <= j,
            } by {
                if j < n - 1 {
                    assert(front[j] == rows[j]);
                }
            }
            k
        }
    } else {
        let w: int = choose|w: int| 0 <= w < rows.len() && (#[trigger] rows[w]).domain_from == key;
        if w < n - 1 {
            assert(front[w] == rows[w]);
            assert(false);
        }
        assert forall|j: int|
            0 <= j < rows.len() && (#[trigger] rows[j]).domain_from == key implies j == n - 1 by {
            if j < n - 1 {
                assert(front[j] == rows[j]);
            }
        }
        n - 1
    }
}

/// What the mapping holds for the key of the row that decides for it.
pub proof fn lemma_mapping_at(
    rows: Seq<TunnelView>,
    policy: DuplicatePolicy,
    key: Seq<char>,
    i: int,
)
    requires
        decides(rows, policy, key, i),
    ensures
        mapping_of(rows, policy).contains_key(key),
        mapping_of(rows, policy)[key] == rows[i].domain_to,
{
    assert(rows[i].domain_from == key);
    let c: int = choose|c: int| decides(rows, policy, key, c);
    lemma_decides_unique(rows, policy, key, i, c);
}

/// A listing without rows stands for the empty mapping.
pub proof fn lemma_mapping_of_empty(policy: DuplicatePolicy)
    ensures
        mapping_of(Seq::<TunnelView>::empty(), policy) == Map::<Seq<char>, Seq<char>>::empty(),
{
    assert(mapping_of(Seq::<TunnelView>::empty(), policy) =~= Map::<
        Seq<char>,
        Seq<char>,
    >::empty());
}

/// How the mapping changes when one row is added behind a listing: under
/// `LastWins` the new row takes its key over; under `FirstWins` it does so
/// only where the key had no row yet.
pub proof fn lemma_mapping_of_push(rows: Seq<TunnelView>, policy: DuplicatePolicy, row: TunnelView)
    ensures
        mapping_of(rows.push(row), policy) == if policy == DuplicatePolicy::FirstWins && mapping_of(
            rows,
            policy,
        ).contains_key(row.domain_from) {
            mapping_of(rows, policy)
        } else {
            mapping_of(rows, policy).insert(row.domain_from, row.domain_to)
        },
{
    let more = rows.push(row);
    let n: int = rows.len() as int;
    let old_map = mapping_of(rows, policy);
    let new_map = mapping_of(more, policy);
    let keeps = policy == DuplicatePolicy::FirstWins && old_map.contains_key(row.domain_from);
    let expected = if keeps {
        old_map
    } else {
        old_map.insert(row.domain_from, row.domain_to)
    };
    assert forall|j: int| 0 <= j < n implies more[j] == rows[j] by {}
    assert(more[n] == row);
    assert forall|key: Seq<char>| new_map.contains_key(key) <==> expected.contains_key(key) by {
        if has_row_for(more, key) {
            let w: int = choose|w: int|
                0 <= w < more.len() && (#[trigger] more[w]).domain_from == key;
            if w < n {
                assert(rows[w] == more[w]);
                assert(has_row_for(rows, key));
            }
        }
        if has_row_for(rows, key) {
            let w: int = choose|w: int|
                0 <= w < rows.len() && (#[trigger] rows[w]).domain_from == key;
            assert(more[w] == rows[w]);
            assert(has_row_for(more, key));
        }
        if key == row.domain_from {
            assert(more[n].domain_from == key);
            assert(has_row_for(more, key));
        }
    }
    assert forall|key: Seq<char>| new_map.contains_key(key) implies new_map[key]
        == expected[key] by {
        let d: int = lemma_decider_exists(more, policy, key);
        lemma_mapping_at(more, policy, key, d);
        if d < n {
            // An earlier row still decides; it decided before as well.
            assert(rows[d] == more[d]);
            assert forall|j: int|
                0 <= j < rows.len() && (#[trigger] rows[j]).domain_from == key implies match policy
            {
                DuplicatePolicy::LastWins => j <= d,
                DuplicatePolicy::FirstWins => d <= j,
            } by {
                assert(more[j] == rows[j]);
            }
            assert(decides(rows, policy, key, d));
            lemma_mapping_at(rows, policy, key, d);
            if key == row.domain_from {
                assert(more[n].domain_from == key);
                assert(policy == DuplicatePolicy::FirstWins);
            }
        } else {
            // The new row decides.
            assert(key == row.domain_from);
            if has_row_for(rows, key) {
                let w: int = choose|w: int|
                    0 <= w < rows.len() && (#[trigger] rows[w]).domain_from == key;
                assert(more[w] == rows[w]);
                assert(policy == DuplicatePolicy::LastWins);
            }
        }
    }
    assert(new_map =~= expected);
}

/// One entry of the lookup table.
struct Route {
    from: String,
    to: String,
}

/// The entries of a lookup table as pairs of source and target.
spec fn pairs_of(routes: Seq<Route>) -> Seq<(Seq<char>, Seq<char>)> {
    routes.map_values(|r: Route| (r.from@, r.to@))
}

/// No source occurs in two entries.
pub open spec fn distinct_sources(entries: Seq<(Seq<char>, Seq<char>)>) -> bool {
    forall|i: int, j: int|
        0 <= i < j < entries.len() ==> (#[trigger] entries[i]).0 != (#[trigger] entries[j]).0
}

/// Some entry has `key` as its source.
pub open spec fn has_entry_for(entries: Seq<(Seq<char>, Seq<char>)>, key: Seq<char>) -> bool {
    exists|i: int| 0 <= i < entries.len() && (#[trigger] entries[i]).0 == key
}

/// The mapping that a lookup table stands for.
pub open spec fn table_map(entries: Seq<(Seq<char>, Seq<char>)>) -> Map<Seq<char>, Seq<char>> {
    Map::new(
        |key: Seq<char>| has_entry_for(entries, key),
        |key: Seq<char>|
            entries[choose|i: int| 0 <= i < entries.len() && (#[trigger] entries[i]).0 == key].1,
    )
}

/// In a table without repeated sources, each entry is what the mapping holds
/// for its source.
pub proof fn lemma_table_entry(entries: Seq<(Seq<char>, Seq<char>)>, i: int)
    requires
        distinct_sources(entries),
        0 <= i < entries.len(),
    ensures
        table_map(entries).contains_key(entries[i].0),
        table_map(entries)[entries[i].0] == entries[i].1,
{
    let key = entries[i].0;
    assert(has_entry_for(entries, key));
    let c: int = choose|c: int| 0 <= c < entries.len() && (#[trigger] entries[c]).0 == key;
    if c < i {
        assert(entries[c].0 != entries[i].0);
    } else if i < c {
        assert(entries[i].0 != entries[c].0);
    }
}

/// A table without repeated sources stands for a finite mapping with as many
/// keys as the table has entries.
pub proof fn lemma_table_size(entries: Seq<(Seq<char>, Seq<char>)>)
    requires
        distinct_sources(entries),
    ensures
        table_map(entries).dom().finite(),
        table_map(entries).dom().len() == entries.len(),
{
    let sources = entries.map_values(|e: (Seq<char>, Seq<char>)| e.0);
    assert forall|i: int, j: int|
        0 <= i < sources.len() && 0 <= j < sources.len() && i != j implies sources[i]
        != sources[j] by {
        if i < j {
            assert(entries[i].0 != entries[j].0);
        } else {
            assert(entries[j].0 != entries[i].0);
        }
    }
    assert forall|key: Seq<char>| sources.to_set().contains(key) <==> table_map(
        entries,
    ).dom().contains(key) by {
        if sources.contains(key) {
            let i: int = choose|i: int| 0 <= i < sources.len() && sources[i] == key;
            assert(entries[i].0 == key);
            assert(has_entry_for(entries, key));
        }
        if has_entry_for(entries, key) {
            let i: int = choose|i: int| 0 <= i < entries.len() && (#[trigger] entries[i]).0 == key;
            assert(sources[i] == key);
        }
    }
    assert(sources.to_set() =~= table_map(entries).dom());
    sources.unique_seq_to_set();
    vstd::seq_lib::seq_to_set_is_finite(sources);
}

proof fn lemma_table_push(entries: Seq<(Seq<char>, Seq<char>)>, key: Seq<char>, target: Seq<char>)
    requires
        distinct_sources(entries),
        !has_entry_for(entries, key),
    ensures
        distinct_sources(entries.push((key, target))),
        table_map(entries.push((key, target))) == table_map(entries).insert(key, target),
{
    let more = entries.push((key, target));
    let n = entries.len() as int;
    assert forall|j: int| 0 <= j < n implies more[j] == entries[j] by {}
    assert forall|i: int, j: int| 0 <= i < j < more.len() implies (#[trigger] more[i]).0 != (
    #[trigger] more[j]).0 by {
        assert(more[i] == entries[i]);
        if j < n {
            assert(more[j] == entries[j]);
        } else {
            assert(entries[i].0 != key);
        }
    }
    let expected = table_map(entries).insert(key, target);
    assert forall|k: Seq<char>| table_map(more).contains_key(k) <==> expected.contains_key(k) by {
        if has_entry_for(more, k) {
            let w: int = choose|w: int| 0 <= w < more.len() && (#[trigger] more[w]).0 == k;
            if w < n {
                assert(entries[w] == more[w]);
                assert(has_entry_for(entries, k));
            }
        }
        if has_entry_for(entries, k) {
            let w: int = choose|w: int| 0 <= w < entries.len() && (#[trigger] entries[w]).0 == k;
            assert(more[w] == entries[w]);
            assert(has_entry_for(more, k));
        }
        if k == key {
            assert(more[n].0 == k);
            assert(has_entry_for(more, k));
        }
    }
    assert forall|k: Seq<char>| table_map(more).contains_key(k) implies table_map(more)[k]
        == expected[k] by {
        let w: int = choose|w: int| 0 <= w < more.len() && (#[trigger] more[w]).0 == k;
        lemma_table_entry(more, w);
        if w < n {
            assert(entries[w] == more[w]);
            lemma_table_entry(entries, w);
        }
    }
    assert(table_map(more) =~= expected);
}

proof fn lemma_table_update(entries: Seq<(Seq<char>, Seq<char>)>, p: int, target: Seq<char>)
    requires
        distinct_sources(entries),
        0 <= p < entries.len(),
    ensures
        distinct_sources(entries.update(p, (entries[p].0, target))),
        table_map(entries.update(p, (entries[p].0, target))) == table_map(entries).insert(
            entries[p].0,
            target,
        ),
{
    let key = entries[p].0;
    let changed = entries.update(p, (key, target));
    assert forall|j: int| 0 <= j < entries.len() implies (#[trigger] changed[j]).0
        == entries[j].0 by {}
    assert forall|i: int, j: int| 0 <= i < j < changed.len() implies (#[trigger] changed[i]).0 != (
    #[trigger] changed[j]).0 by {
        assert(changed[i].0 == entries[i].0);
        assert(changed[j].0 == entries[j].0);
    }
    let expected = table_map(entries).insert(key, target);
    assert forall|k: Seq<char>| table_map(changed).contains_key(k) <==> expected.contains_key(
        k,
    ) by {
        if has_entry_for(changed, k) {
            let w: int = choose|w: int| 0 <= w < changed.len() && (#[trigger] changed[w]).0 == k;
            assert(changed[w].0 == entries[w].0);
            assert(has_entry_for(entries, k));
        }
        if has_entry_for(entries, k) {
            let w: int = choose|w: int| 0 <= w < entries.len() && (#[trigger] entries[w]).0 == k;
            assert(changed[w].0 == entries[w].0);
            assert(has_entry_for(changed, k));
        }
        assert(entries[p].0 == key);
        assert(has_entry_for(entries, key));
    }
    assert forall|k: Seq<char>| table_map(changed).contains_key(k) implies table_map(changed)[k]
        == expected[k] by {
        let w: int = choose|w: int| 0 <= w < changed.len() && (#[trigger] changed[w]).0 == k;
        lemma_table_entry(changed, w);
        assert(changed[w].0 == entries[w].0);
        lemma_table_entry(entries, w);
        if w != p {
            assert(changed[w] == entries[w]);
            if w < p {
                assert(entries[w].0 != entries[p].0);
            } else {
                assert(entries[p].0 != entries[w].0);
            }
        }
    }
    assert(table_map(changed) =~= expected);
}

/// The index of the entry for `key`, if the table has one.
fn position(routes: &Vec<Route>, key: &String) -> (found: Option<usize>)
    ensures
        match found {
            Some(p) => p < routes.len() && routes[p as int].from@ == key@,
            None => !has_entry_for(pairs_of(routes@), key@),
        },
{
    let mut i: usize = 0;
    while i < routes.len()
        invariant
            i <= routes.len(),
            forall|j: int| 0 <= j < i ==> (#[trigger] routes[j]).from@ != key@,
        decreases routes.len() - i,
    {
        if routes[i].from == *key {
            return Some(i);
        }
        i = i + 1;
    }
    proof {
        let entries = pairs_of(routes@);
        assert forall|j: int| 0 <= j < entries.len() implies (#[trigger] entries[j]).0 != key@ by {
            assert(entries[j].0 == routes[j].from@);
        }
    }
    None
}

/// One generation of the routing cache. The mapping is always the one that
/// the listing stands for, so a reader can never pair the mapping of one read
/// with the listing of another.
///
/// The lookup table is a vector with one entry for each source domain, in the
/// order in which the domains first occur in the listing. A lookup compares
/// the key with each entry in turn.
pub struct Snapshot {
    routes: Vec<Route>,
    tunnels: Vec<Tunnel>,
    policy: DuplicatePolicy,
}

impl Snapshot {
    /// The full listing, in the order of the read it was taken from.
    pub closed spec fn listing(&self) -> Seq<TunnelView> {
        views_of(self.tunnels@)
    }

    /// The policy the mapping was built under.
    pub closed spec fn policy(&self) -> DuplicatePolicy {
        self.policy
    }

    /// The entries of the lookup table, as pairs of source and target.
    pub closed spec fn entries(&self) -> Seq<(Seq<char>, Seq<char>)> {
        pairs_of(self.routes@)
    }

    /// The lookup mapping from source domain to target authority.
    pub open spec fn mapping(&self) -> Map<Seq<char>, Seq<char>> {
        mapping_of(self.listing(), self.policy())
    }

    /// The lookup table holds no source twice and stands for exactly the
    /// mapping of the listing. This holds of every snapshot that exists at
    /// run time.
    #[verifier::type_invariant]
    pub open spec fn wf(&self) -> bool {
        &&& distinct_sources(self.entries())
        &&& table_map(self.entries()) == self.mapping()
    }

    /// The snapshot of an empty store.
    pub fn empty(policy: DuplicatePolicy) -> (snapshot: Snapshot)
        ensures
            snapshot.wf(),
            snapshot.policy() == policy,
            snapshot.listing() == Seq::<TunnelView>::empty(),
            snapshot.mapping() == Map::<Seq<char>, Seq<char>>::empty(),
    {
        let routes: Vec<Route> = Vec::new();
        let tunnels: Vec<Tunnel> = Vec::new();
        proof {
            lemma_mapping_of_empty(policy);
            assert(views_of(tunnels@) =~= Seq::<TunnelView>::empty());
            assert(pairs_of(routes@) =~= Seq::<(Seq<char>, Seq<char>)>::empty());
            assert(table_map(pairs_of(routes@)) =~= Map::<Seq<char>, Seq<char>>::empty());
        }
        Snapshot { routes, tunnels, policy }
    }

    /// Builds the snapshot of one read of the store: the listing is the rows as
    /// read, the mapping the one they stand for under `policy`.
    pub fn build(rows: Vec<Tunnel>, policy: DuplicatePolicy) -> (snapshot: Snapshot)
        ensures
            snapshot.wf(),
            snapshot.policy() == policy,
            snapshot.listing() == views_of(rows@),
            snapshot.mapping() == mapping_of(views_of(rows@), policy),
    {
        let mut routes: Vec<Route> = Vec::new();
        let mut i: usize = 0;
        proof {
            lemma_mapping_of_empty(policy);
            assert(views_of(rows@.take(0)) =~= Seq::<TunnelView>::empty());
            assert(pairs_of(routes@) =~= Seq::<(Seq<char>, Seq<char>)>::empty());
            assert(table_map(pairs_of(routes@)) =~= Map::<Seq<char>, Seq<char>>::empty());
        }
        while i < rows.len()
            invariant
                i <= rows.len(),
                distinct_sources(pairs_of(routes@)),
                table_map(pairs_of(routes@)) == mapping_of(views_of(rows@.take(i as int)), policy),
            decreases rows.len() - i,
        {
            let ghost entries = pairs_of(routes@);
            let ghost seen = views_of(rows@.take(i as int));
            let row = &rows[i];
            proof {
                assert(views_of(rows@.take(i + 1)) =~= seen.push(row@));
                lemma_mapping_of_push(seen, policy, row@);
            }
            match position(&routes, &row.domain_from) {
                Some(p) => {
                    proof {
                        assert(entries[p as int].0 == row.domain_from@);
                        lemma_table_entry(entries, p as int);
                    }
                    match policy {
                        DuplicatePolicy::LastWins => {
                            let from = row.domain_from.clone();
                            let to = row.domain_to.clone();
                            routes.set(p, Route { from, to });
                            proof {
                                lemma_table_update(entries, p as int, row.domain_to@);
                                assert(pairs_of(routes@) =~= entries.update(
                                    p as int,
                                    (entries[p as int].0, row.domain_to@),
                                ));
                            }
                        },
                        DuplicatePolicy::FirstWins => {},
                    }
                },
                None => {
                    let from = row.domain_from.clone();
                    let to = row.domain_to.clone();
                    routes.push(Route { from, to });
                    proof {
                        lemma_table_push(entries, row.domain_from@, row.domain_to@);
                        assert(pairs_of(routes@) =~= entries.push(
                            (row.domain_from@, row.domain_to@),
                        ));
                    }
                },
            }
            i = i + 1;
        }
        assert(rows@.take(rows.len() as int) =~= rows@);
        Snapshot { routes, tunnels: rows, policy }
    }

    /// The target authority that `key` leads to, if the mapping has one. The
    /// comparison is exact and case-sensitive.
    pub fn target(&self, key: &String) -> (found: Option<&String>)
        ensures
            match found {
                Some(target) => self.mapping().contains_key(key@) && target@
                    == self.mapping()[key@],
                None => !self.mapping().contains_key(key@),
            },
    {
        match position(&self.routes, key) {
            Some(p) => {
                proof {
                    use_type_invariant(self);
                    assert(self.entries()[p as int] == (
                        self.routes[p as int].from@,
                        self.routes[p as int].to@,
                    ));
                    lemma_table_entry(self.entries(), p as int);
                }
                Some(&self.routes[p].to)
            },
            None => {
                proof {
                    use_type_invariant(self);
                }
                None
            },
        }
    }

    /// The full listing, for the administrative display.
    pub fn tunnels(&self) -> (rows: &Vec<Tunnel>)
        ensures
            views_of(rows@) == self.listing(),
    {
        &self.tunnels
    }

    /// The number of source domains that lead somewhere.
    pub fn route_count(&self) -> (n: usize)
        ensures
            self.mapping().dom().finite(),
            n == self.mapping().dom().len(),
            n == self.entries().len(),
    {
        proof {
            use_type_invariant(self);
            lemma_table_size(self.entries());
        }
        self.routes.len()
    }
}

} // verus!
