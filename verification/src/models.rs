//! The persisted routing rule and its mathematical view.

use vstd::prelude::*;
use vstd::std_specs::cmp::PartialEqSpecImpl;

verus! {

/// A routing rule as the store holds it: requests addressed to `domain_from`
/// are forwarded to `domain_to`. The store assigns `id`; a rule is never
/// changed in place.
#[derive(Debug)]
pub struct Tunnel {
    pub id: i32,
    pub domain_from: String,
    pub domain_to: String,
}

/// What a [`Tunnel`] means in contracts: its id and the characters of its two
/// authorities.
pub struct TunnelView {
    pub id: int,
    pub domain_from: Seq<char>,
    pub domain_to: Seq<char>,
}

impl View for Tunnel {
    type V = TunnelView;

    open spec fn view(&self) -> TunnelView {
        TunnelView {
            id: self.id as int,
            domain_from: self.domain_from@,
            domain_to: self.domain_to@,
        }
    }
}

impl Tunnel {
    /// A rule with the given id and authorities.
    pub fn new(id: i32, domain_from: String, domain_to: String) -> (tunnel: Tunnel)
        ensures
            tunnel == (Tunnel { id, domain_from, domain_to }),
    {
        Tunnel { id, domain_from, domain_to }
    }
}

impl PartialEq for Tunnel {
    fn eq(&self, other: &Tunnel) -> (res: bool) {
        self.id == other.id && self.domain_from == other.domain_from && self.domain_to
            == other.domain_to
    }
}

impl PartialEqSpecImpl for Tunnel {
    open spec fn obeys_eq_spec() -> bool {
        true
    }

    /// Two rules are equal when their ids and the characters of both
    /// authorities are.
    open spec fn eq_spec(&self, other: &Tunnel) -> bool {
        self@ == other@
    }
}

impl Clone for Tunnel {
    fn clone(&self) -> (res: Tunnel)
        ensures
            res == *self,
    {
        Tunnel {
            id: self.id,
            domain_from: self.domain_from.clone(),
            domain_to: self.domain_to.clone(),
        }
    }
}

/// The views of a sequence of rules, in the same order.
pub open spec fn views_of(rows: Seq<Tunnel>) -> Seq<TunnelView> {
    rows.map_values(|t: Tunnel| t@)
}

/// The ids grow strictly from each row to the next: the order in which the
/// store lists its rows, and the reason no id occurs twice.
pub open spec fn ascending_ids(rows: Seq<TunnelView>) -> bool {
    forall|i: int, j: int| 0 <= i < j < rows.len() ==> rows[i].id < rows[j].id
}

} // verus!
