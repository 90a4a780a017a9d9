//! The watched address set of one exchange and the classification of a
//! transfer against it.

use std::collections::HashMap;
use vstd::prelude::*;
use crate::types::{fingerprint_of, Address, Direction};

verus! {

broadcast use vstd::std_specs::hash::group_hash_axioms;

/// The set of addresses that a list of addresses holds.
pub open spec fn address_set(addrs: Seq<Address>) -> Set<Seq<u8>> {
    Set::new(|a: Seq<u8>| exists|j: int| 0 <= j < addrs.len() && #[trigger] addrs[j]@ == a)
}

/// Whether the bucket of `a`'s fingerprint holds `a`.
spec fn bucket_holds(buckets: Map<u64, Vec<Address>>, a: Seq<u8>) -> bool {
    let f = fingerprint_of(a);
    buckets.contains_key(f) && exists|i: int|
        0 <= i < buckets[f]@.len() && #[trigger] buckets[f]@[i]@ == a
}

/// The known wallets of one exchange: fixed once built, and never empty.
///
/// Addresses are kept in buckets keyed by a 64-bit fingerprint, so that a
/// membership test looks at one bucket only.
pub struct WatchedAddressSet {
    buckets: HashMap<u64, Vec<Address>>,
    first: Address,
}

impl View for WatchedAddressSet {
    type V = Set<Seq<u8>>;

    closed spec fn view(&self) -> Set<Seq<u8>> {
        Set::new(|a: Seq<u8>| bucket_holds(self.buckets@, a))
    }
}

/// Looks for `a` in one bucket.
fn bucket_contains(bucket: &Vec<Address>, a: &Address) -> (found: bool)
    ensures
        found == exists|i: int| 0 <= i < bucket@.len() && #[trigger] bucket@[i]@ == a@,
{
    let mut i: usize = 0;
    while i < bucket.len()
        invariant
            i <= bucket@.len(),
            forall|j: int| 0 <= j < i ==> #[trigger] bucket@[j]@ != a@,
        decreases bucket@.len() - i,
    {
        if bucket[i] == *a {
            return true;
        }
        i += 1;
    }
    false
}

/// Whether the buckets hold `a`.
fn buckets_contain(buckets: &HashMap<u64, Vec<Address>>, a: &Address) -> (found: bool)
    ensures
        found == bucket_holds(buckets@, a@),
{
    let f = a.fingerprint();
    match buckets.get(&f) {
        Some(bucket) => bucket_contains(bucket, a),
        None => false,
    }
}

/// Adds `a` to the bucket of its fingerprint.
fn buckets_insert(buckets: &mut HashMap<u64, Vec<Address>>, a: Address)
    ensures
        forall|b: Seq<u8>|
            bucket_holds(final(buckets)@, b) <==> (bucket_holds(old(buckets)@, b) || b == a@),
{
    let f = a.fingerprint();
    let mut bucket = match buckets.remove(&f) {
        Some(bucket) => bucket,
        None => Vec::new(),
    };
    let ghost before = bucket@;
    bucket.push(a);
    buckets.insert(f, bucket);
    assert forall|b: Seq<u8>|
        bucket_holds(buckets@, b) <==> (bucket_holds(old(buckets)@, b) || b == a@) by {
        let g = fingerprint_of(b);
        if g == f {
            let after = buckets@[f]@;
            if bucket_holds(old(buckets)@, b) {
                let i = choose|i: int| 0 <= i < before.len() && #[trigger] before[i]@ == b;
                assert(after[i]@ == b);
            }
            if b == a@ {
                assert(after[before.len() as int]@ == b);
            }
        } else {
            assert(buckets@.contains_key(g) ==> buckets@[g] == old(buckets)@[g]);
        }
    }
}

impl WatchedAddressSet {
    #[verifier::type_invariant]
    spec fn inv(self) -> bool {
        bucket_holds(self.buckets@, self.first@)
    }

    /// Builds the set from the configured addresses. An empty list gives
    /// `None`: a watched set is never empty.
    pub fn new(addrs: &Vec<Address>) -> (made: Option<WatchedAddressSet>)
        ensures
            made is Some <==> addrs@.len() > 0,
            made matches Some(set) ==> set@ == address_set(addrs@),
    {
        if addrs.len() == 0 {
            return None;
        }
        let mut buckets: HashMap<u64, Vec<Address>> = HashMap::new();
        let mut i: usize = 0;
        while i < addrs.len()
            invariant
                i <= addrs@.len(),
                forall|b: Seq<u8>|
                    bucket_holds(buckets@, b) <==> exists|j: int|
                        0 <= j < i && #[trigger] addrs@[j]@ == b,
            decreases addrs@.len() - i,
        {
            let a = addrs[i];
            if !buckets_contain(&buckets, &a) {
                buckets_insert(&mut buckets, a);
            }
            i += 1;
        }
        Some(WatchedAddressSet { buckets, first: addrs[0] })
    }

    /// Whether `a` is one of the watched addresses.
    pub fn contains(&self, a: &Address) -> (found: bool)
        ensures
            found == self@.contains(a@),
    {
        buckets_contain(&self.buckets, a)
    }

    /// One of the watched addresses: the set is never empty.
    pub fn any_member(&self) -> (a: Address)
        ensures
            self@.contains(a@),
    {
        proof {
            use_type_invariant(self);
        }
        self.first
    }
}

/// How a transfer relates to the watched set.
#[derive(Clone, Copy, Debug, PartialEq, Eq, Structural)]
pub enum Classification {
    /// The recipient is watched and the sender is not.
    Inbound,
    /// The sender is watched and the recipient is not.
    Outbound,
    /// Sender and recipient are both watched: an internal transfer.
    Both,
    /// Neither side is watched.
    Irrelevant,
}

/// The classification of a transfer from `from` to `to` against `watched`.
pub open spec fn classification_of(
    from: Seq<u8>,
    to: Seq<u8>,
    watched: Set<Seq<u8>>,
) -> Classification {
    if watched.contains(to) && watched.contains(from) {
        Classification::Both
    } else if watched.contains(to) {
        Classification::Inbound
    } else if watched.contains(from) {
        Classification::Outbound
    } else {
        Classification::Irrelevant
    }
}

/// The direction under which a classified transfer is recorded, if it is
/// recorded at all. An internal transfer is recorded as inbound only: it
/// nets to zero against the same exchange, and counting it on both sides
/// would distort both totals.
pub open spec fn recorded_direction(c: Classification) -> Option<Direction> {
    match c {
        Classification::Inbound => Some(Direction::Inbound),
        Classification::Outbound => Some(Direction::Outbound),
        Classification::Both => Some(Direction::Inbound),
        Classification::Irrelevant => None,
    }
}

/// Classifies a transfer by the membership of its two sides in the watched
/// set.
pub fn classify(from: &Address, to: &Address, watched: &WatchedAddressSet) -> (c: Classification)
    ensures
        c == classification_of(from@, to@, watched@),
{
    let is_in = watched.contains(to);
    let is_out = watched.contains(from);
    if is_in && is_out {
        Classification::Both
    } else if is_in {
        Classification::Inbound
    } else if is_out {
        Classification::Outbound
    } else {
        Classification::Irrelevant
    }
}

impl Classification {
    /// The direction under which the transfer is recorded, or `None` where
    /// it is dropped.
    pub fn direction(self) -> (d: Option<Direction>)
        ensures
            d == recorded_direction(self),
    {
        match self {
            Classification::Inbound => Some(Direction::Inbound),
            Classification::Outbound => Some(Direction::Outbound),
            Classification::Both => Some(Direction::Inbound),
            Classification::Irrelevant => None,
        }
    }
}

/// A transfer is recorded as inbound exactly when its recipient is watched,
/// as outbound exactly when its sender alone is watched, and dropped
/// exactly when neither side is.
pub proof fn lemma_direction_by_membership(from: Seq<u8>, to: Seq<u8>, watched: Set<Seq<u8>>)
    ensures
        watched.contains(to) <==> recorded_direction(classification_of(from, to, watched))
            == Some(Direction::Inbound),
        (watched.contains(from) && !watched.contains(to)) <==> recorded_direction(
            classification_of(from, to, watched),
        ) == Some(Direction::Outbound),
        (!watched.contains(from) && !watched.contains(to)) <==> recorded_direction(
            classification_of(from, to, watched),
        ) is None,
        (!watched.contains(from) && !watched.contains(to)) <==> classification_of(
            from,
            to,
            watched,
        ) == Classification::Irrelevant,
{
}

} // verus!
