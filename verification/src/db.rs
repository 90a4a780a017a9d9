//! The aggregate store: rolling inflow and outflow totals per
//! (exchange, token) pair, the record of applied transfer events, and the
//! progress checkpoint.
//!
//! `Db::insert_transfer_and_update_netflow` is the store's one write path
//! for events. It records the event under its (transaction, log position)
//! key, adds the raw amount to the inflow or outflow total of the
//! aggregate, and raises the checkpoint, all together or not at all; an
//! event whose key is already recorded changes nothing.

use std::collections::HashMap;
use vstd::prelude::*;
use crate::amount::{pow2_256, pow2_320, pow2_64, Amount, Total};
use crate::types::{fingerprint_of, Address, Direction, Hash256, Transfer, TransferView};

verus! {

broadcast use vstd::std_specs::hash::group_hash_axioms;

/// Why the store refused a write.
#[derive(Clone, Copy, Debug, PartialEq, Eq, Structural)]
pub enum StorageError {
    /// A running total would leave its 320-bit range.
    TotalOverflow,
}

/// The larger of two block numbers.
pub open spec fn max_block(a: u64, b: u64) -> u64 {
    if a >= b {
        a
    } else {
        b
    }
}

/// A signed quantity in raw units: a sign and a magnitude.
#[derive(Clone, Copy, Debug)]
pub struct Net {
    pub negative: bool,
    pub magnitude: Total,
}

impl View for Net {
    type V = int;

    open spec fn view(&self) -> int {
        if self.negative {
            -(self.magnitude@ as int)
        } else {
            self.magnitude@ as int
        }
    }
}

/// Rolling totals for one (exchange, token) pair, in raw token units.
#[derive(Clone, Debug)]
pub struct NetflowAggregate {
    pub exchange_id: i64,
    pub token: Address,
    pub symbol: String,
    pub decimals: u8,
    pub cumulative_in: Total,
    pub cumulative_out: Total,
    pub last_block: u64,
}

/// What a `NetflowAggregate` stands for in contracts.
pub struct NetflowAggregateView {
    pub exchange_id: i64,
    pub token: Seq<u8>,
    pub symbol: Seq<char>,
    pub decimals: u8,
    pub cumulative_in: nat,
    pub cumulative_out: nat,
    pub last_block: u64,
}

impl View for NetflowAggregate {
    type V = NetflowAggregateView;

    open spec fn view(&self) -> NetflowAggregateView {
        NetflowAggregateView {
            exchange_id: self.exchange_id,
            token: self.token@,
            symbol: self.symbol@,
            decimals: self.decimals,
            cumulative_in: self.cumulative_in@,
            cumulative_out: self.cumulative_out@,
            last_block: self.last_block,
        }
    }
}

impl NetflowAggregateView {
    /// The key of the aggregate: exchange identifier and token address.
    pub open spec fn key(self) -> (i64, Seq<u8>) {
        (self.exchange_id, self.token)
    }

    /// Cumulative net: inflow minus outflow, computed from the two totals.
    pub open spec fn net(self) -> int {
        self.cumulative_in - self.cumulative_out
    }

    /// The aggregate of a pair that no event has touched yet.
    pub open spec fn zero(
        exchange_id: i64,
        token: Seq<u8>,
        symbol: Seq<char>,
        decimals: u8,
    ) -> NetflowAggregateView {
        NetflowAggregateView {
            exchange_id,
            token,
            symbol,
            decimals,
            cumulative_in: 0,
            cumulative_out: 0,
            last_block: 0,
        }
    }

    /// Whether adding `amount` on the side of `direction` would leave the
    /// range of a total.
    pub open spec fn overflows(self, amount: nat, direction: Direction) -> bool {
        match direction {
            Direction::Inbound => self.cumulative_in + amount >= pow2_320(),
            Direction::Outbound => self.cumulative_out + amount >= pow2_320(),
        }
    }

    /// The aggregate after an event of `amount` in `block_number` has been
    /// counted on the side of `direction`.
    pub open spec fn recorded(
        self,
        amount: nat,
        direction: Direction,
        block_number: u64,
    ) -> NetflowAggregateView {
        NetflowAggregateView {
            cumulative_in: match direction {
                Direction::Inbound => self.cumulative_in + amount,
                Direction::Outbound => self.cumulative_in,
            },
            cumulative_out: match direction {
                Direction::Inbound => self.cumulative_out,
                Direction::Outbound => self.cumulative_out + amount,
            },
            last_block: max_block(self.last_block, block_number),
            ..self
        }
    }
}

impl NetflowAggregate {
    /// A zero-initialised aggregate for the pair.
    pub fn new(exchange_id: i64, token: Address, symbol: String, decimals: u8) -> (row:
        NetflowAggregate)
        ensures
            row@ == NetflowAggregateView::zero(exchange_id, token@, symbol@, decimals),
    {
        NetflowAggregate {
            exchange_id,
            token,
            symbol,
            decimals,
            cumulative_in: Total::zero(),
            cumulative_out: Total::zero(),
            last_block: 0,
        }
    }

    /// Counts one event: adds `amount` to the inflow or the outflow total
    /// and raises the last-applied block number. Fails, changing nothing,
    /// exactly when the total would leave its range.
    pub fn record(&mut self, amount: &Amount, direction: Direction, block_number: u64) -> (r:
        Result<(), StorageError>)
        ensures
            r is Err <==> old(self)@.overflows(amount@, direction),
            r is Err ==> *final(self) == *old(self),
            r is Ok ==> final(self)@ == old(self)@.recorded(amount@, direction, block_number),
            r is Ok ==> final(self).token == old(self).token,
    {
        match direction {
            Direction::Inbound => {
                match self.cumulative_in.checked_add(amount) {
                    Some(total) => {
                        self.cumulative_in = total;
                    },
                    None => {
                        return Err(StorageError::TotalOverflow);
                    },
                }
            },
            Direction::Outbound => {
                match self.cumulative_out.checked_add(amount) {
                    Some(total) => {
                        self.cumulative_out = total;
                    },
                    None => {
                        return Err(StorageError::TotalOverflow);
                    },
                }
            },
        }
        if block_number > self.last_block {
            self.last_block = block_number;
        }
        Ok(())
    }

    /// Cumulative net, inflow minus outflow, recomputed from the two totals.
    pub fn net(&self) -> (n: Net)
        ensures
            n@ == self@.net(),
            n.negative ==> n.magnitude@ > 0,
    {
        if self.cumulative_in.at_least(&self.cumulative_out) {
            Net { negative: false, magnitude: self.cumulative_in.minus(&self.cumulative_out) }
        } else {
            Net { negative: true, magnitude: self.cumulative_out.minus(&self.cumulative_in) }
        }
    }
}

/// What a `Db` stands for in contracts.
pub struct DbView {
    /// The aggregates, by (exchange identifier, token address).
    pub rows: Map<(i64, Seq<u8>), NetflowAggregateView>,
    /// The events that have been applied.
    pub events: Set<TransferView>,
    /// The recorded wallets, as (exchange identifier, address).
    pub addresses: Set<(i64, Seq<u8>)>,
    /// The highest block number of any applied event.
    pub checkpoint: u64,
}

impl DbView {
    /// The store before anything was written.
    pub open spec fn empty() -> DbView {
        DbView { rows: Map::empty(), events: Set::empty(), addresses: Set::empty(), checkpoint: 0 }
    }

    /// Whether an event with this key has been applied.
    pub open spec fn recorded(self, tx_hash: Seq<u8>, log_index: u64) -> bool {
        exists|t: TransferView| #[trigger]
            self.events.contains(t) && t.tx_hash == tx_hash && t.log_index == log_index
    }

    /// The store after the row of (`exchange_id`, `token`) has been ensured:
    /// a zero row is created where none was, and nothing changes otherwise.
    pub open spec fn ensure_row(
        self,
        exchange_id: i64,
        token: Seq<u8>,
        symbol: Seq<char>,
        decimals: u8,
    ) -> DbView {
        if self.rows.contains_key((exchange_id, token)) {
            self
        } else {
            DbView {
                rows: self.rows.insert(
                    (exchange_id, token),
                    NetflowAggregateView::zero(exchange_id, token, symbol, decimals),
                ),
                ..self
            }
        }
    }

    /// Whether the store refuses the event: it is new, and counting it
    /// would take a total of its aggregate out of range.
    pub open spec fn refuses(self, exchange_id: i64, t: TransferView, direction: Direction) -> bool {
        &&& !self.recorded(t.tx_hash, t.log_index)
        &&& self.rows.contains_key((exchange_id, t.token))
        &&& self.rows[(exchange_id, t.token)].overflows(t.amount_raw, direction)
    }

    /// The three effects of applying a new event, taken together: the event
    /// is recorded, its amount is counted in the aggregate of
    /// (`exchange_id`, token) where that aggregate exists, and the
    /// checkpoint is raised to the event's block number.
    pub open spec fn applied(self, exchange_id: i64, t: TransferView, direction: Direction) -> DbView {
        let key = (exchange_id, t.token);
        DbView {
            rows: if self.rows.contains_key(key) {
                self.rows.insert(
                    key,
                    self.rows[key].recorded(t.amount_raw, direction, t.block_number),
                )
            } else {
                self.rows
            },
            events: self.events.insert(t),
            addresses: self.addresses,
            checkpoint: max_block(self.checkpoint, t.block_number),
        }
    }

    /// The store after an attempt to apply the event: unchanged where the
    /// event's key is already recorded or the event is refused, and with
    /// all three effects otherwise.
    pub open spec fn apply(self, exchange_id: i64, t: TransferView, direction: Direction) -> DbView {
        if self.recorded(t.tx_hash, t.log_index) || self.refuses(exchange_id, t, direction) {
            self
        } else {
            self.applied(exchange_id, t, direction)
        }
    }

    /// The store after the wallets of an exchange have been recorded.
    pub open spec fn with_addresses(self, exchange_id: i64, addrs: Seq<Address>) -> DbView {
        DbView {
            addresses: Set::new(
                |p: (i64, Seq<u8>)|
                    self.addresses.contains(p) || (p.0 == exchange_id && exists|j: int|
                        0 <= j < addrs.len() && #[trigger] addrs[j]@ == p.1),
            ),
            ..self
        }
    }

    /// What holds of every store: each aggregate sits under its own key, an
    /// event key is recorded once, and neither an applied event nor an
    /// aggregate is ahead of the checkpoint.
    pub open spec fn wf(self) -> bool {
        &&& forall|k: (i64, Seq<u8>)| #[trigger]
            self.rows.contains_key(k) ==> self.rows[k].key() == k && self.rows[k].last_block
                <= self.checkpoint
        &&& forall|t1: TransferView, t2: TransferView|
            #![trigger self.events.contains(t1), self.events.contains(t2)]
            self.events.contains(t1) && self.events.contains(t2) && t1.key() == t2.key() ==> t1
                == t2
        &&& forall|t: TransferView| #[trigger]
            self.events.contains(t) ==> t.block_number <= self.checkpoint
    }
}

/// The key of a stored aggregate.
spec fn row_key(row: NetflowAggregate) -> (i64, Seq<u8>) {
    (row.exchange_id, row.token@)
}

/// No two stored aggregates share a key.
spec fn rows_unique(rows: Seq<NetflowAggregate>) -> bool {
    forall|i: int, j: int|
        0 <= i < j < rows.len() ==> #[trigger] row_key(rows[i]) != #[trigger] row_key(rows[j])
}

/// The aggregates of a list of rows, by key.
spec fn rows_map(rows: Seq<NetflowAggregate>) -> Map<(i64, Seq<u8>), NetflowAggregateView> {
    Map::new(
        |k: (i64, Seq<u8>)| exists|i: int| 0 <= i < rows.len() && #[trigger] row_key(rows[i]) == k,
        |k: (i64, Seq<u8>)|
            rows[choose|i: int| 0 <= i < rows.len() && #[trigger] row_key(rows[i]) == k]@,
    )
}

/// Under unique keys the row at an index is the aggregate of its key.
proof fn lemma_rows_map_at(rows: Seq<NetflowAggregate>, i: int)
    requires
        rows_unique(rows),
        0 <= i < rows.len(),
    ensures
        rows_map(rows).contains_key(row_key(rows[i])),
        rows_map(rows)[row_key(rows[i])] == rows[i]@,
{
}

/// Appending a row under a new key adds its aggregate to the map.
proof fn lemma_rows_map_push(rows: Seq<NetflowAggregate>, row: NetflowAggregate)
    requires
        rows_unique(rows),
        !rows_map(rows).contains_key(row_key(row)),
    ensures
        rows_unique(rows.push(row)),
        rows_map(rows.push(row)) == rows_map(rows).insert(row_key(row), row@),
{
    let after = rows.push(row);
    assert forall|k: (i64, Seq<u8>)|
        rows_map(after).contains_key(k) <==> rows_map(rows).insert(
            row_key(row),
            row@,
        ).contains_key(k) by {
        if rows_map(rows).contains_key(k) {
            let i = choose|i: int| 0 <= i < rows.len() && #[trigger] row_key(rows[i]) == k;
            assert(row_key(after[i]) == k);
        }
        if k == row_key(row) {
            assert(row_key(after[rows.len() as int]) == k);
        }
    }
    assert forall|k: (i64, Seq<u8>)| rows_map(after).contains_key(k) implies rows_map(after)[k]
        == rows_map(rows).insert(row_key(row), row@)[k] by {
        let i = choose|i: int| 0 <= i < after.len() && #[trigger] row_key(after[i]) == k;
        lemma_rows_map_at(after, i);
        if i < rows.len() {
            lemma_rows_map_at(rows, i);
        }
    }
}

/// Replacing a row by one of the same key replaces its aggregate in the
/// map.
proof fn lemma_rows_map_update(rows: Seq<NetflowAggregate>, at: int, row: NetflowAggregate)
    requires
        rows_unique(rows),
        0 <= at < rows.len(),
        row_key(row) == row_key(rows[at]),
    ensures
        rows_unique(rows.update(at, row)),
        rows_map(rows.update(at, row)) == rows_map(rows).insert(row_key(row), row@),
{
    let after = rows.update(at, row);
    assert forall|k: (i64, Seq<u8>)|
        rows_map(after).contains_key(k) <==> rows_map(rows).insert(
            row_key(row),
            row@,
        ).contains_key(k) by {
        if rows_map(rows).contains_key(k) {
            let i = choose|i: int| 0 <= i < rows.len() && #[trigger] row_key(rows[i]) == k;
            assert(row_key(after[i]) == k);
        }
    }
    assert forall|k: (i64, Seq<u8>)| rows_map(after).contains_key(k) implies rows_map(after)[k]
        == rows_map(rows).insert(row_key(row), row@)[k] by {
        let i = choose|i: int| 0 <= i < after.len() && #[trigger] row_key(after[i]) == k;
        lemma_rows_map_at(after, i);
        lemma_rows_map_at(rows, i);
    }
}

/// Whether the bucket of `t`'s transaction holds `t`.
spec fn event_held(buckets: Map<u64, Vec<Transfer>>, t: TransferView) -> bool {
    let f = fingerprint_of(t.tx_hash);
    buckets.contains_key(f) && exists|i: int|
        0 <= i < buckets[f]@.len() && #[trigger] buckets[f]@[i]@ == t
}

/// Whether (`exchange_id`, `a`) is among the listed wallets.
spec fn wallet_listed(wallets: Seq<(i64, Address)>, exchange_id: i64, a: Seq<u8>) -> bool {
    exists|i: int|
        0 <= i < wallets.len() && (#[trigger] wallets[i]).0 == exchange_id && wallets[i].1@ == a
}

/// The aggregate store, held in memory.
pub struct Db {
    rows: Vec<NetflowAggregate>,
    events: HashMap<u64, Vec<Transfer>>,
    wallets: Vec<(i64, Address)>,
    checkpoint: u64,
}

impl View for Db {
    type V = DbView;

    closed spec fn view(&self) -> DbView {
        DbView {
            rows: rows_map(self.rows@),
            events: Set::new(|t: TransferView| event_held(self.events@, t)),
            addresses: Set::new(|p: (i64, Seq<u8>)| wallet_listed(self.wallets@, p.0, p.1)),
            checkpoint: self.checkpoint,
        }
    }
}

/// Looks in one bucket for an event with the given key.
fn bucket_find(bucket: &Vec<Transfer>, tx_hash: &Hash256, log_index: u64) -> (found: Option<usize>)
    ensures
        match found {
            Some(i) => i < bucket@.len() && bucket@[i as int].tx_hash@ == tx_hash@
                && bucket@[i as int].log_index == log_index,
            None => forall|j: int|
                0 <= j < bucket@.len() ==> !((#[trigger] bucket@[j]).tx_hash@ == tx_hash@
                    && bucket@[j].log_index == log_index),
        },
{
    let mut i: usize = 0;
    while i < bucket.len()
        invariant
            i <= bucket@.len(),
            forall|j: int|
                0 <= j < i ==> !((#[trigger] bucket@[j]).tx_hash@ == tx_hash@
                    && bucket@[j].log_index == log_index),
        decreases bucket@.len() - i,
    {
        if bucket[i].log_index == log_index && bucket[i].tx_hash == *tx_hash {
            return Some(i);
        }
        i += 1;
    }
    None
}

/// Adds `t` to the bucket of its transaction.
fn events_insert(events: &mut HashMap<u64, Vec<Transfer>>, t: Transfer)
    ensures
        forall|u: TransferView|
            event_held(final(events)@, u) <==> (event_held(old(events)@, u) || u == t@),
{
    let f = t.tx_hash.fingerprint();
    let mut bucket = match events.remove(&f) {
        Some(bucket) => bucket,
        None => Vec::new(),
    };
    let ghost before = bucket@;
    bucket.push(t);
    events.insert(f, bucket);
    assert forall|u: TransferView|
        event_held(events@, u) <==> (event_held(old(events)@, u) || u == t@) by {
        let g = fingerprint_of(u.tx_hash);
        if g == f {
            let after = events@[f]@;
            if event_held(old(events)@, u) {
                let i = choose|i: int| 0 <= i < before.len() && #[trigger] before[i]@ == u;
                assert(after[i]@ == u);
            }
            if u == t@ {
                assert(after[before.len() as int]@ == u);
            }
        } else {
            assert(events@.contains_key(g) ==> events@[g] == old(events)@[g]);
        }
    }
}

impl Db {
    /// The store's own invariant: aggregate keys are unique, and its
    /// contents are a well-formed store.
    pub closed spec fn wf(&self) -> bool {
        &&& rows_unique(self.rows@)
        &&& self@.wf()
    }

    /// A well-formed `Db` stands for a well-formed store.
    pub proof fn lemma_view_wf(&self)
        requires
            self.wf(),
        ensures
            self@.wf(),
    {
    }

    /// An empty store: no aggregate, no event, no wallet, checkpoint zero.
    pub fn new() -> (db: Db)
        ensures
            db.wf(),
            db@ == DbView::empty(),
    {
        let db = Db { rows: Vec::new(), events: HashMap::new(), wallets: Vec::new(), checkpoint: 0 };
        assert(db@.rows =~= Map::empty());
        assert(db@.events =~= Set::empty());
        assert(db@.addresses =~= Set::empty());
        db
    }

    /// The index of the aggregate of (`exchange_id`, `token`), if there is
    /// one.
    fn find_row(&self, exchange_id: i64, token: &Address) -> (found: Option<usize>)
        requires
            self.wf(),
        ensures
            match found {
                Some(i) => i < self.rows@.len() && row_key(self.rows@[i as int]) == (
                    exchange_id,
                    token@,
                ) && self@.rows.contains_key((exchange_id, token@)) && self@.rows[(
                    exchange_id,
                    token@,
                )] == self.rows@[i as int]@,
                None => !self@.rows.contains_key((exchange_id, token@)),
            },
    {
        let mut i: usize = 0;
        while i < self.rows.len()
            invariant
                i <= self.rows@.len(),
                rows_unique(self.rows@),
                forall|j: int|
                    0 <= j < i ==> #[trigger] row_key(self.rows@[j]) != (exchange_id, token@),
            decreases self.rows@.len() - i,
        {
            if self.rows[i].exchange_id == exchange_id && self.rows[i].token == *token {
                proof {
                    lemma_rows_map_at(self.rows@, i as int);
                }
                return Some(i);
            }
            i += 1;
        }
        None
    }

    /// Whether an event with this key has been applied.
    pub fn is_recorded(&self, tx_hash: &Hash256, log_index: u64) -> (found: bool)
        ensures
            found == self@.recorded(tx_hash@, log_index),
    {
        let found = self.find_transfer(tx_hash, log_index);
        found.is_some()
    }

    /// The applied event with this key, if there is one.
    pub fn find_transfer(&self, tx_hash: &Hash256, log_index: u64) -> (found: Option<Transfer>)
        ensures
            found is Some <==> self@.recorded(tx_hash@, log_index),
            found matches Some(t) ==> self@.events.contains(t@) && t@.tx_hash == tx_hash@
                && t@.log_index == log_index,
    {
        let f = tx_hash.fingerprint();
        match self.events.get(&f) {
            Some(bucket) => {
                match bucket_find(bucket, tx_hash, log_index) {
                    Some(i) => {
                        let t = bucket[i];
                        assert(fingerprint_of(t@.tx_hash) == f);
                        assert(self@.events.contains(t@));
                        Some(t)
                    },
                    None => {
                        // A recorded event with this key would sit in this
                        // bucket, where none was found.
                        assert forall|u: TransferView| #[trigger]
                            self@.events.contains(u) implies !(u.tx_hash == tx_hash@ && u.log_index
                            == log_index) by {
                            if u.tx_hash == tx_hash@ {
                                let j = choose|j: int|
                                    0 <= j < bucket@.len() && #[trigger] bucket@[j]@ == u;
                                assert(bucket@[j].tx_hash@ == tx_hash@);
                            }
                        }
                        None
                    },
                }
            },
            None => {
                None
            },
        }
    }

    /// The progress checkpoint: the highest block number of any applied
    /// event, zero where there is none.
    pub fn checkpoint(&self) -> (block: u64)
        ensures
            block == self@.checkpoint,
    {
        self.checkpoint
    }

    /// Point read of the aggregate of (`exchange_id`, `token`). Returns
    /// `None` exactly when no row was ensured for the pair.
    pub fn fetch_netflow(&self, exchange_id: i64, token: &Address) -> (row: Option<
        &NetflowAggregate,
    >)
        requires
            self.wf(),
        ensures
            row is Some <==> self@.rows.contains_key((exchange_id, token@)),
            row matches Some(r) ==> r@ == self@.rows[(exchange_id, token@)],
    {
        match self.find_row(exchange_id, token) {
            Some(i) => Some(&self.rows[i]),
            None => None,
        }
    }

    /// Creates the zero-initialised aggregate of (`exchange_id`, `token`)
    /// where the pair has none, and changes nothing where it has one.
    pub fn ensure_netflow_row(&mut self, exchange_id: i64, token: Address, symbol: &str, decimals: u8)
        requires
            old(self).wf(),
        ensures
            final(self).wf(),
            final(self)@ == old(self)@.ensure_row(exchange_id, token@, symbol@, decimals),
    {
        if self.find_row(exchange_id, &token).is_none() {
            let row = NetflowAggregate::new(exchange_id, token, symbol.to_owned(), decimals);
            proof {
                lemma_rows_map_push(self.rows@, row);
            }
            self.rows.push(row);
            assert(self@.events =~= old(self)@.events);
        }
    }

    /// Whether (`exchange_id`, `a`) is a recorded wallet.
    pub fn has_exchange_address(&self, exchange_id: i64, a: &Address) -> (found: bool)
        ensures
            found == self@.addresses.contains((exchange_id, a@)),
    {
        let mut i: usize = 0;
        while i < self.wallets.len()
            invariant
                i <= self.wallets@.len(),
                forall|j: int|
                    0 <= j < i ==> !((#[trigger] self.wallets@[j]).0 == exchange_id
                        && self.wallets@[j].1@ == a@),
            decreases self.wallets@.len() - i,
        {
            if self.wallets[i].0 == exchange_id && self.wallets[i].1 == *a {
                return true;
            }
            i += 1;
        }
        false
    }

    /// Records the wallets of an exchange. A wallet that is already
    /// recorded is left as it is.
    pub fn upsert_exchange_addresses(&mut self, exchange_id: i64, addrs: &Vec<Address>)
        requires
            old(self).wf(),
        ensures
            final(self).wf(),
            final(self)@ == old(self)@.with_addresses(exchange_id, addrs@),
    {
        let mut i: usize = 0;
        while i < addrs.len()
            invariant
                i <= addrs@.len(),
                self.rows == old(self).rows,
                self.events == old(self).events,
                self.checkpoint == old(self).checkpoint,
                forall|p: (i64, Seq<u8>)|
                    wallet_listed(self.wallets@, p.0, p.1) <==> (wallet_listed(
                        old(self).wallets@,
                        p.0,
                        p.1,
                    ) || (p.0 == exchange_id && exists|j: int|
                        0 <= j < i && #[trigger] addrs@[j]@ == p.1)),
            decreases addrs@.len() - i,
        {
            let a = addrs[i];
            let ghost before = self.wallets@;
            if !self.has_exchange_address(exchange_id, &a) {
                self.wallets.push((exchange_id, a));
            }
            proof {
                let after = self.wallets@;
                assert forall|p: (i64, Seq<u8>)|
                    wallet_listed(after, p.0, p.1) <==> (wallet_listed(before, p.0, p.1) || (p.0
                        == exchange_id && p.1 == a@)) by {
                    if wallet_listed(before, p.0, p.1) {
                        let j = choose|j: int|
                            0 <= j < before.len() && (#[trigger] before[j]).0 == p.0
                                && before[j].1@ == p.1;
                        assert(after[j] == before[j]);
                    }
                    if p.0 == exchange_id && p.1 == a@ && after.len() > before.len() {
                        assert(after[before.len() as int].0 == exchange_id);
                    }
                }
            }
            i += 1;
        }
        assert(self@.addresses =~= old(self)@.with_addresses(exchange_id, addrs@).addresses);
    }

    /// Applies one transfer event to the store, atomically and at most once.
    ///
    /// Where an event with the same (transaction, log position) key is
    /// already recorded, nothing changes and the call succeeds. Otherwise
    /// the event is recorded, its raw amount is added to the inflow or the
    /// outflow total of the aggregate of (`exchange_id`, token), and the
    /// checkpoint is raised to the event's block number. The call fails,
    /// and then leaves the store as it was, exactly when the event is new
    /// and the total would leave its range.
    pub fn insert_transfer_and_update_netflow(
        &mut self,
        exchange_id: i64,
        t: &Transfer,
        direction: Direction,
    ) -> (r: Result<(), StorageError>)
        requires
            old(self).wf(),
        ensures
            final(self).wf(),
            final(self)@ == old(self)@.apply(exchange_id, t@, direction),
            r is Err <==> old(self)@.refuses(exchange_id, t@, direction),
            r is Err ==> final(self)@ == old(self)@,
            final(self)@.checkpoint >= old(self)@.checkpoint,
    {
        if self.is_recorded(&t.tx_hash, t.log_index) {
            return Ok(());
        }
        match self.find_row(exchange_id, &t.token) {
            Some(i) => {
                let ghost before = self.rows@;
                match self.rows[i].record(&t.amount_raw, direction, t.block_number) {
                    Ok(()) => {
                        proof {
                            lemma_rows_map_update(before, i as int, self.rows@[i as int]);
                        }
                    },
                    Err(e) => {
                        assert(self.rows@ =~= before);
                        return Err(e);
                    },
                }
            },
            None => {},
        }
        events_insert(&mut self.events, *t);
        if t.block_number > self.checkpoint {
            self.checkpoint = t.block_number;
        }
        proof {
            assert(self@.events =~= old(self)@.events.insert(t@));
            assert(self@ == old(self)@.applied(exchange_id, t@, direction));
            lemma_apply_keeps_wf(old(self)@, exchange_id, t@, direction);
        }
        Ok(())
    }
}

/// Applying an event to a well-formed store gives a well-formed store.
pub proof fn lemma_apply_keeps_wf(s: DbView, exchange_id: i64, t: TransferView, direction: Direction)
    requires
        s.wf(),
    ensures
        s.apply(exchange_id, t, direction).wf(),
{
    let after = s.apply(exchange_id, t, direction);
    if after != s {
        // The event is new, so no recorded event shares its key.
        assert(!s.recorded(t.tx_hash, t.log_index));
        assert forall|t1: TransferView, t2: TransferView|
            #![trigger after.events.contains(t1), after.events.contains(t2)]
            after.events.contains(t1) && after.events.contains(t2) && t1.key() == t2.key() implies t1
            == t2 by {
            if t1 == t && t2 != t {
                assert(s.events.contains(t2));
            } else if t2 == t && t1 != t {
                assert(s.events.contains(t1));
            }
        }
        // The checkpoint is raised to the event's block, and so is the
        // last-applied block of its aggregate.
        assert forall|k: (i64, Seq<u8>)| #[trigger] after.rows.contains_key(k) implies after.rows[k].key()
            == k && after.rows[k].last_block <= after.checkpoint by {
            assert(s.rows.contains_key(k));
        }
    }
}

/// One event handed to the store: the exchange it is counted for, the
/// event, and the side it is counted on.
pub struct Delivery {
    pub exchange_id: i64,
    pub transfer: TransferView,
    pub direction: Direction,
}

/// The store after a run of deliveries, applied in the order given.
pub open spec fn deliver_all(s: DbView, run: Seq<Delivery>) -> DbView
    decreases run.len(),
{
    if run.len() == 0 {
        s
    } else {
        deliver_all(s, run.drop_last()).apply(
            run.last().exchange_id,
            run.last().transfer,
            run.last().direction,
        )
    }
}

/// The sum of the raw amounts of a run of deliveries.
pub open spec fn total_amount(run: Seq<Delivery>) -> nat
    decreases run.len(),
{
    if run.len() == 0 {
        0
    } else {
        total_amount(run.drop_last()) + run.last().transfer.amount_raw
    }
}

/// A run of new events for one aggregate, all counted on one side: every
/// delivery is for (`exchange_id`, `token`) and `direction`, no two share
/// an event key, and none of the keys is recorded in `s`.
pub open spec fn fresh_run_for(
    s: DbView,
    run: Seq<Delivery>,
    exchange_id: i64,
    token: Seq<u8>,
    direction: Direction,
) -> bool {
    &&& forall|i: int|
        0 <= i < run.len() ==> (#[trigger] run[i]).exchange_id == exchange_id
            && run[i].transfer.token == token && run[i].direction == direction
            && !s.recorded(run[i].transfer.tx_hash, run[i].transfer.log_index)
    &&& forall|i: int, j: int|
        0 <= i < j < run.len() ==> (#[trigger] run[i]).transfer.key() != (
        #[trigger] run[j]).transfer.key()
}

/// Ensuring a row a second time changes nothing, whatever symbol and
/// decimals the second call names.
pub proof fn lemma_ensure_row_twice(
    s: DbView,
    exchange_id: i64,
    token: Seq<u8>,
    symbol: Seq<char>,
    decimals: u8,
    other_symbol: Seq<char>,
    other_decimals: u8,
)
    ensures
        s.ensure_row(exchange_id, token, symbol, decimals).ensure_row(
            exchange_id,
            token,
            other_symbol,
            other_decimals,
        ) == s.ensure_row(exchange_id, token, symbol, decimals),
        s.ensure_row(exchange_id, token, symbol, decimals).rows.contains_key((exchange_id, token)),
        !s.rows.contains_key((exchange_id, token)) ==> s.ensure_row(
            exchange_id,
            token,
            symbol,
            decimals,
        ).rows[(exchange_id, token)] == NetflowAggregateView::zero(
            exchange_id,
            token,
            symbol,
            decimals,
        ),
{
}

/// No application moves the last-applied block number of an aggregate
/// backwards, removes an aggregate, or forgets a recorded event.
pub proof fn lemma_apply_only_advances(
    s: DbView,
    exchange_id: i64,
    t: TransferView,
    direction: Direction,
)
    ensures
        forall|k: (i64, Seq<u8>)| #[trigger]
            s.rows.contains_key(k) ==> s.apply(exchange_id, t, direction).rows.contains_key(k)
                && s.apply(exchange_id, t, direction).rows[k].last_block >= s.rows[k].last_block
                && s.apply(exchange_id, t, direction).rows[k].cumulative_in
                >= s.rows[k].cumulative_in && s.apply(
                exchange_id,
                t,
                direction,
            ).rows[k].cumulative_out >= s.rows[k].cumulative_out,
        forall|u: TransferView| #[trigger]
            s.events.contains(u) ==> s.apply(exchange_id, t, direction).events.contains(u),
        s.apply(exchange_id, t, direction).checkpoint >= s.checkpoint,
        s.apply(exchange_id, t, direction).addresses == s.addresses,
{
}

/// Applying the same event twice leaves the store as the first application
/// left it.
pub proof fn lemma_apply_twice(s: DbView, exchange_id: i64, t: TransferView, direction: Direction)
    ensures
        s.apply(exchange_id, t, direction).apply(exchange_id, t, direction) == s.apply(
            exchange_id,
            t,
            direction,
        ),
{
    let once = s.apply(exchange_id, t, direction);
    if !s.recorded(t.tx_hash, t.log_index) && !s.refuses(exchange_id, t, direction) {
        assert(once.events.contains(t));
    }
}

/// Once an event key is recorded, any event delivered under that key, for
/// any exchange and on either side, leaves the store unchanged.
pub proof fn lemma_recorded_key_is_ignored(
    s: DbView,
    exchange_id: i64,
    t: TransferView,
    direction: Direction,
)
    requires
        s.recorded(t.tx_hash, t.log_index),
    ensures
        s.apply(exchange_id, t, direction) == s,
{
}

/// The checkpoint never moves backwards: not by one application, and not
/// over a run of deliveries in whatever order their blocks arrive. At
/// every point of the run it is at most what it is at the end.
pub proof fn lemma_checkpoint_monotone(s: DbView, run: Seq<Delivery>)
    ensures
        deliver_all(s, run).checkpoint >= s.checkpoint,
        forall|n: int|
            0 <= n <= run.len() ==> (#[trigger] deliver_all(s, run.take(n))).checkpoint
                <= deliver_all(s, run).checkpoint,
    decreases run.len(),
{
    if run.len() > 0 {
        let head = run.drop_last();
        lemma_checkpoint_monotone(s, head);
        assert forall|n: int| 0 <= n <= run.len() implies (#[trigger] deliver_all(
            s,
            run.take(n),
        )).checkpoint <= deliver_all(s, run).checkpoint by {
            if n == run.len() {
                assert(run.take(n) =~= run);
            } else {
                assert(run.take(n) =~= head.take(n));
            }
        }
    }
}

/// A run of new events for one aggregate adds the sum of their amounts to
/// the total of the side they are counted on, leaves the other total as it
/// was, and records each of them, provided the sum stays within the range
/// of a total.
pub proof fn lemma_run_adds_sum(
    s: DbView,
    run: Seq<Delivery>,
    exchange_id: i64,
    token: Seq<u8>,
    direction: Direction,
)
    requires
        s.rows.contains_key((exchange_id, token)),
        fresh_run_for(s, run, exchange_id, token, direction),
        match direction {
            Direction::Inbound => s.rows[(exchange_id, token)].cumulative_in + total_amount(run)
                < pow2_320(),
            Direction::Outbound => s.rows[(exchange_id, token)].cumulative_out + total_amount(run)
                < pow2_320(),
        },
    ensures
        deliver_all(s, run).rows.contains_key((exchange_id, token)),
        forall|u: TransferView|
            deliver_all(s, run).events.contains(u) <==> (s.events.contains(u) || exists|i: int|
                0 <= i < run.len() && (#[trigger] run[i]).transfer == u),
        match direction {
            Direction::Inbound => {
                &&& deliver_all(s, run).rows[(exchange_id, token)].cumulative_in == s.rows[(
                    exchange_id,
                    token,
                )].cumulative_in + total_amount(run)
                &&& deliver_all(s, run).rows[(exchange_id, token)].cumulative_out == s.rows[(
                    exchange_id,
                    token,
                )].cumulative_out
            },
            Direction::Outbound => {
                &&& deliver_all(s, run).rows[(exchange_id, token)].cumulative_out == s.rows[(
                    exchange_id,
                    token,
                )].cumulative_out + total_amount(run)
                &&& deliver_all(s, run).rows[(exchange_id, token)].cumulative_in == s.rows[(
                    exchange_id,
                    token,
                )].cumulative_in
            },
        },
    decreases run.len(),
{
    if run.len() > 0 {
        let head = run.drop_last();
        let last = run.last();
        let n = head.len() as int;
        assert forall|i: int| 0 <= i < head.len() implies head[i] == run[i] by {}
        lemma_run_adds_sum(s, head, exchange_id, token, direction);
        let mid = deliver_all(s, head);
        assert(!mid.recorded(last.transfer.tx_hash, last.transfer.log_index)) by {
            if mid.recorded(last.transfer.tx_hash, last.transfer.log_index) {
                let u = choose|u: TransferView| #[trigger]
                    mid.events.contains(u) && u.tx_hash == last.transfer.tx_hash && u.log_index
                        == last.transfer.log_index;
                if s.events.contains(u) {
                    assert(s.recorded(run[n].transfer.tx_hash, run[n].transfer.log_index));
                } else {
                    let i = choose|i: int| 0 <= i < head.len() && (#[trigger] head[i]).transfer == u;
                    assert(run[i].transfer.key() == run[n].transfer.key());
                }
            }
        }
        let after = deliver_all(s, run);
        assert forall|u: TransferView|
            after.events.contains(u) <==> (s.events.contains(u) || exists|i: int|
                0 <= i < run.len() && (#[trigger] run[i]).transfer == u) by {
            if u == last.transfer {
                assert(run[n].transfer == u);
            }
            if exists|i: int| 0 <= i < run.len() && (#[trigger] run[i]).transfer == u {
                let i = choose|i: int| 0 <= i < run.len() && (#[trigger] run[i]).transfer == u;
                if i < n {
                    assert(head[i].transfer == u);
                }
            }
        }
    }
}

/// A run of new inbound events applied to an aggregate whose totals are
/// zero leaves the cumulative inflow, and the cumulative net, equal to the
/// sum of their amounts.
pub proof fn lemma_inflow_is_sum(s: DbView, run: Seq<Delivery>, exchange_id: i64, token: Seq<u8>)
    requires
        s.rows.contains_key((exchange_id, token)),
        s.rows[(exchange_id, token)].cumulative_in == 0,
        s.rows[(exchange_id, token)].cumulative_out == 0,
        fresh_run_for(s, run, exchange_id, token, Direction::Inbound),
        total_amount(run) < pow2_320(),
    ensures
        deliver_all(s, run).rows.contains_key((exchange_id, token)),
        deliver_all(s, run).rows[(exchange_id, token)].cumulative_in == total_amount(run),
        deliver_all(s, run).rows[(exchange_id, token)].cumulative_out == 0,
        deliver_all(s, run).rows[(exchange_id, token)].net() == total_amount(run),
{
    lemma_run_adds_sum(s, run, exchange_id, token, Direction::Inbound);
}

/// Amounts sum to at most their number times 2^256 - 1. So at most 2^64
/// of them sum to less than 2^320, and a run of that length cannot take a
/// total that started at zero out of range.
pub proof fn lemma_total_amount_bound(run: Seq<Delivery>)
    requires
        forall|i: int| 0 <= i < run.len() ==> (#[trigger] run[i]).transfer.amount_raw < pow2_256(),
    ensures
        total_amount(run) <= run.len() * (pow2_256() - 1),
        run.len() <= pow2_64() ==> total_amount(run) < pow2_320(),
    decreases run.len(),
{
    if run.len() > 0 {
        let head = run.drop_last();
        lemma_total_amount_bound(head);
        assert(run.len() * (pow2_256() - 1) == head.len() * (pow2_256() - 1) + (pow2_256() - 1))
            by (nonlinear_arith)
            requires
                run.len() == head.len() + 1,
        ;
    }
    if run.len() <= pow2_64() {
        assert(run.len() * (pow2_256() - 1) < pow2_320()) by (nonlinear_arith)
            requires
                run.len() <= pow2_64(),
                pow2_64() * pow2_256() == pow2_320(),
                pow2_256() > 1,
        ;
    }
}

} // verus!
