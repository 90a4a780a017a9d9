//! The ingestion logic: what to do with one log record of the feed.
//!
//! A record is first examined: its shape is checked, sender, recipient and
//! amount are decoded, and the transfer is classified against the watched
//! set. Only a relevant record needs the timestamp of its block, which the
//! caller looks up; with the answer the record is finished: the transfer
//! event is built and applied to the aggregate store. A failure concerns
//! the one record it arose from and leaves the store as it was.

use vstd::prelude::*;
use vstd::string::*;
use crate::amount::{amount_in_data, number_in_reply, Amount};
use crate::classify::{address_set, classification_of, classify, recorded_direction, WatchedAddressSet};
use crate::config::AppConfig;
use crate::db::{Db, DbView, StorageError};
use crate::hashing::{function_selector, keccak256_digest};
use crate::types::{Address, Direction, Hash256, Transfer, TransferView};

verus! {

/// Why a record, or the start of the indexer, failed.
#[derive(Clone, Copy, Debug, PartialEq, Eq, Structural)]
pub enum IndexerError {
    /// The token's decimals are neither configured nor were they looked up.
    MissingDecimals,
    /// The reply to the decimals call holds a number above 2^32 - 1.
    DecimalsOutOfRange,
    /// The configuration lists no wallet to watch.
    NoWatchedAddress,
    /// The record carries no block number.
    MissingBlockNumber,
    /// The lookup of the record's block failed.
    BlockLookupFailed,
    /// The lookup found no block of that number.
    BlockNotFound,
    /// The block's timestamp does not fit in 64 bits.
    TimestampOutOfRange,
    /// The record's log position does not fit in 64 bits.
    LogIndexOutOfRange,
    /// The store refused the event.
    Storage(StorageError),
}

/// One log record as the feed delivers it.
#[derive(Clone, Debug)]
pub struct LogRecord {
    pub topics: Vec<Hash256>,
    pub data: Vec<u8>,
    pub block_number: Option<u64>,
    pub transaction_hash: Option<Hash256>,
    pub log_index: Option<Amount>,
}

/// What a `LogRecord` stands for in contracts.
pub struct LogRecordView {
    pub topics: Seq<Seq<u8>>,
    pub data: Seq<u8>,
    pub block_number: Option<u64>,
    pub transaction_hash: Option<Seq<u8>>,
    pub log_index: Option<nat>,
}

impl View for LogRecord {
    type V = LogRecordView;

    open spec fn view(&self) -> LogRecordView {
        LogRecordView {
            topics: Seq::new(self.topics@.len(), |i: int| self.topics@[i]@),
            data: self.data@,
            block_number: self.block_number,
            transaction_hash: match self.transaction_hash {
                Some(h) => Some(h@),
                None => None,
            },
            log_index: match self.log_index {
                Some(i) => Some(i@),
                None => None,
            },
        }
    }
}

/// The answer of the block-data lookup for one block number.
#[derive(Clone, Copy, Debug)]
pub enum BlockLookup {
    /// The lookup itself failed.
    Failed,
    /// There is no block of that number.
    NotFound,
    /// The block, with its timestamp in seconds.
    Found { timestamp: Amount },
}

/// What a `BlockLookup` stands for in contracts.
pub enum BlockLookupView {
    Failed,
    NotFound,
    Found { timestamp: nat },
}

impl View for BlockLookup {
    type V = BlockLookupView;

    open spec fn view(&self) -> BlockLookupView {
        match *self {
            BlockLookup::Failed => BlockLookupView::Failed,
            BlockLookup::NotFound => BlockLookupView::NotFound,
            BlockLookup::Found { timestamp } => BlockLookupView::Found { timestamp: timestamp@ },
        }
    }
}

/// A relevant transfer that waits for the timestamp of its block.
#[derive(Clone, Copy, Debug)]
pub struct Pending {
    pub block_number: u64,
    pub tx_hash: Hash256,
    pub log_index: Option<Amount>,
    pub token: Address,
    pub from: Address,
    pub to: Address,
    pub amount_raw: Amount,
    pub direction: Direction,
}

/// What a `Pending` stands for in contracts.
pub struct PendingView {
    pub block_number: u64,
    pub tx_hash: Seq<u8>,
    pub log_index: Option<nat>,
    pub token: Seq<u8>,
    pub from: Seq<u8>,
    pub to: Seq<u8>,
    pub amount_raw: nat,
    pub direction: Direction,
}

impl View for Pending {
    type V = PendingView;

    open spec fn view(&self) -> PendingView {
        PendingView {
            block_number: self.block_number,
            tx_hash: self.tx_hash@,
            log_index: match self.log_index {
                Some(i) => Some(i@),
                None => None,
            },
            token: self.token@,
            from: self.from@,
            to: self.to@,
            amount_raw: self.amount_raw@,
            direction: self.direction,
        }
    }
}

/// What the examination of a record found.
#[derive(Clone, Copy, Debug)]
pub enum Step {
    /// The record has not the shape of a transfer log; it is skipped.
    Malformed,
    /// Neither side of the transfer is watched; it is dropped.
    Irrelevant,
    /// The transfer counts; the timestamp of its block is needed next.
    Relevant(Pending),
}

/// What a `Step` stands for in contracts.
pub enum StepView {
    Malformed,
    Irrelevant,
    Relevant(PendingView),
}

impl View for Step {
    type V = StepView;

    open spec fn view(&self) -> StepView {
        match *self {
            Step::Malformed => StepView::Malformed,
            Step::Irrelevant => StepView::Irrelevant,
            Step::Relevant(p) => StepView::Relevant(p@),
        }
    }
}

/// How the processing of one record ended, where it did not fail.
#[derive(Clone, Copy, Debug, PartialEq, Eq, Structural)]
pub enum Outcome {
    /// The record was malformed and has been skipped.
    Skipped,
    /// The transfer touched no watched address and has been dropped.
    Dropped,
    /// The event has been handed to the store, which applied it or found it
    /// already recorded.
    Delivered,
}

/// The number of topics of a transfer log: the event signature, the sender
/// and the recipient.
pub open spec fn transfer_topic_count() -> nat {
    3
}

/// The all-zero 32-byte word, which stands in for a missing transaction
/// identifier.
pub open spec fn zero_word() -> Seq<u8> {
    Seq::new(32, |i: int| 0u8)
}

/// What the examination of `log` finds, for the given token and watched
/// set.
pub open spec fn examined(token: Seq<u8>, watched: Set<Seq<u8>>, log: LogRecordView) -> Result<
    StepView,
    IndexerError,
> {
    if log.topics.len() != transfer_topic_count() {
        Ok(StepView::Malformed)
    } else {
        let from = log.topics[1].subrange(12, 32);
        let to = log.topics[2].subrange(12, 32);
        match recorded_direction(classification_of(from, to, watched)) {
            None => Ok(StepView::Irrelevant),
            Some(direction) => match log.block_number {
                None => Err(IndexerError::MissingBlockNumber),
                Some(block_number) => Ok(
                    StepView::Relevant(
                        PendingView {
                            block_number,
                            tx_hash: match log.transaction_hash {
                                Some(h) => h,
                                None => zero_word(),
                            },
                            log_index: log.log_index,
                            token,
                            from,
                            to,
                            amount_raw: amount_in_data(log.data),
                            direction,
                        },
                    ),
                ),
            },
        }
    }
}

/// The transfer event that a pending transfer and the answer of the block
/// lookup give, or the failure of the record.
pub open spec fn completed(p: PendingView, lookup: BlockLookupView) -> Result<
    TransferView,
    IndexerError,
> {
    match lookup {
        BlockLookupView::Failed => Err(IndexerError::BlockLookupFailed),
        BlockLookupView::NotFound => Err(IndexerError::BlockNotFound),
        BlockLookupView::Found { timestamp } => if timestamp > u64::MAX {
            Err(IndexerError::TimestampOutOfRange)
        } else if p.log_index is Some && p.log_index->0 > u64::MAX {
            Err(IndexerError::LogIndexOutOfRange)
        } else {
            Ok(
                TransferView {
                    block_number: p.block_number,
                    tx_hash: p.tx_hash,
                    log_index: match p.log_index {
                        Some(i) => i as u64,
                        None => 0,
                    },
                    token: p.token,
                    from: p.from,
                    to: p.to,
                    amount_raw: p.amount_raw,
                    timestamp: timestamp as u64,
                },
            )
        },
    }
}

/// The token's decimals at start: the configured value where there is one,
/// and else the number in the reply to the decimals call, reduced to its
/// low eight bits.
pub open spec fn startup_decimals(configured: Option<u8>, reply: Option<Seq<u8>>) -> Result<
    u8,
    IndexerError,
> {
    match configured {
        Some(d) => Ok(d),
        None => match reply {
            None => Err(IndexerError::MissingDecimals),
            Some(bytes) => if number_in_reply(bytes) > u32::MAX {
                Err(IndexerError::DecimalsOutOfRange)
            } else {
                Ok((number_in_reply(bytes) % 256) as u8)
            },
        },
    }
}

/// Builds the transfer event of a pending transfer from the answer of the
/// block lookup.
pub fn complete(pending: &Pending, lookup: &BlockLookup) -> (r: Result<Transfer, IndexerError>)
    ensures
        match r {
            Ok(t) => completed(pending@, lookup@) == Ok::<TransferView, IndexerError>(t@),
            Err(e) => completed(pending@, lookup@) == Err::<TransferView, IndexerError>(e),
        },
{
    let timestamp = match lookup {
        BlockLookup::Failed => {
            return Err(IndexerError::BlockLookupFailed);
        },
        BlockLookup::NotFound => {
            return Err(IndexerError::BlockNotFound);
        },
        BlockLookup::Found { timestamp } => match timestamp.to_u64() {
            Some(seconds) => seconds,
            None => {
                return Err(IndexerError::TimestampOutOfRange);
            },
        },
    };
    let log_index = match pending.log_index {
        Some(position) => match position.to_u64() {
            Some(i) => i,
            None => {
                return Err(IndexerError::LogIndexOutOfRange);
            },
        },
        None => 0,
    };
    Ok(
        Transfer {
            block_number: pending.block_number,
            tx_hash: pending.tx_hash,
            log_index,
            token: pending.token,
            from: pending.from,
            to: pending.to,
            amount_raw: pending.amount_raw,
            timestamp,
        },
    )
}

/// Decides the token's decimals at start from the configuration and, where
/// it was made, the reply to the decimals call.
pub fn decide_decimals(configured: Option<u8>, reply: Option<&[u8]>) -> (r: Result<u8, IndexerError>)
    ensures
        r == startup_decimals(
            configured,
            match reply {
                Some(bytes) => Some(bytes@),
                None => None,
            },
        ),
{
    match configured {
        Some(d) => Ok(d),
        None => match reply {
            None => Err(IndexerError::MissingDecimals),
            Some(bytes) => {
                let number = Amount::from_reply(bytes);
                match number.to_u64() {
                    Some(v) => if v > 0xffff_ffff {
                        Err(IndexerError::DecimalsOutOfRange)
                    } else {
                        Ok((v % 256) as u8)
                    },
                    None => Err(IndexerError::DecimalsOutOfRange),
                }
            },
        },
    }
}

/// The state of one indexer: the store it writes to, the token it follows
/// and the wallets it watches.
pub struct Indexer {
    cfg: AppConfig,
    db: Db,
    exchange_id: i64,
    decimals: u8,
    watched: WatchedAddressSet,
}

/// What an `Indexer` stands for in contracts.
pub struct IndexerView {
    pub db: DbView,
    pub watched: Set<Seq<u8>>,
    pub token: Seq<u8>,
    pub exchange_id: i64,
    pub decimals: u8,
}

impl View for Indexer {
    type V = IndexerView;

    closed spec fn view(&self) -> IndexerView {
        IndexerView {
            db: self.db@,
            watched: self.watched@,
            token: self.cfg.pol_token@,
            exchange_id: self.exchange_id,
            decimals: self.decimals,
        }
    }
}

/// One item of the feed together with the answer that the block lookup
/// gives for its block number.
#[derive(Clone, Debug)]
pub struct FeedItem {
    pub log: LogRecord,
    pub lookup: BlockLookup,
}

impl IndexerView {
    /// The store after `log` has been processed with `lookup` as the
    /// answer of the block lookup: changed only where the record is
    /// relevant and complete, and then by one application of its event.
    pub open spec fn db_after(self, log: LogRecordView, lookup: BlockLookupView) -> DbView {
        match examined(self.token, self.watched, log) {
            Ok(StepView::Relevant(p)) => match completed(p, lookup) {
                Ok(t) => self.db.apply(self.exchange_id, t, p.direction),
                Err(_) => self.db,
            },
            _ => self.db,
        }
    }

    /// How the processing of `log` ends.
    pub open spec fn outcome(self, log: LogRecordView, lookup: BlockLookupView) -> Result<
        Outcome,
        IndexerError,
    > {
        match examined(self.token, self.watched, log) {
            Err(e) => Err(e),
            Ok(StepView::Malformed) => Ok(Outcome::Skipped),
            Ok(StepView::Irrelevant) => Ok(Outcome::Dropped),
            Ok(StepView::Relevant(p)) => match completed(p, lookup) {
                Err(e) => Err(e),
                Ok(t) => if self.db.refuses(self.exchange_id, t, p.direction) {
                    Err(IndexerError::Storage(StorageError::TotalOverflow))
                } else {
                    Ok(Outcome::Delivered)
                },
            },
        }
    }

    /// The indexer after `log` has been processed.
    pub open spec fn after(self, log: LogRecordView, lookup: BlockLookupView) -> IndexerView {
        IndexerView { db: self.db_after(log, lookup), ..self }
    }

    /// The indexer after the first `n` items of a feed have been processed
    /// in order.
    pub open spec fn after_feed(self, feed: Seq<FeedItem>, n: nat) -> IndexerView
        decreases n,
    {
        if n == 0 {
            self
        } else {
            self.after_feed(feed, (n - 1) as nat).after(feed[n - 1].log@, feed[n - 1].lookup@)
        }
    }
}

impl Indexer {
    /// The indexer's own invariant: its store is well formed.
    pub closed spec fn wf(&self) -> bool {
        self.db.wf()
    }

    /// The configuration that the indexer was started with.
    pub closed spec fn started_with(&self) -> AppConfig {
        self.cfg
    }

    /// A well-formed indexer holds a well-formed store.
    pub proof fn lemma_db_wf(&self)
        requires
            self.wf(),
        ensures
            self@.db.wf(),
    {
        self.db.lemma_view_wf();
    }

    /// The call data of the decimals query that has to be made before the
    /// indexer can start, or `None` where the configuration gives the
    /// token's decimals.
    pub fn decimals_query(cfg: &AppConfig) -> (query: Option<[u8; 4]>)
        ensures
            query is None <==> cfg.pol_decimals is Some,
            query matches Some(selector) ==> selector@ == keccak256_digest(
                "decimals()".spec_bytes(),
            ).take(4),
    {
        match cfg.pol_decimals {
            Some(_) => None,
            None => Some(function_selector("decimals()")),
        }
    }

    /// Starts an indexer on `db` for exchange 1: settles the token's
    /// decimals, ensures the aggregate row of the token and records the
    /// exchange's wallets. `decimals_reply` is the reply to the decimals
    /// query, where one was made. Fails where the decimals cannot be
    /// settled or no wallet is configured.
    pub fn new(cfg: AppConfig, db: Db, decimals_reply: Option<&[u8]>) -> (r: Result<
        Indexer,
        IndexerError,
    >)
        requires
            db.wf(),
        ensures
            match r {
                Ok(indexer) => {
                    &&& indexer.wf()
                    &&& indexer.started_with() == cfg
                    &&& cfg.binance_addrs@.len() > 0
                    &&& startup_decimals(
                        cfg.pol_decimals,
                        match decimals_reply {
                            Some(bytes) => Some(bytes@),
                            None => None,
                        },
                    ) == Ok::<u8, IndexerError>(indexer@.decimals)
                    &&& indexer@.exchange_id == 1
                    &&& indexer@.token == cfg.pol_token@
                    &&& indexer@.watched == address_set(cfg.binance_addrs@)
                    &&& indexer@.db == db@.ensure_row(
                        1,
                        cfg.pol_token@,
                        cfg.pol_symbol@,
                        indexer@.decimals,
                    ).with_addresses(1, cfg.binance_addrs@)
                },
                Err(e) => match startup_decimals(
                    cfg.pol_decimals,
                    match decimals_reply {
                        Some(bytes) => Some(bytes@),
                        None => None,
                    },
                ) {
                    Err(d) => e == d,
                    Ok(_) => e == IndexerError::NoWatchedAddress && cfg.binance_addrs@.len() == 0,
                },
            },
    {
        let decimals = match decide_decimals(cfg.pol_decimals, decimals_reply) {
            Ok(d) => d,
            Err(e) => {
                return Err(e);
            },
        };
        let watched = match WatchedAddressSet::new(&cfg.binance_addrs) {
            Some(set) => set,
            None => {
                return Err(IndexerError::NoWatchedAddress);
            },
        };
        let mut db = db;
        db.ensure_netflow_row(1, cfg.pol_token, cfg.pol_symbol.as_str(), decimals);
        db.upsert_exchange_addresses(1, &cfg.binance_addrs);
        Ok(Indexer { cfg, db, exchange_id: 1, decimals, watched })
    }

    /// The aggregate store.
    pub fn db(&self) -> (db: &Db)
        requires
            self.wf(),
        ensures
            db@ == self@.db,
            db.wf(),
    {
        &self.db
    }

    /// The configuration the indexer was started with.
    pub fn config(&self) -> (cfg: &AppConfig)
        ensures
            *cfg == self.started_with(),
            cfg.pol_token@ == self@.token,
    {
        &self.cfg
    }

    /// The identifier of the exchange whose wallets are watched.
    pub fn exchange_id(&self) -> (id: i64)
        ensures
            id == self@.exchange_id,
    {
        self.exchange_id
    }

    /// The token's decimal places.
    pub fn decimals(&self) -> (d: u8)
        ensures
            d == self@.decimals,
    {
        self.decimals
    }

    /// The watched address set.
    pub fn watched(&self) -> (set: &WatchedAddressSet)
        ensures
            set@ == self@.watched,
    {
        &self.watched
    }

    /// Examines one record: checks its shape, decodes sender, recipient and
    /// amount, and classifies the transfer. The store is neither read nor
    /// written.
    pub fn examine(&self, log: &LogRecord) -> (r: Result<Step, IndexerError>)
        ensures
            match r {
                Ok(step) => examined(self@.token, self@.watched, log@) == Ok::<
                    StepView,
                    IndexerError,
                >(step@),
                Err(e) => examined(self@.token, self@.watched, log@) == Err::<
                    StepView,
                    IndexerError,
                >(e),
            },
    {
        if log.topics.len() != 3 {
            return Ok(Step::Malformed);
        }
        let from = log.topics[1].to_address();
        let to = log.topics[2].to_address();
        let direction = match classify(&from, &to, &self.watched).direction() {
            Some(direction) => direction,
            None => {
                return Ok(Step::Irrelevant);
            },
        };
        let amount_raw = Amount::from_log_data(log.data.as_slice());
        let block_number = match log.block_number {
            Some(number) => number,
            None => {
                return Err(IndexerError::MissingBlockNumber);
            },
        };
        let tx_hash = match log.transaction_hash {
            Some(hash) => hash,
            None => Hash256::zero(),
        };
        Ok(
            Step::Relevant(
                Pending {
                    block_number,
                    tx_hash,
                    log_index: log.log_index,
                    token: self.cfg.pol_token,
                    from,
                    to,
                    amount_raw,
                    direction,
                },
            ),
        )
    }

    /// Finishes a relevant record with the answer of the block lookup:
    /// builds the transfer event, applies it to the store and returns it.
    /// On failure the store is left as it was.
    pub fn finish(&mut self, pending: &Pending, lookup: &BlockLookup) -> (r: Result<
        Transfer,
        IndexerError,
    >)
        requires
            old(self).wf(),
        ensures
            final(self).wf(),
            final(self)@ == (IndexerView {
                db: match completed(pending@, lookup@) {
                    Ok(t) => old(self)@.db.apply(old(self)@.exchange_id, t, pending.direction),
                    Err(_) => old(self)@.db,
                },
                ..old(self)@
            }),
            match completed(pending@, lookup@) {
                Err(e) => r == Err::<Transfer, IndexerError>(e),
                Ok(t) => if old(self)@.db.refuses(old(self)@.exchange_id, t, pending.direction) {
                    r == Err::<Transfer, IndexerError>(
                        IndexerError::Storage(StorageError::TotalOverflow),
                    )
                } else {
                    r matches Ok(event) && event@ == t
                },
            },
            r is Err ==> final(self)@ == old(self)@,
            final(self).started_with() == old(self).started_with(),
    {
        let transfer = match complete(pending, lookup) {
            Ok(transfer) => transfer,
            Err(e) => {
                return Err(e);
            },
        };
        match self.db.insert_transfer_and_update_netflow(
            self.exchange_id,
            &transfer,
            pending.direction,
        ) {
            Ok(()) => Ok(transfer),
            Err(e) => Err(IndexerError::Storage(e)),
        }
    }

    /// Processes one record from examination to the store, with `lookup`
    /// as the answer that the block lookup gives for the record's block.
    /// The answer is read only where the record is relevant.
    pub fn process_log(&mut self, log: &LogRecord, lookup: &BlockLookup) -> (r: Result<
        Outcome,
        IndexerError,
    >)
        requires
            old(self).wf(),
        ensures
            final(self).wf(),
            final(self)@ == old(self)@.after(log@, lookup@),
            r == old(self)@.outcome(log@, lookup@),
            r is Err ==> final(self)@ == old(self)@,
            final(self)@.db.checkpoint >= old(self)@.db.checkpoint,
            final(self).started_with() == old(self).started_with(),
    {
        match self.examine(log) {
            Err(e) => Err(e),
            Ok(Step::Malformed) => Ok(Outcome::Skipped),
            Ok(Step::Irrelevant) => Ok(Outcome::Dropped),
            Ok(Step::Relevant(pending)) => match self.finish(&pending, lookup) {
                Ok(_) => Ok(Outcome::Delivered),
                Err(e) => Err(e),
            },
        }
    }

    /// Processes a batch of the feed in order. Every item is processed,
    /// whatever became of the items before it: a failure is reported in
    /// the item's place in the result and the run goes on.
    pub fn run(&mut self, feed: &Vec<FeedItem>) -> (results: Vec<Result<Outcome, IndexerError>>)
        requires
            old(self).wf(),
        ensures
            final(self).wf(),
            results@.len() == feed@.len(),
            final(self)@ == old(self)@.after_feed(feed@, feed@.len()),
            forall|i: int|
                0 <= i < feed@.len() ==> #[trigger] results@[i] == old(self)@.after_feed(
                    feed@,
                    i as nat,
                ).outcome(feed@[i].log@, feed@[i].lookup@),
            final(self)@.db.checkpoint >= old(self)@.db.checkpoint,
            final(self).started_with() == old(self).started_with(),
    {
        let mut results: Vec<Result<Outcome, IndexerError>> = Vec::new();
        let mut i: usize = 0;
        while i < feed.len()
            invariant
                i <= feed@.len(),
                self.wf(),
                results@.len() == i,
                self@ == old(self)@.after_feed(feed@, i as nat),
                forall|j: int|
                    0 <= j < i ==> #[trigger] results@[j] == old(self)@.after_feed(
                        feed@,
                        j as nat,
                    ).outcome(feed@[j].log@, feed@[j].lookup@),
                self@.db.checkpoint >= old(self)@.db.checkpoint,
                self.started_with() == old(self).started_with(),
            decreases feed@.len() - i,
        {
            let r = self.process_log(&feed[i].log, &feed[i].lookup);
            results.push(r);
            i += 1;
        }
        results
    }
}

/// A record of the wrong shape is skipped and a transfer that touches no
/// watched address is dropped: either way the store is left exactly as it
/// was, whatever the block lookup would have answered.
pub proof fn lemma_unwanted_record_writes_nothing(
    v: IndexerView,
    log: LogRecordView,
    lookup: BlockLookupView,
)
    ensures
        log.topics.len() != transfer_topic_count() ==> v.outcome(log, lookup) == Ok::<
            Outcome,
            IndexerError,
        >(Outcome::Skipped) && v.after(log, lookup) == v,
        log.topics.len() == transfer_topic_count() && !v.watched.contains(
            log.topics[1].subrange(12, 32),
        ) && !v.watched.contains(log.topics[2].subrange(12, 32)) ==> v.outcome(log, lookup) == Ok::<
            Outcome,
            IndexerError,
        >(Outcome::Dropped) && v.after(log, lookup) == v,
{
}

/// A record that fails leaves the store as it was, and the checkpoint
/// never moves backwards, whatever the record.
pub proof fn lemma_failure_is_contained(v: IndexerView, log: LogRecordView, lookup: BlockLookupView)
    ensures
        v.outcome(log, lookup) is Err ==> v.after(log, lookup) == v,
        v.after(log, lookup).db.checkpoint >= v.db.checkpoint,
{
}

} // verus!
