use netflow_indexer::amount::Amount;
use netflow_indexer::config::AppConfig;
use netflow_indexer::db::Db;
use netflow_indexer::hashing::{function_selector, selector_of, transfer_topic};
use netflow_indexer::indexer::{
    complete, decide_decimals, BlockLookup, FeedItem, Indexer, IndexerError, LogRecord, Outcome,
    Pending, Step,
};
use netflow_indexer::types::{Address, Direction, Hash256};

fn account(last: u8) -> Address {
    let mut bytes = [0u8; 20];
    bytes[19] = last;
    Address::new(bytes)
}

fn topic_of(a: &Address) -> Hash256 {
    let mut bytes = [0u8; 32];
    bytes[12..].copy_from_slice(a.as_bytes());
    Hash256::new(bytes)
}

fn tx(n: u8) -> Hash256 {
    let mut bytes = [0u8; 32];
    bytes[0] = n;
    bytes[31] = n;
    Hash256::new(bytes)
}

fn amount_word(raw: u128) -> Vec<u8> {
    let mut data = vec![0u8; 16];
    data.extend_from_slice(&raw.to_be_bytes());
    data
}

fn transfer_log(from: u8, to: u8, raw: u128, block: u64, n: u8) -> LogRecord {
    LogRecord {
        topics: vec![transfer_topic(), topic_of(&account(from)), topic_of(&account(to))],
        data: amount_word(raw),
        block_number: Some(block),
        transaction_hash: Some(tx(n)),
        log_index: Some(Amount::from_u128(n as u128)),
    }
}

fn found(seconds: u64) -> BlockLookup {
    BlockLookup::Found { timestamp: Amount::from_u128(seconds as u128) }
}

fn test_config(decimals: Option<u8>, watched: Vec<Address>) -> AppConfig {
    AppConfig {
        ws_url: String::from("ws://node"),
        http_url: String::from("http://node"),
        db_url: String::from("sqlite://netflow.db"),
        pol_token: account(0x77),
        pol_symbol: String::from("POL"),
        pol_decimals: decimals,
        binance_addrs: watched,
        http_listen_addr: String::from("0.0.0.0:8080"),
    }
}

fn started() -> Indexer {
    Indexer::new(test_config(Some(6), vec![account(0x0a)]), Db::new(), None).expect("starts")
}

fn shown_value(limbs: [u64; 5], decimals: u8) -> f64 {
    let mut value = 0.0f64;
    for i in (0..5).rev() {
        value = value * 18446744073709551616.0 + limbs[i] as f64;
    }
    value / 10f64.powi(decimals as i32)
}

#[test]
fn inbound_transfer_through_the_indexer() {
    let mut ix = started();
    let log = transfer_log(0x0b, 0x0a, 1_000_000, 321, 1);
    assert_eq!(ix.process_log(&log, &found(1_700_000_000)), Ok(Outcome::Delivered));
    let row = ix.db().fetch_netflow(1, &account(0x77)).expect("row");
    assert_eq!(shown_value(row.cumulative_in.limbs(), ix.decimals()), 1.0);
    assert_eq!(shown_value(row.cumulative_out.limbs(), ix.decimals()), 0.0);
    let net = row.net();
    assert!(!net.negative);
    assert_eq!(shown_value(net.magnitude.limbs(), ix.decimals()), 1.0);
    assert_eq!(row.last_block, 321);
    let kept = ix.db().find_transfer(&tx(1), 1).expect("recorded");
    assert_eq!(kept.from, account(0x0b));
    assert_eq!(kept.to, account(0x0a));
    assert_eq!(kept.token, account(0x77));
    assert_eq!(kept.amount_raw, Amount::from_u128(1_000_000));
    assert_eq!(kept.timestamp, 1_700_000_000);
    assert_eq!(kept.block_number, 321);
}

#[test]
fn outbound_transfer_after_inbound_through_the_indexer() {
    let mut ix = started();
    let first = transfer_log(0x0b, 0x0a, 1_000_000, 321, 1);
    let second = transfer_log(0x0a, 0x0c, 500_000, 322, 2);
    assert_eq!(ix.process_log(&first, &found(10)), Ok(Outcome::Delivered));
    assert_eq!(ix.process_log(&second, &found(11)), Ok(Outcome::Delivered));
    let row = ix.db().fetch_netflow(1, &account(0x77)).expect("row");
    assert_eq!(shown_value(row.cumulative_in.limbs(), 6), 1.0);
    assert_eq!(shown_value(row.cumulative_out.limbs(), 6), 0.5);
    let net = row.net();
    assert!(!net.negative);
    assert_eq!(shown_value(net.magnitude.limbs(), 6), 0.5);
}

#[test]
fn record_with_too_few_topics_is_skipped_and_the_run_goes_on() {
    let mut ix = started();
    let mut short = transfer_log(0x0b, 0x0a, 77, 5, 1);
    short.topics.pop();
    let feed = vec![
        FeedItem { log: short, lookup: found(1) },
        FeedItem { log: transfer_log(0x0b, 0x0a, 1_000, 6, 2), lookup: found(2) },
    ];
    let results = ix.run(&feed);
    assert_eq!(results, vec![Ok(Outcome::Skipped), Ok(Outcome::Delivered)]);
    let row = ix.db().fetch_netflow(1, &account(0x77)).unwrap();
    assert_eq!(row.cumulative_in.limbs(), [1_000, 0, 0, 0, 0]);
    assert!(!ix.db().is_recorded(&tx(1), 1));
    assert!(ix.db().is_recorded(&tx(2), 2));
}

#[test]
fn malformed_record_leaves_the_aggregate_unchanged() {
    let mut ix = started();
    let mut long = transfer_log(0x0b, 0x0a, 77, 5, 1);
    long.topics.push(Hash256::zero());
    assert_eq!(ix.process_log(&long, &found(1)), Ok(Outcome::Skipped));
    let mut none = transfer_log(0x0b, 0x0a, 77, 5, 2);
    none.topics.clear();
    assert_eq!(ix.process_log(&none, &found(1)), Ok(Outcome::Skipped));
    let row = ix.db().fetch_netflow(1, &account(0x77)).unwrap();
    assert_eq!(row.cumulative_in.limbs(), [0; 5]);
    assert_eq!(row.cumulative_out.limbs(), [0; 5]);
    assert_eq!(row.last_block, 0);
    assert_eq!(ix.db().checkpoint(), 0);
}

#[test]
fn irrelevant_transfer_writes_nothing() {
    let mut ix = started();
    let log = transfer_log(0x0b, 0x0c, 1_000, 40, 1);
    assert_eq!(ix.process_log(&log, &BlockLookup::Failed), Ok(Outcome::Dropped));
    assert!(!ix.db().is_recorded(&tx(1), 1));
    assert_eq!(ix.db().checkpoint(), 0);
    assert_eq!(ix.db().fetch_netflow(1, &account(0x77)).unwrap().cumulative_in.limbs(), [0; 5]);
}

#[test]
fn failing_record_does_not_stop_the_run() {
    let mut ix = started();
    let mut no_block = transfer_log(0x0b, 0x0a, 5, 1, 1);
    no_block.block_number = None;
    let mut far = transfer_log(0x0b, 0x0a, 5, 1, 5);
    far.log_index = Some(Amount::from_limbs([0, 1, 0, 0]));
    let feed = vec![
        FeedItem { log: no_block, lookup: found(1) },
        FeedItem { log: transfer_log(0x0b, 0x0a, 5, 2, 2), lookup: BlockLookup::Failed },
        FeedItem { log: transfer_log(0x0b, 0x0a, 5, 3, 3), lookup: BlockLookup::NotFound },
        FeedItem {
            log: transfer_log(0x0b, 0x0a, 5, 4, 4),
            lookup: BlockLookup::Found { timestamp: Amount::from_limbs([0, 0, 1, 0]) },
        },
        FeedItem { log: far, lookup: found(1) },
        FeedItem { log: transfer_log(0x0a, 0x0b, 9, 9, 6), lookup: found(3) },
        FeedItem { log: transfer_log(0x0a, 0x0b, 9, 9, 6), lookup: found(3) },
    ];
    let results = ix.run(&feed);
    assert_eq!(
        results,
        vec![
            Err(IndexerError::MissingBlockNumber),
            Err(IndexerError::BlockLookupFailed),
            Err(IndexerError::BlockNotFound),
            Err(IndexerError::TimestampOutOfRange),
            Err(IndexerError::LogIndexOutOfRange),
            Ok(Outcome::Delivered),
            Ok(Outcome::Delivered),
        ]
    );
    let row = ix.db().fetch_netflow(1, &account(0x77)).unwrap();
    assert_eq!(row.cumulative_in.limbs(), [0; 5]);
    assert_eq!(row.cumulative_out.limbs(), [9, 0, 0, 0, 0]);
    assert_eq!(ix.db().checkpoint(), 9);
}

#[test]
fn examine_decodes_the_record() {
    let ix = started();
    let log = transfer_log(0x0a, 0x0c, 0x0102_0304, 17, 3);
    match ix.examine(&log) {
        Ok(Step::Relevant(p)) => {
            assert_eq!(p.from, account(0x0a));
            assert_eq!(p.to, account(0x0c));
            assert_eq!(p.amount_raw, Amount::from_u128(0x0102_0304));
            assert_eq!(p.direction, Direction::Outbound);
            assert_eq!(p.block_number, 17);
            assert_eq!(p.tx_hash, tx(3));
            assert_eq!(p.log_index, Some(Amount::from_u128(3)));
            assert_eq!(p.token, account(0x77));
        }
        other => panic!("unexpected {:?}", other),
    }
}

#[test]
fn short_data_reads_as_zero_amount() {
    let ix = started();
    let mut log = transfer_log(0x0b, 0x0a, 5, 17, 3);
    log.data = vec![0xff; 31];
    match ix.examine(&log) {
        Ok(Step::Relevant(p)) => assert_eq!(p.amount_raw, Amount::zero()),
        other => panic!("unexpected {:?}", other),
    }
    log.data = Vec::new();
    match ix.examine(&log) {
        Ok(Step::Relevant(p)) => assert_eq!(p.amount_raw, Amount::zero()),
        other => panic!("unexpected {:?}", other),
    }
}

#[test]
fn amount_is_read_from_the_first_word_of_the_data() {
    let mut data = Vec::new();
    for i in 0..32u8 {
        data.push(i + 1);
    }
    data.extend_from_slice(&[0xee; 40]);
    let a = Amount::from_log_data(&data);
    assert_eq!(
        a.limbs(),
        [0x191a1b1c1d1e1f20, 0x1112131415161718, 0x090a0b0c0d0e0f10, 0x0102030405060708]
    );
    assert_eq!(Amount::from_log_data(&amount_word(1_000_000)), Amount::from_u128(1_000_000));
}

#[test]
fn missing_transaction_hash_and_log_index_default_to_zero() {
    let mut ix = started();
    let mut log = transfer_log(0x0b, 0x0a, 5, 17, 3);
    log.transaction_hash = None;
    log.log_index = None;
    assert_eq!(ix.process_log(&log, &found(4)), Ok(Outcome::Delivered));
    let kept = ix.db().find_transfer(&Hash256::zero(), 0).expect("recorded");
    assert_eq!(kept.amount_raw, Amount::from_u128(5));
}

#[test]
fn complete_reports_each_failure() {
    let pending = Pending {
        block_number: 3,
        tx_hash: tx(1),
        log_index: Some(Amount::from_u128(u64::MAX as u128)),
        token: account(0x77),
        from: account(1),
        to: account(2),
        amount_raw: Amount::from_u128(10),
        direction: Direction::Inbound,
    };
    assert_eq!(complete(&pending, &BlockLookup::Failed).unwrap_err(), IndexerError::BlockLookupFailed);
    assert_eq!(complete(&pending, &BlockLookup::NotFound).unwrap_err(), IndexerError::BlockNotFound);
    let late = BlockLookup::Found { timestamp: Amount::from_u128(u64::MAX as u128 + 1) };
    assert_eq!(complete(&pending, &late).unwrap_err(), IndexerError::TimestampOutOfRange);
    let t = complete(&pending, &found(u64::MAX)).expect("fits");
    assert_eq!(t.log_index, u64::MAX);
    assert_eq!(t.timestamp, u64::MAX);
    let mut far = pending;
    far.log_index = Some(Amount::from_u128(u64::MAX as u128 + 1));
    assert_eq!(complete(&far, &found(1)).unwrap_err(), IndexerError::LogIndexOutOfRange);
    assert_eq!(complete(&far, &late).unwrap_err(), IndexerError::TimestampOutOfRange);
}

#[test]
fn start_records_row_and_wallets() {
    let ix = Indexer::new(test_config(Some(18), vec![account(1), account(2)]), Db::new(), None)
        .expect("starts");
    assert_eq!(ix.exchange_id(), 1);
    assert_eq!(ix.decimals(), 18);
    assert!(ix.watched().contains(&account(1)));
    assert!(ix.watched().contains(&account(2)));
    assert!(!ix.watched().contains(&account(3)));
    let row = ix.db().fetch_netflow(1, &account(0x77)).expect("row");
    assert_eq!(row.symbol, "POL");
    assert_eq!(row.decimals, 18);
    assert!(ix.db().has_exchange_address(1, &account(1)));
    assert!(ix.db().has_exchange_address(1, &account(2)));
    assert_eq!(ix.config().pol_token, account(0x77));
}

#[test]
fn start_fails_without_wallets_or_decimals() {
    let r = Indexer::new(test_config(Some(6), Vec::new()), Db::new(), None);
    assert_eq!(r.err(), Some(IndexerError::NoWatchedAddress));
    let r = Indexer::new(test_config(None, vec![account(1)]), Db::new(), None);
    assert_eq!(r.err(), Some(IndexerError::MissingDecimals));
    let mut reply = vec![0u8; 32];
    reply[27] = 1;
    let r = Indexer::new(test_config(None, vec![account(1)]), Db::new(), Some(&reply));
    assert_eq!(r.err(), Some(IndexerError::DecimalsOutOfRange));
    reply[27] = 0;
    reply[31] = 18;
    let ix = Indexer::new(test_config(None, vec![account(1)]), Db::new(), Some(&reply)).unwrap();
    assert_eq!(ix.decimals(), 18);
}

#[test]
fn decimals_come_from_the_configuration_or_the_reply() {
    assert_eq!(decide_decimals(Some(6), None), Ok(6));
    assert_eq!(decide_decimals(Some(6), Some(&[0xff; 32])), Ok(6));
    assert_eq!(decide_decimals(None, None), Err(IndexerError::MissingDecimals));
    assert_eq!(decide_decimals(None, Some(&[0x12])), Ok(0x12));
    assert_eq!(decide_decimals(None, Some(&[])), Ok(0));
    let mut reply = vec![0u8; 32];
    reply[31] = 6;
    reply[30] = 1;
    // 262 is reduced to its low eight bits
    assert_eq!(decide_decimals(None, Some(&reply)), Ok(6));
    reply[28] = 0xff;
    assert_eq!(decide_decimals(None, Some(&reply)), Ok(6));
    reply[27] = 1;
    assert_eq!(decide_decimals(None, Some(&reply)), Err(IndexerError::DecimalsOutOfRange));
    // only the last thirty-two bytes count
    let mut long = vec![0xffu8; 8];
    long.extend_from_slice(&[0u8; 31]);
    long.push(9);
    assert_eq!(decide_decimals(None, Some(&long)), Ok(9));
}

#[test]
fn decimals_query_is_made_only_when_needed() {
    assert_eq!(Indexer::decimals_query(&test_config(Some(6), vec![account(1)])), None);
    assert_eq!(
        Indexer::decimals_query(&test_config(None, vec![account(1)])),
        Some([0x31, 0x3c, 0xe5, 0x67])
    );
}

#[test]
fn transfer_topic_is_the_digest_of_the_signature() {
    let expected: [u8; 32] = [
        0xdd, 0xf2, 0x52, 0xad, 0x1b, 0xe2, 0xc8, 0x9b, 0x69, 0xc2, 0xb0, 0x68, 0xfc, 0x37, 0x8d,
        0xaa, 0x95, 0x2b, 0xa7, 0xf1, 0x63, 0xc4, 0xa1, 0x16, 0x28, 0xf5, 0x5a, 0x4d, 0xf5, 0x23,
        0xb3, 0xef,
    ];
    assert_eq!(transfer_topic(), Hash256::new(expected));
    assert_eq!(function_selector("decimals()"), [0x31, 0x3c, 0xe5, 0x67]);
    assert_eq!(function_selector("transfer(address,uint256)"), [0xa9, 0x05, 0x9c, 0xbb]);
    assert_eq!(selector_of(&Hash256::new(expected)), [0xdd, 0xf2, 0x52, 0xad]);
}

#[test]
fn display_value_from_high_and_low_parts() {
    let split = |a: Amount, decimals: u8| -> f64 {
        let (high, low) = a.split_high_low();
        let mut h = 0.0f64;
        for i in (0..3).rev() {
            h = h * 18446744073709551616.0 + high[i] as f64;
        }
        (h * 18446744073709551616.0 + low as f64) / 10f64.powi(decimals as i32)
    };
    assert_eq!(split(Amount::from_u128(1_000_000), 6), 1.0);
    assert_eq!(split(Amount::from_u128(500_000), 6), 0.5);
    assert_eq!(split(Amount::zero(), 0), 0.0);
    assert_eq!(split(Amount::zero(), 76), 0.0);
    assert_eq!(split(Amount::zero(), 255), 0.0);
    assert_eq!(split(Amount::from_limbs([0, 1, 0, 0]), 0), 18446744073709551616.0);
    let max = split(Amount::from_limbs([u64::MAX; 4]), 76);
    assert!(max.is_finite());
    assert!(max > 11.0 && max < 12.0);
    let (high, low) = Amount::from_limbs([1, 2, 3, 4]).split_high_low();
    assert_eq!((high, low), ([2, 3, 4], 1));
}

#[test]
fn amount_conversions() {
    assert_eq!(Amount::from_u128(u128::MAX).limbs(), [u64::MAX, u64::MAX, 0, 0]);
    assert_eq!(Amount::from_u128(7).to_u64(), Some(7));
    assert_eq!(Amount::from_limbs([u64::MAX, 0, 0, 0]).to_u64(), Some(u64::MAX));
    assert_eq!(Amount::from_limbs([0, 1, 0, 0]).to_u64(), None);
    assert_eq!(Amount::from_limbs([0, 0, 0, 1]).to_u64(), None);
    assert_eq!(Amount::zero(), Amount::from_u128(0));
    assert_ne!(Amount::from_u128(1), Amount::from_u128(2));
}
