//! The read side: the answer to a query for the current netflow of the
//! followed token.

use vstd::prelude::*;
use crate::amount::Total;
use crate::config::AppConfig;
use crate::db::{Db, Net, NetflowAggregate, NetflowAggregateView};
use crate::types::Address;

verus! {

/// The answer to a netflow query, in raw token units.
#[derive(Clone, Copy, Debug)]
pub struct NetflowResp {
    pub exchange: &'static str,
    pub token: Address,
    pub decimals: u8,
    pub cumulative_in: Total,
    pub cumulative_out: Total,
    pub cumulative_net: Net,
    pub last_updated_block: u64,
}

/// What the answer shows of an aggregate, or of none: the totals of the
/// aggregate, and all zeros with block number zero where there is no data
/// yet.
pub open spec fn shown(row: Option<NetflowAggregateView>) -> (u8, nat, nat, int, u64) {
    match row {
        Some(r) => (r.decimals, r.cumulative_in, r.cumulative_out, r.net(), r.last_block),
        None => (0, 0, 0, 0, 0),
    }
}

/// The answer for `token` from the aggregate that a point read found, or
/// found missing. A token without data is answered with zeros, not with an
/// error.
pub fn respond(token: Address, row: Option<&NetflowAggregate>) -> (resp: NetflowResp)
    ensures
        resp.exchange@ == "binance"@,
        resp.token == token,
        (
            resp.decimals,
            resp.cumulative_in@,
            resp.cumulative_out@,
            resp.cumulative_net@,
            resp.last_updated_block,
        ) == shown(
            match row {
                Some(r) => Some(r@),
                None => None,
            },
        ),
{
    match row {
        Some(row) => NetflowResp {
            exchange: "binance",
            token,
            decimals: row.decimals,
            cumulative_in: row.cumulative_in,
            cumulative_out: row.cumulative_out,
            cumulative_net: row.net(),
            last_updated_block: row.last_block,
        },
        None => NetflowResp {
            exchange: "binance",
            token,
            decimals: 0,
            cumulative_in: Total::zero(),
            cumulative_out: Total::zero(),
            cumulative_net: Net { negative: false, magnitude: Total::zero() },
            last_updated_block: 0,
        },
    }
}

/// Serves one query for the netflow of the configured token at exchange 1
/// from the current state of the store. Reads only: the store is not
/// changed.
pub fn serve(cfg: &AppConfig, db: &Db) -> (resp: NetflowResp)
    requires
        db.wf(),
    ensures
        resp.exchange@ == "binance"@,
        resp.token == cfg.pol_token,
        (
            resp.decimals,
            resp.cumulative_in@,
            resp.cumulative_out@,
            resp.cumulative_net@,
            resp.last_updated_block,
        ) == shown(
            if db@.rows.contains_key((1, cfg.pol_token@)) {
                Some(db@.rows[(1, cfg.pol_token@)])
            } else {
                None
            },
        ),
{
    respond(cfg.pol_token, db.fetch_netflow(1, &cfg.pol_token))
}

} // verus!
