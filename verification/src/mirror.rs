//! The mirror store: a queryable replica of ledger state.
//!
//! The mirror never originates state — it only records outcomes the
//! ledger has confirmed — and serves the low-latency read paths: active
//! markets, positions, profit-and-loss, and claimable-payout previews.
//! Market rows are keyed by the deterministic market id, bet rows by
//! wallet and market id, and both keys are unique, so replaying a
//! confirmed outcome can never duplicate a row: market creation is
//! idempotent and claim recording is exactly-once.
//!
//! Prices and stakes are integers in their smallest units, exactly as
//! the ledger holds them, so the payout preview here is the same
//! integer formula the ledger settles with, not a drifting reimplementation.

use vstd::prelude::*;
use vstd::arithmetic::mul::lemma_mul_upper_bound;

use crate::engine::{spec_payout_amount, VIRTUAL_LIQUIDITY};
use crate::errors::StoreError;
use crate::state::BetSide;

verus! {

/// One market row of the mirror (times in unix seconds, prices in the
/// feed's smallest unit; `close_price` is empty until settlement).
pub struct Market {
    pub id: i64,
    pub market_id: i64,
    pub asset: Vec<u8>,
    pub start_time: i64,
    pub end_time: i64,
    pub lock_time: i64,
    pub open_price: u64,
    pub close_price: Option<u64>,
    pub green_pool_weighted: u64,
    pub red_pool_weighted: u64,
    pub virtual_liquidity: u64,
    pub settled: bool,
}

/// One bet row of the mirror (`payout` is empty until the claim is
/// recorded; `claimed` never reverts to false).
pub struct Bet {
    pub id: i64,
    pub wallet: Vec<u8>,
    pub market_id: i64,
    pub side: BetSide,
    pub amount: u64,
    pub weight: u64,
    pub effective_stake: u64,
    pub payout: Option<u64>,
    pub claimed: bool,
    pub created_at: i64,
}

/// One recorded payout, with the signature of the authorizing
/// transaction.
pub struct PayoutRecord {
    pub wallet: Vec<u8>,
    pub market_id: i64,
    pub lamports: u64,
    pub tx_signature: Vec<u8>,
}

/// One wallet's aggregate profit-and-loss row.
pub struct PnlEntry {
    pub wallet: Vec<u8>,
    pub total_pnl: i64,
    pub total_bets: i64,
}

/// Whether some market row carries `market_id`.
pub open spec fn spec_has_market(ms: Seq<Market>, market_id: i64) -> bool {
    exists|i: int| 0 <= i < ms.len() && ms[i].market_id == market_id
}

/// The index of the market row carrying `market_id`.
pub open spec fn spec_market_index(ms: Seq<Market>, market_id: i64) -> int {
    choose|i: int| 0 <= i < ms.len() && ms[i].market_id == market_id
}

/// Market ids appear at most once.
pub open spec fn spec_market_ids_unique(ms: Seq<Market>) -> bool {
    forall|i: int, j: int|
        0 <= i < j < ms.len() ==> #[trigger] ms[i].market_id != #[trigger] ms[j].market_id
}

/// Whether some bet row carries `(wallet, market_id)`.
pub open spec fn spec_has_bet(bs: Seq<Bet>, wallet: Seq<u8>, market_id: i64) -> bool {
    exists|i: int| 0 <= i < bs.len() && bs[i].wallet@ == wallet && bs[i].market_id == market_id
}

/// The index of the bet row carrying `(wallet, market_id)`.
pub open spec fn spec_bet_index(bs: Seq<Bet>, wallet: Seq<u8>, market_id: i64) -> int {
    choose|i: int| 0 <= i < bs.len() && bs[i].wallet@ == wallet && bs[i].market_id == market_id
}

/// A wallet places at most one bet per market.
pub open spec fn spec_bets_unique(bs: Seq<Bet>) -> bool {
    forall|i: int, j: int|
        0 <= i < j < bs.len() ==> !(#[trigger] bs[i].wallet@ == #[trigger] bs[j].wallet@
            && bs[i].market_id == bs[j].market_id)
}

/// Whether some profit-and-loss row carries `wallet`.
pub open spec fn spec_has_pnl(ps: Seq<PnlEntry>, wallet: Seq<u8>) -> bool {
    exists|i: int| 0 <= i < ps.len() && ps[i].wallet@ == wallet
}

/// The index of the profit-and-loss row carrying `wallet`.
pub open spec fn spec_pnl_index(ps: Seq<PnlEntry>, wallet: Seq<u8>) -> int {
    choose|i: int| 0 <= i < ps.len() && ps[i].wallet@ == wallet
}

/// Wallets appear at most once in the profit-and-loss table.
pub open spec fn spec_pnl_unique(ps: Seq<PnlEntry>) -> bool {
    forall|i: int, j: int|
        0 <= i < j < ps.len() ==> #[trigger] ps[i].wallet@ != #[trigger] ps[j].wallet@
}

/// The mirror store: append-only market and bet tables with unique
/// keys, the payout log, and the aggregate profit-and-loss table.
pub struct MirrorStore {
    pub markets: Vec<Market>,
    pub bets: Vec<Bet>,
    pub payouts: Vec<PayoutRecord>,
    pub pnl: Vec<PnlEntry>,
}

impl MirrorStore {
    /// The store's invariant: unique keys, and row counts that keep the
    /// 64-bit row ids from overflowing.
    pub open spec fn wf(self) -> bool {
        &&& spec_market_ids_unique(self.markets@)
        &&& spec_bets_unique(self.bets@)
        &&& spec_pnl_unique(self.pnl@)
        &&& self.markets@.len() < i64::MAX
        &&& self.bets@.len() < i64::MAX
        &&& self.pnl@.len() < i64::MAX
    }

    /// An empty mirror.
    pub fn new() -> (s: MirrorStore)
        ensures
            s.wf(),
            s.markets@ =~= Seq::<Market>::empty(),
            s.bets@ =~= Seq::<Bet>::empty(),
            s.payouts@ =~= Seq::<PayoutRecord>::empty(),
            s.pnl@ =~= Seq::<PnlEntry>::empty(),
    {
        MirrorStore { markets: Vec::new(), bets: Vec::new(), payouts: Vec::new(), pnl: Vec::new() }
    }

    /// The index of the market row with `market_id`, if any.
    fn find_market_index(&self, market_id: i64) -> (r: Option<usize>)
        ensures
            r matches Some(i) ==> i < self.markets@.len() && self.markets@[i as int].market_id
                == market_id,
            r is None ==> !spec_has_market(self.markets@, market_id),
    {
        let mut i: usize = 0;
        while i < self.markets.len()
            invariant
                i <= self.markets@.len(),
                forall|j: int| 0 <= j < i ==> self.markets@[j].market_id != market_id,
            decreases self.markets@.len() - i,
        {
            if self.markets[i].market_id == market_id {
                return Some(i);
            }
            i = i + 1;
        }
        None
    }

    /// The index of the bet row with `(wallet, market_id)`, if any.
    fn find_bet_index(&self, wallet: &Vec<u8>, market_id: i64) -> (r: Option<usize>)
        ensures
            r matches Some(i) ==> i < self.bets@.len() && self.bets@[i as int].wallet@ == wallet@
                && self.bets@[i as int].market_id == market_id,
            r is None ==> !spec_has_bet(self.bets@, wallet@, market_id),
    {
        let mut i: usize = 0;
        while i < self.bets.len()
            invariant
                i <= self.bets@.len(),
                forall|j: int|
                    0 <= j < i ==> !(self.bets@[j].wallet@ == wallet@ && self.bets@[j].market_id
                        == market_id),
            decreases self.bets@.len() - i,
        {
            if self.bets[i].market_id == market_id && bytes_eq(&self.bets[i].wallet, wallet) {
                return Some(i);
            }
            i = i + 1;
        }
        None
    }

    /// The index of the profit-and-loss row with `wallet`, if any.
    fn find_pnl_index(&self, wallet: &Vec<u8>) -> (r: Option<usize>)
        ensures
            r matches Some(i) ==> i < self.pnl@.len() && self.pnl@[i as int].wallet@ == wallet@,
            r is None ==> !spec_has_pnl(self.pnl@, wallet@),
    {
        let mut i: usize = 0;
        while i < self.pnl.len()
            invariant
                i <= self.pnl@.len(),
                forall|j: int| 0 <= j < i ==> self.pnl@[j].wallet@ != wallet@,
            decreases self.pnl@.len() - i,
        {
            if bytes_eq(&self.pnl[i].wallet, wallet) {
                return Some(i);
            }
            i = i + 1;
        }
        None
    }
}

/// Whether two byte strings hold the same bytes.
pub fn bytes_eq(a: &Vec<u8>, b: &Vec<u8>) -> (r: bool)
    ensures
        r == (a@ == b@),
{
    if a.len() != b.len() {
        return false;
    }
    let mut i: usize = 0;
    while i < a.len()
        invariant
            a@.len() == b@.len(),
            i <= a@.len(),
            forall|j: int| 0 <= j < i ==> a@[j] == b@[j],
        decreases a@.len() - i,
    {
        if a[i] != b[i] {
            return false;
        }
        i = i + 1;
    }
    proof {
        assert(a@ =~= b@);
    }
    true
}

} // verus!

// The writers: each records one confirmed ledger outcome.

verus! {

/// A fresh market row, as creation stores it: pools bootstrapped to the
/// virtual-liquidity floor, no close price, unsettled.
pub open spec fn spec_market_row(
    id: i64,
    market_id: i64,
    asset: Vec<u8>,
    start_time: i64,
    end_time: i64,
    lock_time: i64,
    open_price: u64,
) -> Market {
    Market {
        id,
        market_id,
        asset,
        start_time,
        end_time,
        lock_time,
        open_price,
        close_price: None,
        green_pool_weighted: VIRTUAL_LIQUIDITY,
        red_pool_weighted: VIRTUAL_LIQUIDITY,
        virtual_liquidity: VIRTUAL_LIQUIDITY,
        settled: false,
    }
}

/// The market table after one creation attempt: unchanged when the
/// market id is already present, else the new row appended.
pub open spec fn spec_markets_after_create(ms: Seq<Market>, row: Market) -> Seq<Market> {
    if spec_has_market(ms, row.market_id) {
        ms
    } else {
        ms.push(row)
    }
}

/// How many market rows carry `market_id`.
pub open spec fn spec_count_markets(ms: Seq<Market>, market_id: i64) -> int {
    ms.filter(|m: Market| m.market_id == market_id).len() as int
}

/// A settled market row: the close price recorded, the flag set,
/// everything else untouched.
pub open spec fn spec_settlement_row(m: Market, close_price: u64, settled: bool) -> Market {
    Market { close_price: Some(close_price), settled, ..m }
}

/// A fresh bet row, unclaimed and without a payout.
pub open spec fn spec_bet_row(
    id: i64,
    wallet: Vec<u8>,
    market_id: i64,
    side: BetSide,
    amount: u64,
    weight: u64,
    effective_stake: u64,
    created_at: i64,
) -> Bet {
    Bet {
        id,
        wallet,
        market_id,
        side,
        amount,
        weight,
        effective_stake,
        payout: None,
        claimed: false,
        created_at,
    }
}

/// A claimed bet row: the payout recorded and the flag set — the only
/// mutation a bet row ever sees.
pub open spec fn spec_claimed_bet(b: Bet, payout: u64) -> Bet {
    Bet { payout: Some(payout), claimed: true, ..b }
}

/// The outcome of recording a claim on the bet table: the result and
/// the table after.  A missing row is reported; a row already claimed
/// is rejected without touching anything — never a silent zero-payout
/// replay; otherwise the one row gains its payout and claimed flag.
pub open spec fn spec_claim_record(bs: Seq<Bet>, wallet: Seq<u8>, market_id: i64, payout: u64) -> (
    Result<(), StoreError>,
    Seq<Bet>,
) {
    if !spec_has_bet(bs, wallet, market_id) {
        (Err(StoreError::BetNotFound), bs)
    } else {
        let i = spec_bet_index(bs, wallet, market_id);
        if bs[i].claimed {
            (Err(StoreError::AlreadyClaimed), bs)
        } else {
            (Ok(()), bs.update(i, spec_claimed_bet(bs[i], payout)))
        }
    }
}

impl MirrorStore {
    /// Stores the market row for a newly created market and returns its
    /// row id; a row with the same market id is refused unchanged.
    pub fn insert_market(
        &mut self,
        market_id: i64,
        asset: Vec<u8>,
        start_time: i64,
        end_time: i64,
        lock_time: i64,
        open_price: u64,
    ) -> (r: Result<i64, StoreError>)
        requires
            old(self).wf(),
            old(self).markets@.len() + 1 < i64::MAX,
        ensures
            final(self).wf(),
            final(self).bets@ == old(self).bets@,
            final(self).payouts@ == old(self).payouts@,
            final(self).pnl@ == old(self).pnl@,
            spec_has_market(old(self).markets@, market_id) ==> r == Err::<i64, StoreError>(
                StoreError::DuplicateMarket,
            ) && final(self).markets@ == old(self).markets@,
            !spec_has_market(old(self).markets@, market_id) ==> r == Ok::<i64, StoreError>(
                (old(self).markets@.len() + 1) as i64,
            ) && final(self).markets@ == old(self).markets@.push(
                spec_market_row(
                    (old(self).markets@.len() + 1) as i64,
                    market_id,
                    asset,
                    start_time,
                    end_time,
                    lock_time,
                    open_price,
                ),
            ),
    {
        if self.find_market_index(market_id).is_some() {
            return Err(StoreError::DuplicateMarket);
        }
        let id = self.markets.len() as i64 + 1;
        self.markets.push(
            Market {
                id,
                market_id,
                asset,
                start_time,
                end_time,
                lock_time,
                open_price,
                close_price: None,
                green_pool_weighted: VIRTUAL_LIQUIDITY,
                red_pool_weighted: VIRTUAL_LIQUIDITY,
                virtual_liquidity: VIRTUAL_LIQUIDITY,
                settled: false,
            },
        );
        proof {
            let ms = self.markets@;
            let prev = old(self).markets@;
            assert forall|a: int, b: int| 0 <= a < b < ms.len() implies #[trigger] ms[a].market_id
                != #[trigger] ms[b].market_id by {
                if b < prev.len() {
                    assert(prev[a].market_id != prev[b].market_id);
                } else {
                    if prev[a].market_id == market_id {
                        assert(spec_has_market(prev, market_id));
                        assert(false);
                    }
                }
            }
        }
        Ok(id)
    }

    /// The idempotent creation path both the scheduled job and the
    /// manual trigger go through: stores the market row unless its
    /// market id already exists, and reports whether it did.  Repeating
    /// the call for the same market id leaves exactly one row.
    pub fn create_market_if_absent(
        &mut self,
        market_id: i64,
        asset: Vec<u8>,
        start_time: i64,
        end_time: i64,
        lock_time: i64,
        open_price: u64,
    ) -> (created: bool)
        requires
            old(self).wf(),
            old(self).markets@.len() + 1 < i64::MAX,
        ensures
            final(self).wf(),
            final(self).bets@ == old(self).bets@,
            final(self).payouts@ == old(self).payouts@,
            final(self).pnl@ == old(self).pnl@,
            created <==> !spec_has_market(old(self).markets@, market_id),
            final(self).markets@ == spec_markets_after_create(
                old(self).markets@,
                spec_market_row(
                    (old(self).markets@.len() + 1) as i64,
                    market_id,
                    asset,
                    start_time,
                    end_time,
                    lock_time,
                    open_price,
                ),
            ),
    {
        match self.insert_market(market_id, asset, start_time, end_time, lock_time, open_price) {
            Ok(_) => true,
            Err(_) => false,
        }
    }

    /// Records a confirmed settlement on the market row with
    /// `market_id`: its close price and settled flag; a mirror that
    /// never heard of the market stays unchanged (the next
    /// reconciliation pass repairs it from the ledger).
    pub fn update_market_settlement(&mut self, market_id: i64, close_price: u64, settled: bool)
        requires
            old(self).wf(),
        ensures
            final(self).wf(),
            final(self).bets@ == old(self).bets@,
            final(self).payouts@ == old(self).payouts@,
            final(self).pnl@ == old(self).pnl@,
            !spec_has_market(old(self).markets@, market_id) ==> final(self).markets@ == old(
                self,
            ).markets@,
            spec_has_market(old(self).markets@, market_id) ==> final(self).markets@ == old(
                self,
            ).markets@.update(
                spec_market_index(old(self).markets@, market_id),
                spec_settlement_row(
                    old(self).markets@[spec_market_index(old(self).markets@, market_id)],
                    close_price,
                    settled,
                ),
            ),
    {
        match self.find_market_index(market_id) {
            None => (),
            Some(i) => {
                proof {
                    let k = spec_market_index(self.markets@, market_id);
                    assert(spec_has_market(self.markets@, market_id));
                    assert(0 <= k < self.markets@.len() && self.markets@[k].market_id
                        == market_id);
                    assert(k == i as int);
                }
                self.markets[i].close_price = Some(close_price);
                self.markets[i].settled = settled;
                proof {
                    assert(self.markets@ =~= old(self).markets@.update(
                        i as int,
                        spec_settlement_row(old(self).markets@[i as int], close_price, settled),
                    ));
                }
            },
        }
    }

    /// Stores the bet row for a confirmed placement; a second bet by
    /// the same wallet on the same market is refused unchanged (the
    /// ledger's per-pair bet account is the authoritative guard).
    pub fn insert_bet(
        &mut self,
        wallet: Vec<u8>,
        market_id: i64,
        side: BetSide,
        amount: u64,
        weight: u64,
        effective_stake: u64,
        created_at: i64,
    ) -> (r: Result<(), StoreError>)
        requires
            old(self).wf(),
            old(self).bets@.len() + 1 < i64::MAX,
        ensures
            final(self).wf(),
            final(self).markets@ == old(self).markets@,
            final(self).payouts@ == old(self).payouts@,
            final(self).pnl@ == old(self).pnl@,
            spec_has_bet(old(self).bets@, wallet@, market_id) ==> r == Err::<(), StoreError>(
                StoreError::DuplicateBet,
            ) && final(self).bets@ == old(self).bets@,
            !spec_has_bet(old(self).bets@, wallet@, market_id) ==> r == Ok::<(), StoreError>(())
                && final(self).bets@ == old(self).bets@.push(
                spec_bet_row(
                    (old(self).bets@.len() + 1) as i64,
                    wallet,
                    market_id,
                    side,
                    amount,
                    weight,
                    effective_stake,
                    created_at,
                ),
            ),
    {
        if self.find_bet_index(&wallet, market_id).is_some() {
            return Err(StoreError::DuplicateBet);
        }
        let id = self.bets.len() as i64 + 1;
        self.bets.push(
            Bet {
                id,
                wallet,
                market_id,
                side,
                amount,
                weight,
                effective_stake,
                payout: None,
                claimed: false,
                created_at,
            },
        );
        proof {
            let bs = self.bets@;
            let prev = old(self).bets@;
            assert forall|a: int, b: int|
                0 <= a < b < bs.len() implies !(#[trigger] bs[a].wallet@ == #[trigger] bs[b].wallet@
                && bs[a].market_id == bs[b].market_id) by {
                if b < prev.len() {
                    assert(!(prev[a].wallet@ == prev[b].wallet@ && prev[a].market_id
                        == prev[b].market_id));
                } else {
                    if prev[a].wallet@ == bs[b].wallet@ && prev[a].market_id == market_id {
                        assert(spec_has_bet(prev, bs[b].wallet@, market_id));
                        assert(false);
                    }
                }
            }
        }
        Ok(())
    }

    /// Records a successful claim on the bet row for `(wallet,
    /// market_id)`: stores the payout and sets the claimed flag,
    /// exactly once (see [`spec_claim_record`]).
    pub fn mark_bet_claimed(&mut self, wallet: &Vec<u8>, market_id: i64, payout: u64) -> (r:
        Result<(), StoreError>)
        requires
            old(self).wf(),
        ensures
            final(self).wf(),
            final(self).markets@ == old(self).markets@,
            final(self).payouts@ == old(self).payouts@,
            final(self).pnl@ == old(self).pnl@,
            r == spec_claim_record(old(self).bets@, wallet@, market_id, payout).0,
            final(self).bets@ == spec_claim_record(old(self).bets@, wallet@, market_id, payout).1,
    {
        match self.find_bet_index(wallet, market_id) {
            None => Err(StoreError::BetNotFound),
            Some(i) => {
                proof {
                    let k = spec_bet_index(self.bets@, wallet@, market_id);
                    assert(spec_has_bet(self.bets@, wallet@, market_id));
                    assert(0 <= k < self.bets@.len() && self.bets@[k].wallet@ == wallet@
                        && self.bets@[k].market_id == market_id);
                    assert(k == i as int);
                }
                if self.bets[i].claimed {
                    Err(StoreError::AlreadyClaimed)
                } else {
                    self.bets[i].payout = Some(payout);
                    self.bets[i].claimed = true;
                    proof {
                        assert(self.bets@ =~= old(self).bets@.update(
                            i as int,
                            spec_claimed_bet(old(self).bets@[i as int], payout),
                        ));
                        let bs = self.bets@;
                        let prev = old(self).bets@;
                        assert forall|a: int, b: int|
                            0 <= a < b < bs.len() implies !(#[trigger] bs[a].wallet@
                            == #[trigger] bs[b].wallet@ && bs[a].market_id == bs[b].market_id) by {
                            assert(bs[a].wallet@ == prev[a].wallet@ && bs[a].market_id
                                == prev[a].market_id);
                            assert(bs[b].wallet@ == prev[b].wallet@ && bs[b].market_id
                                == prev[b].market_id);
                            assert(!(prev[a].wallet@ == prev[b].wallet@ && prev[a].market_id
                                == prev[b].market_id));
                        }
                    }
                    Ok(())
                }
            },
        }
    }

    /// Appends one payout record: wallet, market, amount, and the
    /// signature of the authorizing transaction.
    pub fn record_payout(
        &mut self,
        wallet: Vec<u8>,
        market_id: i64,
        lamports: u64,
        tx_signature: Vec<u8>,
    )
        requires
            old(self).wf(),
        ensures
            final(self).wf(),
            final(self).markets@ == old(self).markets@,
            final(self).bets@ == old(self).bets@,
            final(self).pnl@ == old(self).pnl@,
            final(self).payouts@ == old(self).payouts@.push(
                (PayoutRecord { wallet, market_id, lamports, tx_signature }),
            ),
    {
        self.payouts.push(PayoutRecord { wallet, market_id, lamports, tx_signature });
    }

    /// Folds one settled bet's profit or loss into the wallet's
    /// aggregate row, creating the row on first sight.
    pub fn update_pnl(&mut self, wallet: Vec<u8>, pnl_delta: i64)
        requires
            old(self).wf(),
            old(self).pnl@.len() + 1 < i64::MAX,
            spec_has_pnl(old(self).pnl@, wallet@) ==> {
                let e = old(self).pnl@[spec_pnl_index(old(self).pnl@, wallet@)];
                i64::MIN <= e.total_pnl + pnl_delta <= i64::MAX && e.total_bets + 1 <= i64::MAX
            },
        ensures
            final(self).wf(),
            final(self).markets@ == old(self).markets@,
            final(self).bets@ == old(self).bets@,
            final(self).payouts@ == old(self).payouts@,
            !spec_has_pnl(old(self).pnl@, wallet@) ==> final(self).pnl@ == old(self).pnl@.push(
                (PnlEntry { wallet, total_pnl: pnl_delta, total_bets: 1 }),
            ),
            spec_has_pnl(old(self).pnl@, wallet@) ==> final(self).pnl@ == old(self).pnl@.update(
                spec_pnl_index(old(self).pnl@, wallet@),
                (PnlEntry {
                    total_pnl: (old(self).pnl@[spec_pnl_index(old(self).pnl@, wallet@)].total_pnl
                        + pnl_delta) as i64,
                    total_bets: (old(self).pnl@[spec_pnl_index(old(self).pnl@, wallet@)].total_bets
                        + 1) as i64,
                    ..old(self).pnl@[spec_pnl_index(old(self).pnl@, wallet@)]
                }),
            ),
    {
        match self.find_pnl_index(&wallet) {
            None => {
                let ghost w = wallet@;
                self.pnl.push(PnlEntry { wallet, total_pnl: pnl_delta, total_bets: 1 });
                proof {
                    let ps = self.pnl@;
                    let prev = old(self).pnl@;
                    assert forall|a: int, b: int| 0 <= a < b < ps.len() implies #[trigger] ps[a].wallet@
                        != #[trigger] ps[b].wallet@ by {
                        if b < prev.len() {
                            assert(prev[a].wallet@ != prev[b].wallet@);
                        } else {
                            if prev[a].wallet@ == w {
                                assert(spec_has_pnl(prev, w));
                                assert(false);
                            }
                        }
                    }
                }
            },
            Some(i) => {
                proof {
                    let k = spec_pnl_index(self.pnl@, wallet@);
                    assert(spec_has_pnl(self.pnl@, wallet@));
                    assert(0 <= k < self.pnl@.len() && self.pnl@[k].wallet@ == wallet@);
                    assert(k == i as int);
                }
                self.pnl[i].total_pnl = self.pnl[i].total_pnl + pnl_delta;
                self.pnl[i].total_bets = self.pnl[i].total_bets + 1;
                proof {
                    assert(self.pnl@ =~= old(self).pnl@.update(
                        i as int,
                        (PnlEntry {
                            total_pnl: (old(self).pnl@[i as int].total_pnl + pnl_delta) as i64,
                            total_bets: (old(self).pnl@[i as int].total_bets + 1) as i64,
                            ..old(self).pnl@[i as int]
                        }),
                    ));
                    let ps = self.pnl@;
                    let prev = old(self).pnl@;
                    assert forall|a: int, b: int| 0 <= a < b < ps.len() implies #[trigger] ps[a].wallet@
                        != #[trigger] ps[b].wallet@ by {
                        assert(ps[a].wallet@ == prev[a].wallet@);
                        assert(ps[b].wallet@ == prev[b].wallet@);
                        assert(prev[a].wallet@ != prev[b].wallet@);
                    }
                }
            },
        }
    }
}

/// Market creation is idempotent: a second creation attempt for the
/// same market id changes nothing, and a first creation for an unseen
/// id stores exactly one row for it.
pub proof fn lemma_market_creation_idempotent(ms: Seq<Market>, row1: Market, row2: Market)
    requires
        row1.market_id == row2.market_id,
    ensures
        spec_markets_after_create(spec_markets_after_create(ms, row1), row2)
            == spec_markets_after_create(ms, row1),
        !spec_has_market(ms, row1.market_id) ==> spec_count_markets(
            spec_markets_after_create(spec_markets_after_create(ms, row1), row2),
            row1.market_id,
        ) == spec_count_markets(ms, row1.market_id) + 1,
{
    broadcast use Seq::lemma_filter_push;

    let ms1 = spec_markets_after_create(ms, row1);
    if spec_has_market(ms, row1.market_id) {
        assert(ms1 == ms);
    } else {
        assert(ms1 == ms.push(row1));
        assert(ms1[ms.len() as int].market_id == row1.market_id);
        assert(spec_has_market(ms1, row2.market_id));
        assert(ms.push(row1).filter(|m: Market| m.market_id == row1.market_id) == ms.filter(
            |m: Market| m.market_id == row1.market_id,
        ).push(row1));
    }
}

/// Claim recording is exactly-once: after a successful claim record on
/// `(wallet, market_id)`, a second record attempt fails with
/// [`StoreError::AlreadyClaimed`], changes no row, and the payout
/// stored by the first record stays.
pub proof fn lemma_claim_record_exactly_once(
    bs: Seq<Bet>,
    wallet: Seq<u8>,
    market_id: i64,
    p1: u64,
    p2: u64,
)
    requires
        spec_bets_unique(bs),
        spec_claim_record(bs, wallet, market_id, p1).0 is Ok,
    ensures
        spec_claim_record(spec_claim_record(bs, wallet, market_id, p1).1, wallet, market_id, p2).0
            == Err::<(), StoreError>(StoreError::AlreadyClaimed),
        spec_claim_record(spec_claim_record(bs, wallet, market_id, p1).1, wallet, market_id, p2).1
            == spec_claim_record(bs, wallet, market_id, p1).1,
        spec_claim_record(bs, wallet, market_id, p1).1[spec_bet_index(
            spec_claim_record(bs, wallet, market_id, p1).1,
            wallet,
            market_id,
        )].payout == Some(p1),
{
    let i = spec_bet_index(bs, wallet, market_id);
    assert(0 <= i < bs.len() && bs[i].wallet@ == wallet && bs[i].market_id == market_id);
    let bs1 = spec_claim_record(bs, wallet, market_id, p1).1;
    assert(bs1 == bs.update(i, spec_claimed_bet(bs[i], p1)));
    assert(bs1[i].wallet@ == wallet && bs1[i].market_id == market_id);
    assert(spec_has_bet(bs1, wallet, market_id));
    let j = spec_bet_index(bs1, wallet, market_id);
    assert(0 <= j < bs1.len() && bs1[j].wallet@ == wallet && bs1[j].market_id == market_id);
    if j != i {
        assert(bs1[j] == bs[j]);
        assert(false);
    }
    assert(bs1[i].claimed);
}

} // verus!

// The read paths: queries over the mirrored rows.

verus! {

/// One position in a wallet's portfolio, as the positions query reports
/// it: the bet's terms, its recorded payout if any, and whether the
/// owning market has settled.
#[derive(Clone, Copy, Debug, PartialEq, Eq, Structural)]
pub struct Position {
    pub market_id: i64,
    pub side: BetSide,
    pub amount: u64,
    pub weight: u64,
    pub effective_stake: u64,
    pub payout: Option<u64>,
    pub timestamp: i64,
    pub settled: bool,
}

/// A wallet's aggregate profit-and-loss, as the aggregate table holds
/// it.
#[derive(Clone, Copy, Debug, PartialEq, Eq, Structural)]
pub struct PnlStats {
    pub total_pnl: i64,
    pub total_bets: i64,
}

/// A wallet's settled-bet statistics: net profit, wins and settled
/// count (the win rate is their ratio, formatted by the caller), and
/// the current streak of winning bets.
#[derive(Clone, Copy, Debug, PartialEq, Eq, Structural)]
pub struct EnhancedPnlStats {
    pub total_pnl: i128,
    pub wins: i64,
    pub settled_count: i64,
    pub streak: i64,
}

/// Whether a market row is due for settlement at `now`: unsettled with
/// its window already over.
pub open spec fn spec_due_for_settlement(m: Market, now: i64) -> bool {
    !m.settled && m.end_time <= now
}

/// The market rows due for settlement at `now`, in storage order.
pub open spec fn spec_expired_unsettled(ms: Seq<Market>, now: i64) -> Seq<Market> {
    ms.filter(|m: Market| spec_due_for_settlement(m, now))
}

/// The unsettled market rows, in storage order.
pub open spec fn spec_active_markets(ms: Seq<Market>) -> Seq<Market> {
    ms.filter(|m: Market| !m.settled)
}

/// The rows a sequence of row references points at.
pub open spec fn spec_rows(v: Seq<&Market>) -> Seq<Market> {
    v.map_values(|m: &Market| *m)
}

proof fn lemma_rows_push(v: Seq<&Market>, x: &Market)
    ensures
        spec_rows(v.push(x)) == spec_rows(v).push(*x),
{
    assert(spec_rows(v.push(x)) =~= spec_rows(v).push(*x));
}

proof fn lemma_expired_unsettled_push(ms: Seq<Market>, x: Market, now: i64)
    ensures
        spec_expired_unsettled(ms.push(x), now) == if spec_due_for_settlement(x, now) {
            spec_expired_unsettled(ms, now).push(x)
        } else {
            spec_expired_unsettled(ms, now)
        },
{
    broadcast use Seq::lemma_filter_push;

}

proof fn lemma_active_markets_push(ms: Seq<Market>, x: Market)
    ensures
        spec_active_markets(ms.push(x)) == if !x.settled {
            spec_active_markets(ms).push(x)
        } else {
            spec_active_markets(ms)
        },
{
    broadcast use Seq::lemma_filter_push;

}

/// Whether the market owning bet `b` has settled (false when the
/// mirror holds no row for it).
pub open spec fn spec_bet_market_settled(ms: Seq<Market>, b: Bet) -> bool {
    spec_has_market(ms, b.market_id) && ms[spec_market_index(ms, b.market_id)].settled
}

/// Bet `b` as the positions query reports it.
pub open spec fn spec_position_of(ms: Seq<Market>, b: Bet) -> Position {
    Position {
        market_id: b.market_id,
        side: b.side,
        amount: b.amount,
        weight: b.weight,
        effective_stake: b.effective_stake,
        payout: b.payout,
        timestamp: b.created_at,
        settled: spec_bet_market_settled(ms, b),
    }
}

/// Whether bet `b` belongs to `wallet`, its market has settled, and its
/// payout is recorded: the rows the settled-bet statistics range over.
pub open spec fn spec_counts_for_stats(ms: Seq<Market>, b: Bet, wallet: Seq<u8>) -> bool {
    b.wallet@ == wallet && spec_bet_market_settled(ms, b) && b.payout is Some
}

/// Whether a stats row won: its payout exceeds its effective stake.
pub open spec fn spec_is_win(b: Bet) -> bool {
    b.payout matches Some(p) && p > b.effective_stake
}

/// The net profit over a sequence of stats rows: payout minus effective
/// stake, summed.
pub open spec fn spec_sum_pnl(bs: Seq<Bet>) -> int
    decreases bs.len(),
{
    if bs.len() == 0 {
        0
    } else {
        spec_sum_pnl(bs.drop_last()) + (bs.last().payout->0 - bs.last().effective_stake)
    }
}

/// The current winning streak over a sequence of stats rows ordered
/// oldest first: how many rows from the most recent backwards won.
pub open spec fn spec_streak(bs: Seq<Bet>) -> int
    decreases bs.len(),
{
    if bs.len() == 0 {
        0
    } else if spec_is_win(bs.last()) {
        1 + spec_streak(bs.drop_last())
    } else {
        0
    }
}

impl MirrorStore {
    /// The most recently created market row, if any.
    pub fn get_latest_market(&self) -> (r: Option<&Market>)
        ensures
            self.markets@.len() == 0 ==> r is None,
            self.markets@.len() > 0 ==> (r matches Some(m) && *m == self.markets@.last()),
    {
        if self.markets.len() == 0 {
            None
        } else {
            Some(&self.markets[self.markets.len() - 1])
        }
    }

    /// The market row with `market_id`, if any.
    pub fn get_market_from_db(&self, market_id: i64) -> (r: Option<&Market>)
        requires
            self.wf(),
        ensures
            r matches Some(m) ==> spec_has_market(self.markets@, market_id) && *m
                == self.markets@[spec_market_index(self.markets@, market_id)],
            r is None ==> !spec_has_market(self.markets@, market_id),
    {
        match self.find_market_index(market_id) {
            None => None,
            Some(i) => {
                proof {
                    let k = spec_market_index(self.markets@, market_id);
                    assert(spec_has_market(self.markets@, market_id));
                    assert(0 <= k < self.markets@.len() && self.markets@[k].market_id
                        == market_id);
                    assert(k == i as int);
                }
                Some(&self.markets[i])
            },
        }
    }

    /// Every market row that is due for settlement at `now`: unsettled
    /// with its window over, in storage order.
    pub fn get_expired_unsettled_markets(&self, now: i64) -> (r: Vec<&Market>)
        ensures
            spec_rows(r@) == spec_expired_unsettled(self.markets@, now),
    {
        let mut out: Vec<&Market> = Vec::new();
        let mut i: usize = 0;
        while i < self.markets.len()
            invariant
                i <= self.markets@.len(),
                spec_rows(out@) == spec_expired_unsettled(self.markets@.take(i as int), now),
            decreases self.markets@.len() - i,
        {
            proof {
                assert(self.markets@.take(i + 1) =~= self.markets@.take(i as int).push(
                    self.markets@[i as int],
                ));
                lemma_expired_unsettled_push(
                    self.markets@.take(i as int),
                    self.markets@[i as int],
                    now,
                );
            }
            if !self.markets[i].settled && self.markets[i].end_time <= now {
                let ghost prev = out@;
                out.push(&self.markets[i]);
                proof {
                    lemma_rows_push(prev, &self.markets[i as int]);
                }
            }
            i = i + 1;
        }
        proof {
            assert(self.markets@.take(self.markets@.len() as int) =~= self.markets@);
        }
        out
    }

    /// Every unsettled market row, in storage order.
    pub fn get_active_markets(&self) -> (r: Vec<&Market>)
        ensures
            spec_rows(r@) == spec_active_markets(self.markets@),
    {
        let mut out: Vec<&Market> = Vec::new();
        let mut i: usize = 0;
        while i < self.markets.len()
            invariant
                i <= self.markets@.len(),
                spec_rows(out@) == spec_active_markets(self.markets@.take(i as int)),
            decreases self.markets@.len() - i,
        {
            proof {
                assert(self.markets@.take(i + 1) =~= self.markets@.take(i as int).push(
                    self.markets@[i as int],
                ));
                lemma_active_markets_push(self.markets@.take(i as int), self.markets@[i as int]);
            }
            if !self.markets[i].settled {
                let ghost prev = out@;
                out.push(&self.markets[i]);
                proof {
                    lemma_rows_push(prev, &self.markets[i as int]);
                }
            }
            i = i + 1;
        }
        proof {
            assert(self.markets@.take(self.markets@.len() as int) =~= self.markets@);
        }
        out
    }
}

} // verus!

// The per-wallet read paths: payout preview, positions, and statistics.

verus! {

/// The claimable-payout preview for `(wallet, market_id)`: zero unless
/// the market row exists and is settled with a close price, the bet row
/// exists unclaimed on the winning side, and both sides hold real
/// stake; otherwise the same pari-mutuel share the ledger pays (see
/// [`spec_payout_amount`]).
pub open spec fn spec_user_payout(s: MirrorStore, wallet: Seq<u8>, market_id: i64) -> int {
    if !spec_has_market(s.markets@, market_id) || !spec_has_bet(s.bets@, wallet, market_id) {
        0
    } else {
        let m = s.markets@[spec_market_index(s.markets@, market_id)];
        let b = s.bets@[spec_bet_index(s.bets@, wallet, market_id)];
        if b.claimed || !m.settled {
            0
        } else {
            match m.close_price {
                None => 0,
                Some(cp) => if cp > m.open_price && b.side == BetSide::Green {
                    spec_payout_amount(
                        b.effective_stake,
                        m.green_pool_weighted,
                        m.red_pool_weighted,
                        m.virtual_liquidity,
                    )
                } else if cp < m.open_price && b.side == BetSide::Red {
                    spec_payout_amount(
                        b.effective_stake,
                        m.red_pool_weighted,
                        m.green_pool_weighted,
                        m.virtual_liquidity,
                    )
                } else {
                    0
                },
            }
        }
    }
}

/// The positions of `wallet` on markets not yet settled, oldest first.
pub open spec fn spec_open_positions(ms: Seq<Market>, bs: Seq<Bet>, wallet: Seq<u8>) -> Seq<
    Position,
> {
    bs.filter(|b: Bet| b.wallet@ == wallet && !spec_bet_market_settled(ms, b)).map_values(
        |b: Bet| spec_position_of(ms, b),
    )
}

/// The positions of `wallet` on settled markets, oldest first.
pub open spec fn spec_settled_positions(ms: Seq<Market>, bs: Seq<Bet>, wallet: Seq<u8>) -> Seq<
    Position,
> {
    bs.filter(|b: Bet| b.wallet@ == wallet && spec_bet_market_settled(ms, b)).map_values(
        |b: Bet| spec_position_of(ms, b),
    )
}

/// The rows the settled-bet statistics range over, oldest first (see
/// [`spec_counts_for_stats`]).
pub open spec fn spec_stats_rows(ms: Seq<Market>, bs: Seq<Bet>, wallet: Seq<u8>) -> Seq<Bet> {
    bs.filter(|b: Bet| spec_counts_for_stats(ms, b, wallet))
}

/// How many stats rows won.
pub open spec fn spec_count_wins(bs: Seq<Bet>) -> int
    decreases bs.len(),
{
    if bs.len() == 0 {
        0
    } else {
        spec_count_wins(bs.drop_last()) + if spec_is_win(bs.last()) {
            1int
        } else {
            0int
        }
    }
}

proof fn lemma_open_positions_push(ms: Seq<Market>, bs: Seq<Bet>, x: Bet, wallet: Seq<u8>)
    ensures
        spec_open_positions(ms, bs.push(x), wallet) == if x.wallet@ == wallet
            && !spec_bet_market_settled(ms, x) {
            spec_open_positions(ms, bs, wallet).push(spec_position_of(ms, x))
        } else {
            spec_open_positions(ms, bs, wallet)
        },
{
    broadcast use Seq::lemma_filter_push;

    let pred = |b: Bet| b.wallet@ == wallet && !spec_bet_market_settled(ms, b);
    let f = |b: Bet| spec_position_of(ms, b);
    if pred(x) {
        assert(bs.push(x).filter(pred) == bs.filter(pred).push(x));
        assert(bs.filter(pred).push(x).map_values(f) =~= bs.filter(pred).map_values(f).push(
            spec_position_of(ms, x),
        ));
    }
}

proof fn lemma_settled_positions_push(ms: Seq<Market>, bs: Seq<Bet>, x: Bet, wallet: Seq<u8>)
    ensures
        spec_settled_positions(ms, bs.push(x), wallet) == if x.wallet@ == wallet
            && spec_bet_market_settled(ms, x) {
            spec_settled_positions(ms, bs, wallet).push(spec_position_of(ms, x))
        } else {
            spec_settled_positions(ms, bs, wallet)
        },
{
    broadcast use Seq::lemma_filter_push;

    let pred = |b: Bet| b.wallet@ == wallet && spec_bet_market_settled(ms, b);
    let f = |b: Bet| spec_position_of(ms, b);
    if pred(x) {
        assert(bs.push(x).filter(pred) == bs.filter(pred).push(x));
        assert(bs.filter(pred).push(x).map_values(f) =~= bs.filter(pred).map_values(f).push(
            spec_position_of(ms, x),
        ));
    }
}

proof fn lemma_stats_rows_push(ms: Seq<Market>, bs: Seq<Bet>, x: Bet, wallet: Seq<u8>)
    ensures
        spec_stats_rows(ms, bs.push(x), wallet) == if spec_counts_for_stats(ms, x, wallet) {
            spec_stats_rows(ms, bs, wallet).push(x)
        } else {
            spec_stats_rows(ms, bs, wallet)
        },
{
    broadcast use Seq::lemma_filter_push;

}

proof fn lemma_stats_rows_pred(ms: Seq<Market>, bs: Seq<Bet>, wallet: Seq<u8>, i: int)
    requires
        0 <= i < spec_stats_rows(ms, bs, wallet).len(),
    ensures
        spec_counts_for_stats(ms, spec_stats_rows(ms, bs, wallet)[i], wallet),
{
    broadcast use Seq::lemma_filter_pred;

}

/// The bet rows a sequence of row references points at.
pub open spec fn spec_bet_refs_rows(v: Seq<&Bet>) -> Seq<Bet> {
    v.map_values(|b: &Bet| *b)
}

proof fn lemma_bet_refs_rows_push(v: Seq<&Bet>, x: &Bet)
    ensures
        spec_bet_refs_rows(v.push(x)) == spec_bet_refs_rows(v).push(*x),
{
    assert(spec_bet_refs_rows(v.push(x)) =~= spec_bet_refs_rows(v).push(*x));
}

proof fn lemma_streak_suffix(s: Seq<Bet>, j: int)
    requires
        0 <= j <= s.len(),
        forall|k: int| j <= k < s.len() ==> spec_is_win(#[trigger] s[k]),
    ensures
        spec_streak(s) == s.len() - j + spec_streak(s.take(j)),
    decreases s.len() - j,
{
    if j == s.len() {
        assert(s.take(j) =~= s);
    } else {
        assert(spec_is_win(s.last()));
        assert(s.drop_last() =~= s.take(s.len() - 1));
        lemma_streak_suffix(s.take(s.len() - 1), j);
        assert(s.take(s.len() - 1).take(j) =~= s.take(j));
    }
}

impl MirrorStore {
    /// Whether the market owning a bet with `market_id` has settled,
    /// as the mirror knows it.
    fn market_settled(&self, market_id: i64) -> (r: bool)
        requires
            self.wf(),
        ensures
            r == (spec_has_market(self.markets@, market_id)
                && self.markets@[spec_market_index(self.markets@, market_id)].settled),
    {
        match self.find_market_index(market_id) {
            None => false,
            Some(i) => {
                proof {
                    let k = spec_market_index(self.markets@, market_id);
                    assert(spec_has_market(self.markets@, market_id));
                    assert(0 <= k < self.markets@.len() && self.markets@[k].market_id
                        == market_id);
                    assert(k == i as int);
                }
                self.markets[i].settled
            },
        }
    }

    /// Computes the claimable-payout preview for `(wallet, market_id)`
    /// with the ledger's own integer formula: exactly
    /// [`spec_user_payout`] whenever that value fits the return type
    /// (it always does when the mirrored rows came from the ledger,
    /// whose stakes are part of their pools).
    pub fn compute_user_payout(&self, wallet: &Vec<u8>, market_id: i64) -> (p: u64)
        requires
            self.wf(),
        ensures
            spec_user_payout(*self, wallet@, market_id) <= u64::MAX ==> p == spec_user_payout(
                *self,
                wallet@,
                market_id,
            ),
    {
        let mi = match self.find_market_index(market_id) {
            None => {
                return 0;
            },
            Some(i) => i,
        };
        let bi = match self.find_bet_index(wallet, market_id) {
            None => {
                return 0;
            },
            Some(i) => i,
        };
        proof {
            let km = spec_market_index(self.markets@, market_id);
            assert(spec_has_market(self.markets@, market_id));
            assert(0 <= km < self.markets@.len() && self.markets@[km].market_id == market_id);
            assert(km == mi as int);
            let kb = spec_bet_index(self.bets@, wallet@, market_id);
            assert(spec_has_bet(self.bets@, wallet@, market_id));
            assert(0 <= kb < self.bets@.len() && self.bets@[kb].wallet@ == wallet@
                && self.bets@[kb].market_id == market_id);
            assert(kb == bi as int);
        }
        let m = &self.markets[mi];
        let b = &self.bets[bi];
        if b.claimed || !m.settled {
            return 0;
        }
        let cp = match m.close_price {
            None => {
                return 0;
            },
            Some(cp) => cp,
        };
        let (winning_pool, losing_pool) = if cp > m.open_price && matches!(b.side, BetSide::Green) {
            (m.green_pool_weighted, m.red_pool_weighted)
        } else if cp < m.open_price && matches!(b.side, BetSide::Red) {
            (m.red_pool_weighted, m.green_pool_weighted)
        } else {
            return 0;
        };
        let total_winning = if winning_pool >= m.virtual_liquidity {
            winning_pool - m.virtual_liquidity
        } else {
            0
        };
        let total_losing = if losing_pool >= m.virtual_liquidity {
            losing_pool - m.virtual_liquidity
        } else {
            0
        };
        if total_winning == 0 || total_losing == 0 {
            return 0;
        }
        proof {
            lemma_mul_upper_bound(
                b.effective_stake as int,
                u64::MAX as int,
                total_losing as int,
                u64::MAX as int,
            );
        }
        let q = ((b.effective_stake as u128) * (total_losing as u128)) / (total_winning as u128);
        #[verifier::truncate] (q as u64)
    }

    /// Records a completed claim end to end, as the claim-record write
    /// surface does after the authoritative transaction succeeds:
    /// computes the payout with the ledger's formula, marks the bet
    /// claimed (exactly once — a replay is refused unchanged), and
    /// appends the payout record with the authorizing signature.
    pub fn record_claim(&mut self, wallet: &Vec<u8>, market_id: i64, tx_signature: Vec<u8>) -> (r:
        Result<u64, StoreError>)
        requires
            old(self).wf(),
            spec_user_payout(*old(self), wallet@, market_id) <= u64::MAX,
        ensures
            final(self).wf(),
            final(self).markets@ == old(self).markets@,
            final(self).pnl@ == old(self).pnl@,
            ({
                let p = spec_user_payout(*old(self), wallet@, market_id) as u64;
                let step = spec_claim_record(old(self).bets@, wallet@, market_id, p);
                &&& final(self).bets@ == step.1
                &&& (step.0 is Ok ==> {
                    &&& r == Ok::<u64, StoreError>(p)
                    &&& final(self).payouts@.len() == old(self).payouts@.len() + 1
                    &&& final(self).payouts@.subrange(0, old(self).payouts@.len() as int)
                        == old(self).payouts@
                    &&& final(self).payouts@.last().wallet@ == wallet@
                    &&& final(self).payouts@.last().market_id == market_id
                    &&& final(self).payouts@.last().lamports == p
                    &&& final(self).payouts@.last().tx_signature@ == tx_signature@
                })
                &&& (step.0 matches Err(e) ==> r == Err::<u64, StoreError>(e)
                    && final(self).payouts@ == old(self).payouts@)
            }),
    {
        let payout = self.compute_user_payout(wallet, market_id);
        let wallet_copy = crate::pda::clone_bytes(wallet);
        match self.mark_bet_claimed(wallet, market_id, payout) {
            Err(e) => Err(e),
            Ok(()) => {
                let ghost before = self.payouts@;
                self.record_payout(wallet_copy, market_id, payout, tx_signature);
                proof {
                    assert(self.payouts@.subrange(0, before.len() as int) =~= before);
                }
                Ok(payout)
            },
        }
    }

    /// The wallet's aggregate profit-and-loss row, or zeros for a
    /// wallet the mirror has never seen settle a bet.
    pub fn get_user_pnl(&self, wallet: &Vec<u8>) -> (r: PnlStats)
        requires
            self.wf(),
        ensures
            spec_has_pnl(self.pnl@, wallet@) ==> r == (PnlStats {
                total_pnl: self.pnl@[spec_pnl_index(self.pnl@, wallet@)].total_pnl,
                total_bets: self.pnl@[spec_pnl_index(self.pnl@, wallet@)].total_bets,
            }),
            !spec_has_pnl(self.pnl@, wallet@) ==> r == (PnlStats { total_pnl: 0, total_bets: 0 }),
    {
        match self.find_pnl_index(wallet) {
            None => PnlStats { total_pnl: 0, total_bets: 0 },
            Some(i) => {
                proof {
                    let k = spec_pnl_index(self.pnl@, wallet@);
                    assert(spec_has_pnl(self.pnl@, wallet@));
                    assert(0 <= k < self.pnl@.len() && self.pnl@[k].wallet@ == wallet@);
                    assert(k == i as int);
                }
                PnlStats { total_pnl: self.pnl[i].total_pnl, total_bets: self.pnl[i].total_bets }
            },
        }
    }

    /// The wallet's positions, split into those on markets still open
    /// and those on settled markets, oldest first.
    pub fn get_user_positions(&self, wallet: &Vec<u8>) -> (r: (Vec<Position>, Vec<Position>))
        requires
            self.wf(),
        ensures
            r.0@ == spec_open_positions(self.markets@, self.bets@, wallet@),
            r.1@ == spec_settled_positions(self.markets@, self.bets@, wallet@),
    {
        let mut open: Vec<Position> = Vec::new();
        let mut settled: Vec<Position> = Vec::new();
        let mut i: usize = 0;
        while i < self.bets.len()
            invariant
                self.wf(),
                i <= self.bets@.len(),
                open@ == spec_open_positions(self.markets@, self.bets@.take(i as int), wallet@),
                settled@ == spec_settled_positions(
                    self.markets@,
                    self.bets@.take(i as int),
                    wallet@,
                ),
            decreases self.bets@.len() - i,
        {
            proof {
                assert(self.bets@.take(i + 1) =~= self.bets@.take(i as int).push(
                    self.bets@[i as int],
                ));
                lemma_open_positions_push(
                    self.markets@,
                    self.bets@.take(i as int),
                    self.bets@[i as int],
                    wallet@,
                );
                lemma_settled_positions_push(
                    self.markets@,
                    self.bets@.take(i as int),
                    self.bets@[i as int],
                    wallet@,
                );
            }
            if bytes_eq(&self.bets[i].wallet, wallet) {
                let market_settled = self.market_settled(self.bets[i].market_id);
                let pos = Position {
                    market_id: self.bets[i].market_id,
                    side: self.bets[i].side,
                    amount: self.bets[i].amount,
                    weight: self.bets[i].weight,
                    effective_stake: self.bets[i].effective_stake,
                    payout: self.bets[i].payout,
                    timestamp: self.bets[i].created_at,
                    settled: market_settled,
                };
                proof {
                    assert(pos == spec_position_of(self.markets@, self.bets@[i as int]));
                }
                if market_settled {
                    settled.push(pos);
                } else {
                    open.push(pos);
                }
            }
            i = i + 1;
        }
        proof {
            assert(self.bets@.take(self.bets@.len() as int) =~= self.bets@);
        }
        (open, settled)
    }

    /// The wallet's settled-bet statistics: net profit, wins over
    /// settled count, and the current winning streak, all computed from
    /// the same rows (see [`spec_stats_rows`]).
    pub fn get_enhanced_pnl(&self, wallet: &Vec<u8>) -> (r: EnhancedPnlStats)
        requires
            self.wf(),
        ensures
            ({
                let rows = spec_stats_rows(self.markets@, self.bets@, wallet@);
                &&& r.total_pnl == spec_sum_pnl(rows)
                &&& r.wins == spec_count_wins(rows)
                &&& r.settled_count == rows.len()
                &&& r.streak == spec_streak(rows)
            }),
    {
        broadcast use Seq::lemma_filter_len;

        let mut rows: Vec<&Bet> = Vec::new();
        let mut i: usize = 0;
        while i < self.bets.len()
            invariant
                self.wf(),
                i <= self.bets@.len(),
                spec_bet_refs_rows(rows@) == spec_stats_rows(
                    self.markets@,
                    self.bets@.take(i as int),
                    wallet@,
                ),
            decreases self.bets@.len() - i,
        {
            proof {
                assert(self.bets@.take(i + 1) =~= self.bets@.take(i as int).push(
                    self.bets@[i as int],
                ));
                lemma_stats_rows_push(
                    self.markets@,
                    self.bets@.take(i as int),
                    self.bets@[i as int],
                    wallet@,
                );
            }
            if bytes_eq(&self.bets[i].wallet, wallet) && self.bets[i].payout.is_some()
                && self.market_settled(self.bets[i].market_id) {
                let ghost prev = rows@;
                rows.push(&self.bets[i]);
                proof {
                    lemma_bet_refs_rows_push(prev, &self.bets[i as int]);
                }
            }
            i = i + 1;
        }
        proof {
            assert(self.bets@.take(self.bets@.len() as int) =~= self.bets@);
            assert(spec_stats_rows(self.markets@, self.bets@, wallet@).len()
                <= self.bets@.len());
        }
        let ghost stats = spec_stats_rows(self.markets@, self.bets@, wallet@);
        let mut total_pnl: i128 = 0;
        let mut wins: i64 = 0;
        let mut j: usize = 0;
        while j < rows.len()
            invariant
                stats == spec_stats_rows(self.markets@, self.bets@, wallet@),
                spec_bet_refs_rows(rows@) == stats,
                stats.len() <= i64::MAX,
                j <= rows@.len(),
                total_pnl == spec_sum_pnl(stats.take(j as int)),
                -(j as int) * 0xffff_ffff_ffff_ffff <= total_pnl <= (j as int)
                    * 0xffff_ffff_ffff_ffff,
                wins == spec_count_wins(stats.take(j as int)),
                wins <= j,
            decreases rows@.len() - j,
        {
            proof {
                assert(stats.len() == spec_bet_refs_rows(rows@).len());
                assert(spec_bet_refs_rows(rows@).len() == rows@.len());
                assert(stats.take(j + 1) =~= stats.take(j as int).push(stats[j as int]));
                assert(stats.take(j + 1).drop_last() =~= stats.take(j as int));
                assert(stats[j as int] == *rows@[j as int]);
                lemma_stats_rows_pred(self.markets@, self.bets@, wallet@, j as int);
            }
            let payout_val = match rows[j].payout {
                Some(p) => p,
                None => 0,
            };
            total_pnl = total_pnl + (payout_val as i128 - rows[j].effective_stake as i128);
            if payout_val > rows[j].effective_stake {
                wins = wins + 1;
            }
            j = j + 1;
        }
        proof {
            assert(stats.take(stats.len() as int) =~= stats);
        }
        let mut streak: i64 = 0;
        let mut k: usize = rows.len();
        let mut done = false;
        while !done && k > 0
            invariant
                stats == spec_stats_rows(self.markets@, self.bets@, wallet@),
                spec_bet_refs_rows(rows@) == stats,
                stats.len() <= i64::MAX,
                k <= rows@.len(),
                streak == rows@.len() - k,
                forall|t: int| k <= t < stats.len() ==> spec_is_win(#[trigger] stats[t]),
                done ==> k > 0 && !spec_is_win(stats[k - 1]),
            decreases (if done { 0int } else { 1int }), k,
        {
            proof {
                assert(stats.len() == spec_bet_refs_rows(rows@).len());
                assert(spec_bet_refs_rows(rows@).len() == rows@.len());
                assert(stats[k - 1] == *rows@[k - 1]);
                lemma_stats_rows_pred(self.markets@, self.bets@, wallet@, k - 1);
            }
            let payout_val = match rows[k - 1].payout {
                Some(p) => p,
                None => 0,
            };
            if payout_val > rows[k - 1].effective_stake {
                streak = streak + 1;
                k = k - 1;
            } else {
                done = true;
            }
        }
        proof {
            lemma_streak_suffix(stats, k as int);
            if k > 0 {
                assert(!spec_is_win(stats[k - 1]));
                assert(stats.take(k as int).last() == stats[k - 1]);
                assert(spec_streak(stats.take(k as int)) == 0);
            } else {
                assert(stats.take(0) =~= Seq::<Bet>::empty());
            }
        }
        EnhancedPnlStats {
            total_pnl,
            wins,
            settled_count: rows.len() as i64,
            streak,
        }
    }
}

} // verus!
