//! The funding relayer's decision core: the per-market snapshot ring,
//! the due-market selection, transaction chunking, and the timestamp
//! bookkeeping after a successful publish.

use vstd::prelude::*;

use crate::address::Address;
use crate::record::Exchange;
use crate::safe_math::tdiv;

verus! {

/// Seconds between two venue snapshots.
pub const SNAPSHOT_TIMEOUT_SECS: u64 = 30;

/// Seconds between two publish passes.
pub const RELAYER_SEND_FREQUENCY_SECS: u64 = 10;

/// At most this many update instructions share one transaction.
pub const MAX_INSTRUCTIONS_PER_TX: usize = 10;

/// Sum of a snapshot ring.
pub open spec fn sum_seq(s: Seq<i64>) -> int
    decreases s.len(),
{
    if s.len() == 0 {
        0
    } else {
        sum_seq(s.drop_last()) + s.last()
    }
}

/// A ring sum is bounded by its length times the extreme values.
pub proof fn lemma_sum_bounds(s: Seq<i64>)
    ensures
        s.len() * (i64::MIN as int) <= sum_seq(s) <= s.len() * (i64::MAX as int),
    decreases s.len(),
{
    if s.len() == 0 {
    } else {
        lemma_sum_bounds(s.drop_last());
        vstd::arithmetic::mul::lemma_mul_is_distributive_add_other_way(
            i64::MIN as int,
            s.len() - 1,
            1,
        );
        vstd::arithmetic::mul::lemma_mul_is_distributive_add_other_way(
            i64::MAX as int,
            s.len() - 1,
            1,
        );
    }
}

/// Per-market relayer state: where to publish, how often, and the
/// rolling ring of snapshot rates.
pub struct MarketFundingCache {
    pub address: Address,
    pub market: Address,
    pub market_index: u16,
    pub exchange: Exchange,
    pub update_frequency_secs: u64,
    pub funding_snapshots: Vec<i64>,
    /// Monotonic seconds of the last accepted on-chain update.
    pub last_account_update_at: u64,
}

impl MarketFundingCache {
    /// Ring capacity: one snapshot per interval across the update
    /// period.
    pub fn cache_funding_rates(&self) -> (r: u64)
        ensures
            r == self.capacity_spec(),
    {
        self.update_frequency_secs / SNAPSHOT_TIMEOUT_SECS
    }

    pub open spec fn capacity_spec(&self) -> int {
        self.update_frequency_secs as int / SNAPSHOT_TIMEOUT_SECS as int
    }

    /// Append a snapshot; at capacity the oldest snapshot leaves
    /// first.
    pub fn insert_funding_rate(&mut self, funding_rate: i64)
        ensures
            final(self).address == old(self).address,
            final(self).market == old(self).market,
            final(self).market_index == old(self).market_index,
            final(self).exchange == old(self).exchange,
            final(self).update_frequency_secs == old(self).update_frequency_secs,
            final(self).last_account_update_at == old(self).last_account_update_at,
            final(self).funding_snapshots@ == (if old(self).funding_snapshots@.len() == old(
                self,
            ).capacity_spec() && old(self).capacity_spec() > 0 {
                old(self).funding_snapshots@.skip(1).push(funding_rate)
            } else {
                old(self).funding_snapshots@.push(funding_rate)
            }),
    {
        let cap = self.cache_funding_rates();
        if cap > 0 && self.funding_snapshots.len() as u64 == cap {
            let _ = self.funding_snapshots.remove(0);
            proof {
                assert(self.funding_snapshots@ =~= old(self).funding_snapshots@.skip(1));
            }
        }
        self.funding_snapshots.push(funding_rate);
    }

    /// The mean of a full ring; `None` while the ring is filling, or
    /// when the configured capacity is zero.
    pub fn get_average_funding_rate(&self) -> (r: Option<i64>)
        ensures
            match r {
                Some(v) => self.funding_snapshots@.len() == self.capacity_spec() && self.capacity_spec() > 0
                    && v == tdiv(
                    sum_seq(self.funding_snapshots@),
                    self.funding_snapshots@.len() as int,
                ),
                None => self.funding_snapshots@.len() != self.capacity_spec()
                    || self.capacity_spec() == 0,
            },
    {
        let cap = self.cache_funding_rates();
        if self.funding_snapshots.len() as u64 != cap || cap == 0 {
            return None;
        }
        let n = self.funding_snapshots.len();
        let mut sum: i128 = 0;
        let mut i: usize = 0;
        proof {
            assert(self.funding_snapshots@.take(0int) =~= Seq::<i64>::empty());
        }
        while i < n
            invariant
                0 <= i <= n,
                n == self.funding_snapshots@.len(),
                n <= usize::MAX,
                sum == sum_seq(self.funding_snapshots@.take(i as int)),
                i * (i64::MIN as int) <= sum <= i * (i64::MAX as int),
            decreases n - i,
        {
            let x = self.funding_snapshots[i];
            proof {
                assert(self.funding_snapshots@.take(i + 1).drop_last() =~= self
                    .funding_snapshots@.take(i as int));
                assert(self.funding_snapshots@.take(i + 1).last() == self.funding_snapshots@[i as int]);
                vstd::arithmetic::mul::lemma_mul_is_distributive_add_other_way(
                    i64::MIN as int,
                    i as int,
                    1,
                );
                vstd::arithmetic::mul::lemma_mul_is_distributive_add_other_way(
                    i64::MAX as int,
                    i as int,
                    1,
                );
                vstd::arithmetic::mul::lemma_mul_inequality(
                    i as int + 1,
                    0x1_0000_0000_0000_0000,
                    i64::MAX as int,
                );
                vstd::arithmetic::mul::lemma_mul_inequality(
                    i as int + 1,
                    0x1_0000_0000_0000_0000,
                    -(i64::MIN as int),
                );
            }
            sum = sum + x as i128;
            i = i + 1;
        }
        proof {
            assert(self.funding_snapshots@.take(n as int) =~= self.funding_snapshots@);
            crate::safe_math::lemma_tdiv_range(
                sum as int,
                n as int,
                0x8000_0000_0000_0000_0000_0000_0000_0000,
            );
            vstd::arithmetic::mul::lemma_mul_inequality(
                n as int,
                0x1_0000_0000_0000_0000,
                i64::MAX as int,
            );
            vstd::arithmetic::mul::lemma_mul_inequality(
                n as int,
                0x1_0000_0000_0000_0000,
                -(i64::MIN as int),
            );
        }
        let mean = match crate::safe_math::safe_div_i128(sum, n as i128) {
            Ok(v) => v,
            Err(_) => {
                return None;
            },
        };
        proof {
            lemma_mean_in_range(sum as int, n as int);
        }
        Some(mean as i64)
    }

    /// Whether this market is due for a publish at `now`.
    pub open spec fn is_due(&self, now: int) -> bool {
        now - self.last_account_update_at >= self.update_frequency_secs
    }
}

/// The mean of `n` signed 64-bit samples is itself a signed 64-bit
/// value.
pub proof fn lemma_mean_in_range(sum: int, n: int)
    requires
        n >= 1,
        n * (i64::MIN as int) <= sum <= n * (i64::MAX as int),
    ensures
        i64::MIN <= tdiv(sum, n) <= i64::MAX,
{
    if sum >= 0 {
        // tdiv(sum, n) == sum / n <= MAX
        vstd::arithmetic::div_mod::lemma_div_pos_is_pos(sum, n);
        vstd::arithmetic::div_mod::lemma_fundamental_div_mod(sum, n);
        assert(sum / n <= i64::MAX) by {
            if sum / n > i64::MAX {
                vstd::arithmetic::mul::lemma_mul_inequality(
                    i64::MAX as int + 1,
                    sum / n,
                    n,
                );
                vstd::arithmetic::mul::lemma_mul_is_commutative(sum / n, n);
                vstd::arithmetic::mul::lemma_mul_is_commutative(i64::MAX as int + 1, n);
                vstd::arithmetic::mul::lemma_mul_is_distributive_add(
                    n,
                    i64::MAX as int,
                    1,
                );
            }
        }
    } else {
        let m = -sum;
        vstd::arithmetic::div_mod::lemma_div_pos_is_pos(m, n);
        vstd::arithmetic::div_mod::lemma_fundamental_div_mod(m, n);
        assert(m / n <= -(i64::MIN as int)) by {
            if m / n > -(i64::MIN as int) {
                vstd::arithmetic::mul::lemma_mul_inequality(
                    -(i64::MIN as int) + 1,
                    m / n,
                    n,
                );
                vstd::arithmetic::mul::lemma_mul_is_commutative(m / n, n);
                vstd::arithmetic::mul::lemma_mul_is_commutative(-(i64::MIN as int) + 1, n);
                vstd::arithmetic::mul::lemma_mul_is_distributive_add(
                    n,
                    -(i64::MIN as int),
                    1,
                );
            }
        }
    }
}

} // verus!

verus! {

/// Chunk boundaries for `n` instructions at ten per transaction:
/// consecutive half-open ranges covering `0..n`, all full but the
/// last.
pub fn chunk_ranges(n: usize) -> (r: Vec<(usize, usize)>)
    ensures
        n == 0 ==> r@.len() == 0,
        n > 0 ==> {
            &&& r@.len() == (n + 9) / 10
            &&& r@[0].0 == 0
            &&& r@[r@.len() - 1].1 == n
            &&& forall|k: int|
                0 <= k < r@.len() ==> (#[trigger] r@[k]).0 == 10 * k && r@[k].1 == (if 10 * k
                    + 10 <= n {
                    10 * k + 10
                } else {
                    n as int
                })
        },
{
    let mut r: Vec<(usize, usize)> = Vec::new();
    let mut start: usize = 0;
    while start < n
        invariant
            start <= n || (n == 0 && start == 0),
            start % 10 == 0,
            r@.len() == start / 10,
            forall|k: int|
                0 <= k < r@.len() ==> (#[trigger] r@[k]).0 == 10 * k && r@[k].1 == (if 10 * k
                    + 10 <= n {
                    10 * k + 10
                } else {
                    n as int
                }),
            start < n ==> (r@.len() == 0 || r@[r@.len() - 1].1 == start),
            start >= n && n > 0 ==> r@.len() == (n + 9) / 10 && r@[r@.len() - 1].1 == n,
        decreases n - start,
    {
        let end = if n >= 10 && start <= n - 10 {
            start + 10
        } else {
            n
        };
        r.push((start, end));
        if end == n {
            proof {
                assert(r@[r@.len() - 1].1 == n);
                assert(r@.len() == (n + 9) / 10);
            }
            return r;
        }
        start = end;
    }
    r
}

/// The markets due for a publish at `now`, in cache order: the update
/// interval has elapsed and the snapshot ring is full.
pub open spec fn due_indices(cache: Seq<MarketFundingCache>, now: int) -> Seq<int>
    decreases cache.len(),
{
    if cache.len() == 0 {
        Seq::empty()
    } else {
        let rest = due_indices(cache.drop_last(), now);
        let i = cache.len() - 1;
        if cache[i].is_due(now) && cache[i].funding_snapshots.len() == cache[i].capacity_spec()
            && cache[i].capacity_spec() > 0 {
            rest.push(i)
        } else {
            rest
        }
    }
}

/// Every due index points into the cache.
pub proof fn lemma_due_indices_bounds(cache: Seq<MarketFundingCache>, now: int)
    ensures
        forall|k: int|
            0 <= k < due_indices(cache, now).len() ==> 0 <= #[trigger] due_indices(cache, now)[k]
                < cache.len(),
    decreases cache.len(),
{
    if cache.len() > 0 {
        lemma_due_indices_bounds(cache.drop_last(), now);
        let rest = due_indices(cache.drop_last(), now);
        assert forall|k: int|
            0 <= k < due_indices(cache, now).len() implies 0 <= #[trigger] due_indices(
            cache,
            now,
        )[k] < cache.len() by {
            if k < rest.len() {
                assert(due_indices(cache, now)[k] == rest[k]);
            }
        }
    }
}

/// Collect the due markets and their mean rates.
pub fn collect_due(cache: &Vec<MarketFundingCache>, now: u64) -> (r: Vec<(Address, Address, i64)>)
    ensures
        r@.len() == due_indices(cache@, now as int).len(),
        forall|k: int|
            0 <= k < r@.len() ==> {
                let i = due_indices(cache@, now as int)[k];
                &&& 0 <= i < cache@.len()
                &&& (#[trigger] r@[k]).0 == cache@[i].market
                &&& r@[k].1 == cache@[i].address
                &&& r@[k].2 == tdiv(
                    sum_seq(cache@[i].funding_snapshots@),
                    cache@[i].funding_snapshots@.len() as int,
                )
            },
{
    let mut r: Vec<(Address, Address, i64)> = Vec::new();
    let n = cache.len();
    let mut i: usize = 0;
    proof {
        assert(cache@.take(0int) =~= Seq::<MarketFundingCache>::empty());
    }
    while i < n
        invariant
            0 <= i <= n,
            n == cache@.len(),
            r@.len() == due_indices(cache@.take(i as int), now as int).len(),
            forall|k: int|
                0 <= k < r@.len() ==> {
                    let idx = due_indices(cache@.take(i as int), now as int)[k];
                    &&& 0 <= idx < i
                    &&& (#[trigger] r@[k]).0 == cache@[idx].market
                    &&& r@[k].1 == cache@[idx].address
                    &&& r@[k].2 == tdiv(
                        sum_seq(cache@[idx].funding_snapshots@),
                        cache@[idx].funding_snapshots@.len() as int,
                    )
                },
        decreases n - i,
    {
        let entry = &cache[i];
        proof {
            assert(cache@.take(i + 1).drop_last() =~= cache@.take(i as int));
            assert(cache@.take(i + 1).last() == cache@[i as int]);
        }
        let elapsed_due = now >= entry.last_account_update_at && now
            - entry.last_account_update_at >= entry.update_frequency_secs;
        proof {
            assert(elapsed_due == entry.is_due(now as int));
        }
        let mut pushed = false;
        if elapsed_due {
            match entry.get_average_funding_rate() {
                Some(rate) => {
                    r.push((entry.market, entry.address, rate));
                    pushed = true;
                },
                None => {},
            }
        }
        proof {
            lemma_due_indices_bounds(cache@.take(i as int), now as int);
            lemma_due_indices_bounds(cache@.take(i + 1), now as int);
            let cond = entry.is_due(now as int) && entry.funding_snapshots@.len()
                == entry.capacity_spec() && entry.capacity_spec() > 0;
            assert(pushed == cond);
            if cond {
                assert(due_indices(cache@.take(i + 1), now as int) == due_indices(
                    cache@.take(i as int),
                    now as int,
                ).push(i as int));
            } else {
                assert(due_indices(cache@.take(i + 1), now as int) == due_indices(
                    cache@.take(i as int),
                    now as int,
                ));
            }
        }
        i = i + 1;
    }
    proof {
        assert(cache@.take(n as int) =~= cache@);
        lemma_due_indices_bounds(cache@, now as int);
        assert(r@.len() == due_indices(cache@, now as int).len());
        assert forall|k: int| 0 <= k < r@.len() implies {
            let i = due_indices(cache@, now as int)[k];
            &&& 0 <= i < cache@.len()
            &&& (#[trigger] r@[k]).0 == cache@[i].market
            &&& r@[k].1 == cache@[i].address
            &&& r@[k].2 == tdiv(
                sum_seq(cache@[i].funding_snapshots@),
                cache@[i].funding_snapshots@.len() as int,
            )
        } by {
            let idx = due_indices(cache@.take(n as int), now as int)[k];
            assert(0 <= idx < n);
            assert(r@[k].0 == cache@[idx].market);
        }
    }
    r
}

/// After a successful publish, bump exactly the published markets'
/// update times to `now`.
pub fn bump_updated_markets(cache: &mut Vec<MarketFundingCache>, published: &Vec<Address>, now:
    u64)
    ensures
        final(cache)@.len() == old(cache)@.len(),
        forall|i: int|
            0 <= i < old(cache)@.len() ==> {
                let e0 = old(cache)@[i];
                let e1 = #[trigger] final(cache)@[i];
                if published@.contains(e0.market) {
                    e1 == (MarketFundingCache { last_account_update_at: now, ..e0 })
                } else {
                    e1 == e0
                }
            },
{
    let n = cache.len();
    let mut i: usize = 0;
    while i < n
        invariant
            0 <= i <= n,
            n == cache@.len(),
            old(cache)@.len() == n,
            forall|j: int|
                i <= j < n ==> #[trigger] cache@[j] == old(cache)@[j],
            forall|j: int|
                0 <= j < i ==> {
                    let e0 = old(cache)@[j];
                    let e1 = #[trigger] cache@[j];
                    if published@.contains(e0.market) {
                        e1 == (MarketFundingCache { last_account_update_at: now, ..e0 })
                    } else {
                        e1 == e0
                    }
                },
        decreases n - i,
    {
        let mut found = false;
        let m = published.len();
        let mut k: usize = 0;
        let target = cache[i].market;
        while k < m
            invariant
                0 <= k <= m,
                m == published@.len(),
                found == exists|t: int| 0 <= t < k && published@[t] == target,
            decreases m - k,
        {
            if published[k] == target {
                found = true;
            }
            k = k + 1;
        }
        if found {
            let entry = &mut cache[i];
            entry.last_account_update_at = now;
        }
        i = i + 1;
    }
}

/// Outcome classes of one transaction submission.
#[derive(Clone, Copy, PartialEq, Eq, Structural, Debug)]
pub enum TxOutcome {
    Success,
    Failed,
    TimedOut,
}

/// What the publish loop does next with a chunk, after `retries`
/// attempts ended in the given outcome: retry up to two times on a
/// timeout with the same signed transaction, abandon on an error, and
/// bump timestamps only on success.
#[derive(Clone, Copy, PartialEq, Eq, Structural, Debug)]
pub enum ChunkAction {
    BumpAndContinue,
    AbandonChunk,
    ResendSame,
}

pub fn publish_chunk_action(outcome: TxOutcome, retries: u8) -> (r: ChunkAction)
    ensures
        r == (match outcome {
            TxOutcome::Success => ChunkAction::BumpAndContinue,
            TxOutcome::Failed => ChunkAction::AbandonChunk,
            TxOutcome::TimedOut => if retries >= 2 {
                ChunkAction::AbandonChunk
            } else {
                ChunkAction::ResendSame
            },
        }),
{
    match outcome {
        TxOutcome::Success => ChunkAction::BumpAndContinue,
        TxOutcome::Failed => ChunkAction::AbandonChunk,
        TxOutcome::TimedOut => if retries >= 2 {
            ChunkAction::AbandonChunk
        } else {
            ChunkAction::ResendSame
        },
    }
}

/// Whether a forced send rebuilds the transaction before resending:
/// every second retry, to refresh the blockhash.
pub fn force_send_should_rebuild(retries: u8) -> (r: bool)
    ensures
        r == (retries % 2 == 0 && retries > 0),
{
    retries % 2 == 0 && retries > 0
}

} // verus!

verus! {

/// Default cadence of a bootstrapped funding record.
pub const BOOTSTRAP_UPDATE_FREQUENCY_SECS: u64 = 120;

/// Default staleness threshold of a bootstrapped funding record.
pub const BOOTSTRAP_STALENESS_THRESHOLD_SECS: u64 = 600;

/// Default EMA period of a bootstrapped funding record.
pub const BOOTSTRAP_PERIOD_LENGTH: u32 = 5;

/// Default ring size of a bootstrapped funding record.
pub const BOOTSTRAP_DATA_POINTS_COUNT: u16 = 30;

/// The accounts that need bootstrapping, by fetched data length:
/// missing accounts and zero-length ones, in order.
pub open spec fn uninitialized_indices(statuses: Seq<Option<u64>>) -> Seq<int>
    decreases statuses.len(),
{
    if statuses.len() == 0 {
        Seq::empty()
    } else {
        let rest = uninitialized_indices(statuses.drop_last());
        let i = statuses.len() - 1;
        if statuses[i] is None || statuses[i] == Some(0u64) {
            rest.push(i)
        } else {
            rest
        }
    }
}

/// Every selected index points into the status list.
pub proof fn lemma_uninitialized_indices_bounds(statuses: Seq<Option<u64>>)
    ensures
        forall|k: int|
            0 <= k < uninitialized_indices(statuses).len() ==> 0 <= #[trigger]
                uninitialized_indices(statuses)[k] < statuses.len(),
    decreases statuses.len(),
{
    if statuses.len() > 0 {
        lemma_uninitialized_indices_bounds(statuses.drop_last());
        let rest = uninitialized_indices(statuses.drop_last());
        assert forall|k: int|
            0 <= k < uninitialized_indices(statuses).len() implies 0 <= #[trigger]
            uninitialized_indices(statuses)[k] < statuses.len() by {
            if k < rest.len() {
                assert(uninitialized_indices(statuses)[k] == rest[k]);
            }
        }
    }
}

/// Select the funding accounts to bootstrap: each entry is the fetched
/// data length of the account, or `None` when the account is missing.
pub fn select_uninitialized(statuses: &Vec<Option<u64>>) -> (r: Vec<usize>)
    ensures
        r@.len() == uninitialized_indices(statuses@).len(),
        forall|k: int|
            0 <= k < r@.len() ==> #[trigger] r@[k] == uninitialized_indices(statuses@)[k],
{
    let mut r: Vec<usize> = Vec::new();
    let n = statuses.len();
    let mut i: usize = 0;
    proof {
        assert(statuses@.take(0int) =~= Seq::<Option<u64>>::empty());
    }
    while i < n
        invariant
            0 <= i <= n,
            n == statuses@.len(),
            r@.len() == uninitialized_indices(statuses@.take(i as int)).len(),
            forall|k: int|
                0 <= k < r@.len() ==> #[trigger] r@[k] == uninitialized_indices(
                    statuses@.take(i as int),
                )[k],
        decreases n - i,
    {
        let status = statuses[i];
        proof {
            assert(statuses@.take(i + 1).drop_last() =~= statuses@.take(i as int));
            assert(statuses@.take(i + 1).last() == statuses@[i as int]);
        }
        let needs_bootstrap = match status {
            None => true,
            Some(len) => len == 0,
        };
        if needs_bootstrap {
            r.push(i);
        }
        i = i + 1;
    }
    proof {
        assert(statuses@.take(n as int) =~= statuses@);
    }
    r
}

/// The `Initialize` instruction bytes a bootstrap sends for one
/// market, with the default configuration.
pub fn bootstrap_initialize_instruction(market_index: u16, exchange: Exchange) -> (r: Vec<u8>)
    ensures
        crate::program::instruction_view(r@) == Some(
            crate::program::InstructionData::InitializeFundingAccount {
                id: 0u16,
                exchange,
                market_index,
                update_frequency_secs: BOOTSTRAP_UPDATE_FREQUENCY_SECS,
                staleness_threshold_secs: BOOTSTRAP_STALENESS_THRESHOLD_SECS,
                period_length: BOOTSTRAP_PERIOD_LENGTH,
                data_points_count: BOOTSTRAP_DATA_POINTS_COUNT,
            },
        ),
{
    crate::program::encode_instruction(
        &crate::program::InstructionData::InitializeFundingAccount {
            id: 0,
            exchange,
            market_index,
            update_frequency_secs: BOOTSTRAP_UPDATE_FREQUENCY_SECS,
            staleness_threshold_secs: BOOTSTRAP_STALENESS_THRESHOLD_SECS,
            period_length: BOOTSTRAP_PERIOD_LENGTH,
            data_points_count: BOOTSTRAP_DATA_POINTS_COUNT,
        },
    )
}

} // verus!
