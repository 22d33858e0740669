//! The static address book of the relayer: the venue market addresses,
//! their oracles and book sides, and the funding record of every
//! tracked market.

use vstd::prelude::*;

use crate::address::Address;
use crate::book::Side;
use crate::record::Exchange;

verus! {

/// The venue-M program.
pub open spec fn mango_program_id_spec() -> Address {
    Address { lo: 0x656b9dca985b078ec1590fde7de1d831u128, hi: 0x7f37020f183cbe5e6c206d50ed24fac8u128 }
}

pub fn mango_program_id() -> (r: Address)
    ensures
        r == mango_program_id_spec(),
{
    Address { lo: 0x656b9dca985b078ec1590fde7de1d831, hi: 0x7f37020f183cbe5e6c206d50ed24fac8 }
}

/// The venue-D program.
pub open spec fn drift_program_id_spec() -> Address {
    Address { lo: 0x963613e23f297a8ac960c99ebedb5409u128, hi: 0xf6534a85891f5679814bae51d180e16fu128 }
}

pub fn drift_program_id() -> (r: Address)
    ensures
        r == drift_program_id_spec(),
{
    Address { lo: 0x963613e23f297a8ac960c99ebedb5409, hi: 0xf6534a85891f5679814bae51d180e16f }
}

/// A tracked funding record and the market it follows.
pub struct FundingAccountMeta {
    pub address: Address,
    pub market_index: u16,
    pub market: Address,
    pub exchange: Exchange,
}

/// The relayer's address book.
pub struct StaticAddresses {
    pub drift_markets: Vec<Address>,
    pub mango_markets: Vec<Address>,
    /// market address, book side address, and which side it is
    pub mango_book_sides: Vec<(Address, Address, Side)>,
    pub oracles: Vec<Address>,
    pub funding_accounts: Vec<FundingAccountMeta>,
}

/// The bytes of an address, little-endian halves in order.
pub fn address_bytes(a: &Address) -> (r: Vec<u8>)
    ensures
        r@.len() == 32,
        crate::codec::le128_at(r@, 0) == a.lo,
        crate::codec::le128_at(r@, 16) == a.hi,
{
    let mut b = crate::record::zeroed_vec(32);
    crate::codec::write_u128_at(&mut b, 0, a.lo);
    crate::codec::write_u128_at(&mut b, 16, a.hi);
    b
}

/// The byte shape of the venue-M market seed list: the namespace, the
/// group address, and the market index, little-endian.
pub open spec fn mango_market_seeds_ok(seeds: Seq<Seq<u8>>, group: Address, id: u16) -> bool {
    &&& seeds.len() == 3
    &&& seeds[0] == seq![80u8, 101u8, 114u8, 112u8, 77u8, 97u8, 114u8, 107u8, 101u8, 116u8]
    &&& seeds[1].len() == 32
    &&& crate::codec::le128_at(seeds[1], 0) == group.lo
    &&& crate::codec::le128_at(seeds[1], 16) == group.hi
    &&& seeds[2] == seq![(id % 0x100) as u8, (id / 0x100) as u8]
}

/// The venue-M market address for a market index within a group: the
/// canonical derivation over the venue-M market seeds.
pub fn mango_market_address(group: &Address, id: u16) -> (r: Option<Address>)
    ensures
        r matches Some(addr) ==> exists|seeds: Seq<Seq<u8>>, bump: u8|
            {
                &&& #[trigger] mango_market_seeds_ok(seeds, *group, id)
                &&& #[trigger] crate::pda::canonical_bump(seeds, mango_program_id_spec(), bump)
                &&& crate::pda::pda_create(seeds.push(seq![bump]), mango_program_id_spec())
                    == Some(addr)
            },
{
    // seed namespace of venue-M markets
    let mut namespace: Vec<u8> = Vec::new();
    namespace.push(80);
    namespace.push(101);
    namespace.push(114);
    namespace.push(112);
    namespace.push(77);
    namespace.push(97);
    namespace.push(114);
    namespace.push(107);
    namespace.push(101);
    namespace.push(116);
    let mut id_bytes: Vec<u8> = Vec::new();
    id_bytes.push((id % 0x100) as u8);
    id_bytes.push((id / 0x100) as u8);
    let mut seeds: Vec<Vec<u8>> = Vec::new();
    seeds.push(namespace);
    seeds.push(address_bytes(group));
    seeds.push(id_bytes);
    let pid = mango_program_id();
    match crate::pda::try_find_program_address(&seeds, &pid) {
        Some((address, bump)) => {
            proof {
                let sv = seeds@.map_values(|s: Vec<u8>| s@);
                assert(sv[0] =~= seq![80u8, 101u8, 114u8, 112u8, 77u8, 97u8, 114u8, 107u8,
                    101u8, 116u8]);
                assert(sv[2] =~= seq![(id % 0x100) as u8, (id / 0x100) as u8]);
                assert(mango_market_seeds_ok(sv, *group, id));
            }
            Some(address)
        },
        None => None,
    }
}

/// The byte shape of the venue-D market seed list: the namespace and
/// the market index, little-endian.
pub open spec fn drift_market_seeds_ok(seeds: Seq<Seq<u8>>, id: u16) -> bool {
    &&& seeds.len() == 2
    &&& seeds[0] == seq![112u8, 101u8, 114u8, 112u8, 95u8, 109u8, 97u8, 114u8, 107u8, 101u8,
        116u8]
    &&& seeds[1] == seq![(id % 0x100) as u8, (id / 0x100) as u8]
}

/// The venue-D market address for a market index: the canonical
/// derivation over the venue-D market seeds.
pub fn drift_market_address(id: u16) -> (r: Option<Address>)
    ensures
        r matches Some(addr) ==> exists|seeds: Seq<Seq<u8>>, bump: u8|
            {
                &&& #[trigger] drift_market_seeds_ok(seeds, id)
                &&& #[trigger] crate::pda::canonical_bump(seeds, drift_program_id_spec(), bump)
                &&& crate::pda::pda_create(seeds.push(seq![bump]), drift_program_id_spec())
                    == Some(addr)
            },
{
    // seed namespace of venue-D markets
    let mut namespace: Vec<u8> = Vec::new();
    namespace.push(112);
    namespace.push(101);
    namespace.push(114);
    namespace.push(112);
    namespace.push(95);
    namespace.push(109);
    namespace.push(97);
    namespace.push(114);
    namespace.push(107);
    namespace.push(101);
    namespace.push(116);
    let mut id_bytes: Vec<u8> = Vec::new();
    id_bytes.push((id % 0x100) as u8);
    id_bytes.push((id / 0x100) as u8);
    let mut seeds: Vec<Vec<u8>> = Vec::new();
    seeds.push(namespace);
    seeds.push(id_bytes);
    let pid = drift_program_id();
    match crate::pda::try_find_program_address(&seeds, &pid) {
        Some((address, bump)) => {
            proof {
                let sv = seeds@.map_values(|s: Vec<u8>| s@);
                assert(sv[0] =~= seq![112u8, 101u8, 114u8, 112u8, 95u8, 109u8, 97u8, 114u8,
                    107u8, 101u8, 116u8]);
                assert(sv[1] =~= seq![(id % 0x100) as u8, (id / 0x100) as u8]);
                assert(drift_market_seeds_ok(sv, id));
            }
            Some(address)
        },
        None => None,
    }
}

/// Whether a sequence of addresses holds a given one.
pub open spec fn holds_address(s: Seq<Address>, a: Address) -> bool {
    exists|i: int| 0 <= i < s.len() && s[i] == a
}

impl StaticAddresses {
    pub fn new() -> (r: StaticAddresses)
        ensures
            r.drift_markets@.len() == 0,
            r.mango_markets@.len() == 0,
            r.mango_book_sides@.len() == 0,
            r.oracles@.len() == 0,
            r.funding_accounts@.len() == 0,
    {
        StaticAddresses {
            drift_markets: Vec::new(),
            mango_markets: Vec::new(),
            mango_book_sides: Vec::new(),
            oracles: Vec::new(),
            funding_accounts: Vec::new(),
        }
    }

    /// Track an oracle once, however many markets share it.
    pub fn insert_unique_oracle(&mut self, oracle: Address)
        ensures
            final(self).drift_markets == old(self).drift_markets,
            final(self).mango_markets == old(self).mango_markets,
            final(self).mango_book_sides == old(self).mango_book_sides,
            final(self).funding_accounts == old(self).funding_accounts,
            final(self).oracles@ == (if holds_address(old(self).oracles@, oracle) {
                old(self).oracles@
            } else {
                old(self).oracles@.push(oracle)
            }),
            holds_address(final(self).oracles@, oracle),
    {
        let n = self.oracles.len();
        let mut i: usize = 0;
        while i < n
            invariant
                0 <= i <= n,
                self == old(self),
                n == self.oracles@.len(),
                forall|k: int| 0 <= k < i ==> self.oracles@[k] != oracle,
            decreases n - i,
        {
            if self.oracles[i] == oracle {
                proof {
                    assert(holds_address(self.oracles@, oracle)) by {
                        assert(self.oracles@[i as int] == oracle);
                    }
                }
                return ;
            }
            i = i + 1;
        }
        self.oracles.push(oracle);
        proof {
            assert(holds_address(self.oracles@, oracle)) by {
                assert(self.oracles@[self.oracles@.len() - 1] == oracle);
            }
        }
    }
}

/// A keyed snapshot store: addresses paired with the data fetched for
/// them. Lookup by address returns the most recently stored snapshot.
pub fn find_by_address<T: Copy>(entries: &Vec<(Address, T)>, address: &Address) -> (r: Option<T>)
    ensures
        match r {
            Some(_) => exists|i: int|
                0 <= i < entries@.len() && (#[trigger] entries@[i]).0 == *address,
            None => forall|i: int|
                0 <= i < entries@.len() ==> (#[trigger] entries@[i]).0 != *address,
        },
        match r {
            Some(v) => exists|i: int|
                0 <= i < entries@.len() && #[trigger] entries@[i] == (*address, v),
            None => true,
        },
{
    let n = entries.len();
    let mut i: usize = 0;
    while i < n
        invariant
            0 <= i <= n,
            n == entries@.len(),
            forall|k: int| 0 <= k < i ==> (#[trigger] entries@[k]).0 != *address,
        decreases n - i,
    {
        let entry = &entries[i];
        if entry.0 == *address {
            return Some(entry.1);
        }
        i = i + 1;
    }
    None
}

} // verus!
