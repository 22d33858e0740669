//! The venue-M order book: two binary trees over a fixed node arena,
//! one of fixed-price orders and one of oracle-pegged orders, walked in
//! price order and merged.

use vstd::prelude::*;

use crate::codec::as_signed64;

verus! {

/// Sides of the book.
#[derive(Clone, Copy, PartialEq, Eq, Structural, Debug)]
pub enum Side {
    Bid,
    Ask,
}

impl Side {
    /// Whether `lhs` would match before `rhs` on this side.
    pub fn is_price_better(&self, lhs: i64, rhs: i64) -> (r: bool)
        ensures
            r == self.is_price_better_spec(lhs as int, rhs as int),
    {
        match self {
            Side::Bid => lhs > rhs,
            Side::Ask => lhs < rhs,
        }
    }

    pub open spec fn is_price_better_spec(&self, lhs: int, rhs: int) -> bool {
        match self {
            Side::Bid => lhs > rhs,
            Side::Ask => lhs < rhs,
        }
    }
}

/// A resting order.
#[derive(Clone, Copy, PartialEq, Eq, Structural, Debug)]
pub struct LeafNode {
    /// Upper 64 bits are price data, lower 64 bits the sequence number.
    pub key: u128,
    pub quantity: i64,
    pub timestamp: u64,
    pub time_in_force: u16,
    pub peg_limit: i64,
}

impl LeafNode {
    /// The price data half of the key.
    pub fn price_data(&self) -> (r: u64)
        ensures
            r == self.price_data_spec(),
    {
        (self.key / 0x1_0000_0000_0000_0000) as u64
    }

    pub open spec fn price_data_spec(&self) -> int {
        self.key as int / 0x1_0000_0000_0000_0000
    }

    /// Whether the order's time in force has run out at `now_ts`.
    pub fn is_expired(&self, now_ts: u64) -> (r: bool)
        ensures
            r == self.is_expired_spec(now_ts as int),
    {
        self.time_in_force > 0 && (now_ts as u128) >= (self.timestamp as u128) + (
        self.time_in_force as u128)
    }

    pub open spec fn is_expired_spec(&self, now_ts: int) -> bool {
        self.time_in_force > 0 && now_ts >= self.timestamp + self.time_in_force
    }
}

/// An interior node: child 0 sorts before child 1.
#[derive(Clone, Copy, PartialEq, Eq, Structural, Debug)]
pub struct InnerNode {
    pub child_low: u32,
    pub child_high: u32,
}

/// A slot of the node arena.
#[derive(Clone, Copy, PartialEq, Eq, Structural, Debug)]
pub enum Node {
    Inner(InnerNode),
    Leaf(LeafNode),
    Free,
}

#[derive(Clone, Copy, PartialEq, Eq, Structural, Debug)]
pub enum OrderTreeType {
    Bids,
    Asks,
}

/// The arena backing both trees of one book side.
pub struct OrderTreeNodes {
    pub order_tree_type: OrderTreeType,
    pub nodes: Vec<Node>,
}

/// A tree root: `leaf_count == 0` means the tree is empty.
#[derive(Clone, Copy, PartialEq, Eq, Structural, Debug)]
pub struct OrderTreeRoot {
    pub maybe_node: u32,
    pub leaf_count: u32,
}

impl OrderTreeRoot {
    /// The root handle, when the tree is not empty.
    pub fn node(&self) -> (r: Option<u32>)
        ensures
            r == (if self.leaf_count == 0 {
                Option::<u32>::None
            } else {
                Option::<u32>::Some(self.maybe_node)
            }),
    {
        if self.leaf_count == 0 {
            None
        } else {
            Some(self.maybe_node)
        }
    }
}

/// The two trees of one book side.
#[derive(Clone, Copy, PartialEq, Eq, Structural, Debug)]
pub enum BookSideOrderTree {
    Fixed,
    OraclePegged,
}

/// One side of the order book.
pub struct BookSide {
    pub fixed_root: OrderTreeRoot,
    pub oracle_pegged_root: OrderTreeRoot,
    pub nodes: OrderTreeNodes,
}

impl BookSide {
    /// Root of the chosen component tree.
    pub fn root(&self, component: BookSideOrderTree) -> (r: &OrderTreeRoot)
        ensures
            *r == (match component {
                BookSideOrderTree::Fixed => self.fixed_root,
                BookSideOrderTree::OraclePegged => self.oracle_pegged_root,
            }),
    {
        match component {
            BookSideOrderTree::Fixed => &self.fixed_root,
            BookSideOrderTree::OraclePegged => &self.oracle_pegged_root,
        }
    }
}

/// The leaves of a subtree in traversal order (`low` first when
/// `low_first`, else reversed), or `None` when the arena is malformed
/// or deeper than the fuel allows.
pub open spec fn collect_spec(nodes: Seq<Node>, handle: int, low_first: bool, fuel: nat) -> Option<
    Seq<(u32, LeafNode)>,
>
    decreases fuel,
{
    if fuel == 0 {
        None
    } else if !(0 <= handle < nodes.len()) {
        None
    } else {
        match nodes[handle] {
            Node::Leaf(leaf) => Some(seq![(handle as u32, leaf)]),
            Node::Inner(inner) => {
                let first: int = if low_first {
                    inner.child_low as int
                } else {
                    inner.child_high as int
                };
                let second: int = if low_first {
                    inner.child_high as int
                } else {
                    inner.child_low as int
                };
                match collect_spec(nodes, first, low_first, (fuel - 1) as nat) {
                    None => None,
                    Some(a) => match collect_spec(nodes, second, low_first, (fuel - 1) as nat) {
                        None => None,
                        Some(b) => Some(a + b),
                    },
                }
            },
            Node::Free => None,
        }
    }
}

/// Collect the leaves of a subtree in traversal order.
pub fn collect_leaves(nodes: &Vec<Node>, handle: u32, low_first: bool, fuel: u32) -> (r: Option<
    Vec<(u32, LeafNode)>,
>)
    ensures
        match r {
            Some(v) => collect_spec(nodes@, handle as int, low_first, fuel as nat) == Some(v@),
            None => collect_spec(nodes@, handle as int, low_first, fuel as nat) is None,
        },
    decreases fuel,
{
    if fuel == 0 {
        return None;
    }
    if handle as usize >= nodes.len() {
        return None;
    }
    let node = nodes[handle as usize];
    match node {
        Node::Leaf(leaf) => {
            let mut v: Vec<(u32, LeafNode)> = Vec::new();
            v.push((handle, leaf));
            proof {
                assert(v@ =~= seq![(handle, leaf)]);
            }
            Some(v)
        },
        Node::Inner(inner) => {
            let first: u32 = if low_first {
                inner.child_low
            } else {
                inner.child_high
            };
            let second: u32 = if low_first {
                inner.child_high
            } else {
                inner.child_low
            };
            let mut a = match collect_leaves(nodes, first, low_first, fuel - 1) {
                Some(v) => v,
                None => {
                    return None;
                },
            };
            let b = match collect_leaves(nodes, second, low_first, fuel - 1) {
                Some(v) => v,
                None => {
                    return None;
                },
            };
            let ghost aseq = a@;
            let mut i: usize = 0;
            let bn = b.len();
            while i < bn
                invariant
                    0 <= i <= bn,
                    bn == b@.len(),
                    a@ == aseq + b@.subrange(0, i as int),
                decreases bn - i,
            {
                let item = b[i];
                a.push(item);
                proof {
                    assert(a@ =~= aseq + b@.subrange(0, i + 1));
                }
                i = i + 1;
            }
            proof {
                assert(a@ =~= aseq + b@);
            }
            Some(a)
        },
        Node::Free => None,
    }
}

} // verus!

verus! {

/// Match state of a yielded order.
#[derive(Clone, Copy, PartialEq, Eq, Structural, Debug)]
pub enum OrderState {
    Valid,
    Invalid,
    Skipped,
}

/// Which tree an order came from, and its arena handle.
#[derive(Clone, Copy, PartialEq, Eq, Structural, Debug)]
pub struct BookSideOrderHandle {
    pub node: u32,
    pub order_tree: BookSideOrderTree,
}

/// One order yielded by the merged iterator.
#[derive(Clone, Copy, PartialEq, Eq, Structural, Debug)]
pub struct BookSideIterItem {
    pub handle: BookSideOrderHandle,
    pub node: LeafNode,
    pub price_lots: i64,
    pub state: OrderState,
}

impl BookSideIterItem {
    pub fn is_valid(&self) -> (r: bool)
        ensures
            r == (self.state == OrderState::Valid),
    {
        self.state == OrderState::Valid
    }
}

/// The signed price offset encoded in a pegged order's price data:
/// the raw value re-centered around `u64::MAX / 2 + 1`.
pub open spec fn pegged_offset_spec(price_data: int) -> int {
    price_data - 0x8000_0000_0000_0000
}

pub fn oracle_pegged_price_offset(price_data: u64) -> (r: i64)
    ensures
        r == pegged_offset_spec(price_data as int),
{
    if price_data >= 0x8000_0000_0000_0000 {
        (price_data - 0x8000_0000_0000_0000) as i64
    } else {
        let d = 0x8000_0000_0000_0000 - price_data;
        if d == 0x8000_0000_0000_0000 {
            i64::MIN
        } else {
            -(d as i64)
        }
    }
}

/// Saturating sum of the oracle price and an offset.
pub open spec fn sat_add64(a: int, b: int) -> int {
    if a + b > i64::MAX {
        i64::MAX as int
    } else if a + b < i64::MIN {
        i64::MIN as int
    } else {
        a + b
    }
}

/// State and current price of an oracle-pegged order: out-of-range
/// prices are `Skipped` (price clamped up to one), prices past the peg
/// limit are `Invalid`.
pub open spec fn pegged_price_spec(oracle_price_lots: int, node: LeafNode, side: Side) -> (
    OrderState,
    int,
) {
    let price = sat_add64(oracle_price_lots, pegged_offset_spec(node.price_data_spec()));
    if 1 <= price < i64::MAX {
        if node.peg_limit != -1 && side.is_price_better_spec(price, node.peg_limit as int) {
            (OrderState::Invalid, price)
        } else {
            (OrderState::Valid, price)
        }
    } else {
        (OrderState::Skipped, if price >= 1 {
            price
        } else {
            1
        })
    }
}

pub fn oracle_pegged_price(oracle_price_lots: i64, node: &LeafNode, side: Side) -> (r: (
    OrderState,
    i64,
))
    ensures
        (r.0, r.1 as int) == pegged_price_spec(oracle_price_lots as int, *node, side),
{
    let price_offset = oracle_pegged_price_offset(node.price_data());
    let price = match oracle_price_lots.checked_add(price_offset) {
        Some(v) => v,
        None => {
            if price_offset > 0 {
                i64::MAX
            } else {
                i64::MIN
            }
        },
    };
    if 1 <= price && price < i64::MAX {
        if node.peg_limit != -1 && side.is_price_better(price, node.peg_limit) {
            (OrderState::Invalid, price)
        } else {
            (OrderState::Valid, price)
        }
    } else {
        (OrderState::Skipped, if price >= 1 {
            price
        } else {
            1
        })
    }
}

/// A pegged key rewritten with its effective price in the upper bits,
/// comparable against fixed-order keys.
pub fn key_for_fixed_price(key: u128, price_lots: i64) -> (r: u128)
    requires
        price_lots >= 1,
    ensures
        r == price_lots * 0x1_0000_0000_0000_0000 + (key % 0x1_0000_0000_0000_0000),
{
    let upper = (price_lots as u128) * 0x1_0000_0000_0000_0000;
    let lower = key % 0x1_0000_0000_0000_0000;
    upper + lower
}

/// An iterator item for a fixed order: expired orders are `Invalid`.
pub open spec fn fixed_to_result_spec(handle: u32, node: LeafNode, now_ts: int) -> BookSideIterItem {
    BookSideIterItem {
        handle: BookSideOrderHandle { node: handle, order_tree: BookSideOrderTree::Fixed },
        node,
        price_lots: as_signed64(node.price_data_spec()) as i64,
        state: if node.is_expired_spec(now_ts) {
            OrderState::Invalid
        } else {
            OrderState::Valid
        },
    }
}

pub fn fixed_to_result(handle: u32, node: &LeafNode, now_ts: u64) -> (r: BookSideIterItem)
    ensures
        r == fixed_to_result_spec(handle, *node, now_ts as int),
{
    let expired = node.is_expired(now_ts);
    BookSideIterItem {
        handle: BookSideOrderHandle { node: handle, order_tree: BookSideOrderTree::Fixed },
        node: *node,
        price_lots: crate::codec::signed_of_u64(node.price_data()),
        state: if expired {
            OrderState::Invalid
        } else {
            OrderState::Valid
        },
    }
}

/// An iterator item for a pegged order: expiry overrides the pegged
/// state.
pub open spec fn pegged_to_result_spec(
    handle: u32,
    node: LeafNode,
    price_lots: int,
    state: OrderState,
    now_ts: int,
) -> BookSideIterItem {
    BookSideIterItem {
        handle: BookSideOrderHandle { node: handle, order_tree: BookSideOrderTree::OraclePegged },
        node,
        price_lots: price_lots as i64,
        state: if node.is_expired_spec(now_ts) {
            OrderState::Invalid
        } else {
            state
        },
    }
}

pub fn oracle_pegged_to_result(handle: u32, node: &LeafNode, price_lots: i64, state: OrderState,
    now_ts: u64) -> (r: BookSideIterItem)
    ensures
        r == pegged_to_result_spec(handle, *node, price_lots as int, state, now_ts as int),
{
    let expired = node.is_expired(now_ts);
    BookSideIterItem {
        handle: BookSideOrderHandle { node: handle, order_tree: BookSideOrderTree::OraclePegged },
        node: *node,
        price_lots,
        state: if expired {
            OrderState::Invalid
        } else {
            state
        },
    }
}

/// The candidate that would match first (or last, with `return_worse`):
/// keys are compared after translating the pegged key to its effective
/// price.
pub open spec fn rank_orders_spec(
    side: Side,
    fixed: Option<(u32, LeafNode)>,
    oracle_pegged: Option<(u32, LeafNode)>,
    return_worse: bool,
    now_ts: int,
    oracle_price_lots: int,
) -> Option<BookSideIterItem> {
    match (fixed, oracle_pegged) {
        (Some(f), Some(o)) => {
            let ps = pegged_price_spec(oracle_price_lots, o.1, side);
            let o_key = ps.1 * 0x1_0000_0000_0000_0000 + (o.1.key % 0x1_0000_0000_0000_0000);
            let fixed_better = match side {
                Side::Bid => f.1.key > o_key,
                Side::Ask => f.1.key < o_key,
            };
            if fixed_better != return_worse {
                Some(fixed_to_result_spec(f.0, f.1, now_ts))
            } else {
                Some(pegged_to_result_spec(o.0, o.1, ps.1, ps.0, now_ts))
            }
        },
        (None, Some(o)) => {
            let ps = pegged_price_spec(oracle_price_lots, o.1, side);
            Some(pegged_to_result_spec(o.0, o.1, ps.1, ps.0, now_ts))
        },
        (Some(f), None) => Some(fixed_to_result_spec(f.0, f.1, now_ts)),
        (None, None) => None,
    }
}

/// Rank a fixed and a pegged candidate. The pegged price is assumed
/// representable, as the merged iterator skips the others beforehand.
pub fn rank_orders(side: Side, fixed: Option<(u32, LeafNode)>, oracle_pegged: Option<
    (u32, LeafNode),
>, return_worse: bool, now_ts: u64, oracle_price_lots: i64) -> (r: Option<BookSideIterItem>)
    ensures
        r == rank_orders_spec(
            side,
            fixed,
            oracle_pegged,
            return_worse,
            now_ts as int,
            oracle_price_lots as int,
        ),
{
    match (fixed, oracle_pegged) {
        (Some(f), Some(o)) => {
            let (state, price_lots) = oracle_pegged_price(oracle_price_lots, &o.1, side);
            let o_key = key_for_fixed_price(o.1.key, price_lots);
            let fixed_better = match side {
                Side::Bid => f.1.key > o_key,
                Side::Ask => f.1.key < o_key,
            };
            if fixed_better != return_worse {
                Some(fixed_to_result(f.0, &f.1, now_ts))
            } else {
                Some(oracle_pegged_to_result(o.0, &o.1, price_lots, state, now_ts))
            }
        },
        (None, Some(o)) => {
            let (state, price_lots) = oracle_pegged_price(oracle_price_lots, &o.1, side);
            Some(oracle_pegged_to_result(o.0, &o.1, price_lots, state, now_ts))
        },
        (Some(f), None) => Some(fixed_to_result(f.0, &f.1, now_ts)),
        (None, None) => None,
    }
}

} // verus!

verus! {

/// Walks one tree's leaves in price order over a pre-collected list.
pub struct OrderTreeIter {
    pub tree_type: OrderTreeType,
    pub leaves: Vec<(u32, LeafNode)>,
    pub pos: usize,
}

impl OrderTreeIter {
    pub open spec fn wf(self) -> bool {
        self.pos <= self.leaves@.len()
    }

    /// The leaves not yet yielded.
    pub open spec fn remaining(self) -> Seq<(u32, LeafNode)> {
        self.leaves@.skip(self.pos as int)
    }

    /// Build the iterator; asks walk low child first, bids high child
    /// first. Fails on a malformed arena.
    pub fn new(order_tree: &OrderTreeNodes, root: &OrderTreeRoot) -> (r: Option<OrderTreeIter>)
        ensures
            match r {
                Some(it) => it.wf() && it.pos == 0 && it.tree_type == order_tree.order_tree_type
                    && (if root.leaf_count == 0 {
                    it.leaves@.len() == 0
                } else {
                    collect_spec(
                        order_tree.nodes@,
                        root.maybe_node as int,
                        order_tree.order_tree_type == OrderTreeType::Asks,
                        tree_fuel(order_tree.nodes@.len() as int) as nat,
                    ) == Some(it.leaves@)
                }),
                None => root.leaf_count != 0 && collect_spec(
                    order_tree.nodes@,
                    root.maybe_node as int,
                    order_tree.order_tree_type == OrderTreeType::Asks,
                    tree_fuel(order_tree.nodes@.len() as int) as nat,
                ) is None,
            },
    {
        let low_first = match order_tree.order_tree_type {
            OrderTreeType::Asks => true,
            OrderTreeType::Bids => false,
        };
        if root.leaf_count == 0 {
            return Some(
                OrderTreeIter { tree_type: order_tree.order_tree_type, leaves: Vec::new(), pos: 0 },
            );
        }
        let fuel: u32 = if order_tree.nodes.len() < 0xffff_fffe {
            (order_tree.nodes.len() + 1) as u32
        } else {
            0xffff_ffff
        };
        match collect_leaves(&order_tree.nodes, root.maybe_node, low_first, fuel) {
            Some(leaves) => Some(
                OrderTreeIter { tree_type: order_tree.order_tree_type, leaves, pos: 0 },
            ),
            None => None,
        }
    }

    /// The side this tree belongs to.
    pub fn side(&self) -> (r: Side)
        ensures
            r == (if self.tree_type == OrderTreeType::Bids {
                Side::Bid
            } else {
                Side::Ask
            }),
    {
        match self.tree_type {
            OrderTreeType::Bids => Side::Bid,
            OrderTreeType::Asks => Side::Ask,
        }
    }

    /// The next leaf, without advancing.
    pub fn peek(&self) -> (r: Option<(u32, LeafNode)>)
        requires
            self.wf(),
        ensures
            r == (if self.remaining().len() > 0 {
                Some(self.remaining()[0])
            } else {
                Option::<(u32, LeafNode)>::None
            }),
    {
        if self.pos < self.leaves.len() {
            Some(self.leaves[self.pos])
        } else {
            None
        }
    }

    /// Yield the next leaf and advance.
    pub fn next(&mut self) -> (r: Option<(u32, LeafNode)>)
        requires
            old(self).wf(),
        ensures
            final(self).wf(),
            final(self).leaves == old(self).leaves,
            final(self).tree_type == old(self).tree_type,
            if old(self).remaining().len() > 0 {
                r == Some(old(self).remaining()[0]) && final(self).remaining() == old(
                    self,
                ).remaining().skip(1)
            } else {
                r is None && *final(self) == *old(self)
            },
    {
        if self.pos < self.leaves.len() {
            let item = self.leaves[self.pos];
            self.pos = self.pos + 1;
            proof {
                assert(self.leaves@.skip(self.pos as int) =~= old(self).remaining().skip(1));
            }
            Some(item)
        } else {
            None
        }
    }
}

/// The traversal fuel for an arena of `n` nodes: enough for any
/// acyclic tree, so running out means the arena is malformed.
pub open spec fn tree_fuel(n: int) -> int {
    if n < 0xffff_fffe {
        n + 1
    } else {
        0xffff_ffff
    }
}

/// The side a tree type belongs to.
pub open spec fn side_of(t: OrderTreeType) -> Side {
    if t == OrderTreeType::Bids {
        Side::Bid
    } else {
        Side::Ask
    }
}

/// The leaves of one component tree, in traversal order; an empty root
/// is an empty list, a malformed arena is `None`.
pub open spec fn tree_leaves_view(nodes: Seq<Node>, tree_type: OrderTreeType, root: OrderTreeRoot)
    -> Option<Seq<(u32, LeafNode)>> {
    if root.leaf_count == 0 {
        Some(Seq::empty())
    } else {
        collect_spec(
            nodes,
            root.maybe_node as int,
            tree_type == OrderTreeType::Asks,
            tree_fuel(nodes.len() as int) as nat,
        )
    }
}

/// The merged order stream over two leaf lists: pegged heads that
/// cannot be priced at the oracle are dropped, then the better-priced
/// head is yielded and consumed, until both lists are spent.
pub open spec fn merge_items(
    side: Side,
    fixed: Seq<(u32, LeafNode)>,
    pegged: Seq<(u32, LeafNode)>,
    now: int,
    oracle: int,
) -> Seq<BookSideIterItem>
    decreases fixed.len() + pegged.len(),
{
    if pegged.len() > 0 && pegged_price_spec(oracle, pegged[0].1, side).0
        == OrderState::Skipped {
        merge_items(side, fixed, pegged.skip(1), now, oracle)
    } else {
        let f: Option<(u32, LeafNode)> = if fixed.len() > 0 {
            Some(fixed[0])
        } else {
            None
        };
        let o: Option<(u32, LeafNode)> = if pegged.len() > 0 {
            Some(pegged[0])
        } else {
            None
        };
        match rank_orders_spec(side, f, o, false, now, oracle) {
            None => Seq::empty(),
            Some(item) => {
                if item.handle.order_tree == BookSideOrderTree::Fixed {
                    seq![item] + merge_items(side, fixed.skip(1), pegged, now, oracle)
                } else {
                    seq![item] + merge_items(side, fixed, pegged.skip(1), now, oracle)
                }
            },
        }
    }
}

/// The merged stream of a whole book side, or `None` on a malformed
/// arena.
pub open spec fn book_merged_view(book: BookSide, now: int, oracle: int) -> Option<
    Seq<BookSideIterItem>,
> {
    match tree_leaves_view(book.nodes.nodes@, book.nodes.order_tree_type, book.fixed_root) {
        None => None,
        Some(f) => match tree_leaves_view(
            book.nodes.nodes@,
            book.nodes.order_tree_type,
            book.oracle_pegged_root,
        ) {
            None => None,
            Some(o) => Some(
                merge_items(side_of(book.nodes.order_tree_type), f, o, now, oracle),
            ),
        },
    }
}

/// Scan the merged stream, accumulating the quantities of `Valid`
/// items: the first price at which the running sum reaches `quantity`,
/// with the accumulator guard the implementation applies.
pub open spec fn impact_scan(items: Seq<BookSideIterItem>, quantity: int, sum: int) -> Option<i64>
    decreases items.len(),
{
    if items.len() == 0 {
        None
    } else {
        let item = items[0];
        if item.state == OrderState::Valid {
            if !(-0x10_0000_0000_0000_0000_0000_0000 <= sum
                <= 0x10_0000_0000_0000_0000_0000_0000) {
                None
            } else if sum + item.node.quantity >= quantity {
                Some(item.price_lots)
            } else {
                impact_scan(items.skip(1), quantity, sum + item.node.quantity)
            }
        } else {
            impact_scan(items.skip(1), quantity, sum)
        }
    }
}

/// The impact price of a book side at a depth: scan the merged stream;
/// `None` when the book is too shallow or its arena is malformed.
pub open spec fn impact_price_spec(book: BookSide, quantity: int, now: int, oracle: int) -> Option<
    i64,
> {
    match book_merged_view(book, now, oracle) {
        None => None,
        Some(items) => impact_scan(items, quantity, 0),
    }
}

/// The merged iterator over the fixed and oracle-pegged trees of one
/// book side.
pub struct BookSideIter {
    pub fixed_iter: OrderTreeIter,
    pub oracle_pegged_iter: OrderTreeIter,
    pub now_ts: u64,
    pub oracle_price_lots: i64,
}

impl BookSideIter {
    pub open spec fn wf(self) -> bool {
        self.fixed_iter.wf() && self.oracle_pegged_iter.wf()
            && self.fixed_iter.tree_type == self.oracle_pegged_iter.tree_type
    }

    /// The orders this iterator has yet to yield.
    pub open spec fn merged_view(self) -> Seq<BookSideIterItem> {
        merge_items(
            side_of(self.fixed_iter.tree_type),
            self.fixed_iter.remaining(),
            self.oracle_pegged_iter.remaining(),
            self.now_ts as int,
            self.oracle_price_lots as int,
        )
    }

    /// Build the merged iterator over the book's two trees; fails only
    /// on a malformed arena.
    pub fn new(book_side: &BookSide, now_ts: u64, oracle_price_lots: i64) -> (r: Option<
        BookSideIter,
    >)
        ensures
            match r {
                Some(it) => {
                    &&& it.wf()
                    &&& it.now_ts == now_ts
                    &&& it.oracle_price_lots == oracle_price_lots
                    &&& it.fixed_iter.tree_type == book_side.nodes.order_tree_type
                    &&& tree_leaves_view(
                        book_side.nodes.nodes@,
                        book_side.nodes.order_tree_type,
                        book_side.fixed_root,
                    ) == Some(it.fixed_iter.remaining())
                    &&& tree_leaves_view(
                        book_side.nodes.nodes@,
                        book_side.nodes.order_tree_type,
                        book_side.oracle_pegged_root,
                    ) == Some(it.oracle_pegged_iter.remaining())
                    &&& book_merged_view(*book_side, now_ts as int, oracle_price_lots as int)
                        == Some(it.merged_view())
                },
                None => book_merged_view(*book_side, now_ts as int, oracle_price_lots as int)
                    is None,
            },
    {
        let fixed_iter = match OrderTreeIter::new(
            &book_side.nodes,
            book_side.root(BookSideOrderTree::Fixed),
        ) {
            Some(it) => it,
            None => {
                return None;
            },
        };
        let oracle_pegged_iter = match OrderTreeIter::new(
            &book_side.nodes,
            book_side.root(BookSideOrderTree::OraclePegged),
        ) {
            Some(it) => it,
            None => {
                return None;
            },
        };
        proof {
            if book_side.fixed_root.leaf_count == 0 {
                assert(fixed_iter.remaining() =~= Seq::<(u32, LeafNode)>::empty());
            }
            if book_side.oracle_pegged_root.leaf_count == 0 {
                assert(oracle_pegged_iter.remaining() =~= Seq::<(u32, LeafNode)>::empty());
            }
            assert(fixed_iter.remaining() =~= fixed_iter.leaves@);
            assert(oracle_pegged_iter.remaining() =~= oracle_pegged_iter.leaves@);
        }
        Some(BookSideIter { fixed_iter, oracle_pegged_iter, now_ts, oracle_price_lots })
    }

    /// Yield the next best order across both trees: pegged orders that
    /// cannot be priced at the current oracle are skipped, and the
    /// chosen sub-iterator advances.
    pub fn next(&mut self) -> (r: Option<BookSideIterItem>)
        requires
            old(self).wf(),
        ensures
            final(self).wf(),
            final(self).now_ts == old(self).now_ts,
            final(self).oracle_price_lots == old(self).oracle_price_lots,
            match r {
                Some(item) => {
                    &&& item.state != OrderState::Skipped
                    &&& old(self).merged_view().len() > 0
                    &&& item == old(self).merged_view()[0]
                    &&& final(self).merged_view() == old(self).merged_view().skip(1)
                    &&& final(self).fixed_iter.remaining().len()
                        + final(self).oracle_pegged_iter.remaining().len()
                        < old(self).fixed_iter.remaining().len()
                        + old(self).oracle_pegged_iter.remaining().len()
                },
                None => old(self).merged_view().len() == 0 && final(self).merged_view().len()
                    == 0 && final(self).fixed_iter == old(self).fixed_iter,
            },
        decreases old(self).oracle_pegged_iter.remaining().len(),
    {
        let side = self.fixed_iter.side();
        // skip pegged orders that are not representable at this oracle price
        let o_peek = self.oracle_pegged_iter.peek();
        match o_peek {
            Some((_, o_node)) => {
                let (state, _) = oracle_pegged_price(self.oracle_price_lots, &o_node, side);
                if state == OrderState::Skipped {
                    proof {
                        // dropping an unpriceable head keeps the stream
                        assert(old(self).merged_view() == merge_items(
                            side_of(self.fixed_iter.tree_type),
                            self.fixed_iter.remaining(),
                            self.oracle_pegged_iter.remaining().skip(1),
                            self.now_ts as int,
                            self.oracle_price_lots as int,
                        ));
                    }
                    let _ = self.oracle_pegged_iter.next();
                    return self.next();
                }
            },
            None => {},
        }
        let f_peek = self.fixed_iter.peek();
        let better = match rank_orders(
            side,
            f_peek,
            o_peek,
            false,
            self.now_ts,
            self.oracle_price_lots,
        ) {
            Some(b) => b,
            None => {
                return None;
            },
        };
        proof {
            let rest = if better.handle.order_tree == BookSideOrderTree::Fixed {
                merge_items(
                    side,
                    self.fixed_iter.remaining().skip(1),
                    self.oracle_pegged_iter.remaining(),
                    self.now_ts as int,
                    self.oracle_price_lots as int,
                )
            } else {
                merge_items(
                    side,
                    self.fixed_iter.remaining(),
                    self.oracle_pegged_iter.remaining().skip(1),
                    self.now_ts as int,
                    self.oracle_price_lots as int,
                )
            };
            assert(old(self).merged_view() == seq![better] + rest);
            assert((seq![better] + rest).skip(1) =~= rest);
        }
        match better.handle.order_tree {
            BookSideOrderTree::Fixed => {
                let _ = self.fixed_iter.next();
            },
            BookSideOrderTree::OraclePegged => {
                let _ = self.oracle_pegged_iter.next();
            },
        }
        Some(better)
    }
}

impl BookSide {
    /// The first price at which cumulative valid resting quantity
    /// reaches `quantity`; `None` when the book is too shallow or its
    /// arena is malformed.
    pub fn impact_price(&self, quantity: i64, now_ts: u64, oracle_price_lots: i64) -> (r: Option<
        i64,
    >)
        ensures
            r == impact_price_spec(*self, quantity as int, now_ts as int, oracle_price_lots as int),
    {
        let mut iter = match BookSideIter::new(self, now_ts, oracle_price_lots) {
            Some(it) => it,
            None => {
                return None;
            },
        };
        let mut sum: i128 = 0;
        loop
            invariant
                iter.wf(),
                iter.now_ts == now_ts,
                iter.oracle_price_lots == oracle_price_lots,
                -0x20_0000_0000_0000_0000_0000_0000 <= sum
                    <= 0x20_0000_0000_0000_0000_0000_0000,
                impact_scan(iter.merged_view(), quantity as int, sum as int)
                    == impact_price_spec(
                    *self,
                    quantity as int,
                    now_ts as int,
                    oracle_price_lots as int,
                ),
            decreases iter.fixed_iter.remaining().len()
                + iter.oracle_pegged_iter.remaining().len(),
        {
            let order = match iter.next() {
                Some(o) => o,
                None => {
                    return None;
                },
            };
            if order.is_valid() {
                if sum >= -0x10_0000_0000_0000_0000_0000_0000 && sum
                    <= 0x10_0000_0000_0000_0000_0000_0000 {
                    sum = sum + order.node.quantity as i128;
                } else {
                    return None;
                }
                if sum >= quantity as i128 {
                    return Some(order.price_lots);
                }
            }
        }
    }
}

} // verus!

verus! {

/// Along one pegged tree, effective prices follow key order: a larger
/// key never yields a smaller effective price. Together with the
/// in-key-order traversal this makes each sub-stream's prices
/// monotone.
pub proof fn lemma_pegged_price_monotone(oracle: int, a: LeafNode, b: LeafNode, side: Side)
    requires
        a.key <= b.key,
    ensures
        pegged_price_spec(oracle, a, side).1 <= pegged_price_spec(oracle, b, side).1,
{
    vstd::arithmetic::div_mod::lemma_div_is_ordered(
        a.key as int,
        b.key as int,
        0x1_0000_0000_0000_0000,
    );
}

/// "At or before" in match order: at most for asks, at least for bids.
pub open spec fn side_le(side: Side, a: int, b: int) -> bool {
    match side {
        Side::Ask => a <= b,
        Side::Bid => a >= b,
    }
}

/// The effective price of a fixed order.
pub open spec fn fixed_price(node: LeafNode) -> int {
    as_signed64(node.price_data_spec())
}

/// The effective price of a pegged order at an oracle price.
pub open spec fn pegged_eff(oracle: int, node: LeafNode, side: Side) -> int {
    pegged_price_spec(oracle, node, side).1
}

/// Keys follow the traversal order of the side: ascending for asks,
/// descending for bids. This is the search-order invariant the book's
/// trees maintain.
pub open spec fn keys_sorted(leaves: Seq<(u32, LeafNode)>, side: Side) -> bool {
    forall|i: int, j: int|
        0 <= i < j < leaves.len() ==> side_le(
            side,
            (#[trigger] leaves[i]).1.key as int,
            (#[trigger] leaves[j]).1.key as int,
        )
}

/// Fixed price data stays below the sign bit, so the signed reading
/// preserves key order.
pub open spec fn fixed_prices_ok(leaves: Seq<(u32, LeafNode)>) -> bool {
    forall|k: int|
        0 <= k < leaves.len() ==> (#[trigger] leaves[k]).1.price_data_spec()
            < 0x8000_0000_0000_0000
}

/// Dropping the head preserves the key order and the price-data bound.
pub proof fn lemma_sorted_skip(leaves: Seq<(u32, LeafNode)>, side: Side)
    requires
        leaves.len() > 0,
        keys_sorted(leaves, side),
    ensures
        keys_sorted(leaves.skip(1), side),
{
    assert forall|i: int, j: int|
        0 <= i < j < leaves.skip(1).len() implies side_le(
        side,
        (#[trigger] leaves.skip(1)[i]).1.key as int,
        (#[trigger] leaves.skip(1)[j]).1.key as int,
    ) by {
        assert(leaves.skip(1)[i] == leaves[i + 1]);
        assert(leaves.skip(1)[j] == leaves[j + 1]);
    }
}

pub proof fn lemma_prices_ok_skip(leaves: Seq<(u32, LeafNode)>)
    requires
        leaves.len() > 0,
        fixed_prices_ok(leaves),
    ensures
        fixed_prices_ok(leaves.skip(1)),
{
    assert forall|k: int|
        0 <= k < leaves.skip(1).len() implies (#[trigger] leaves.skip(1)[k]).1.price_data_spec()
        < 0x8000_0000_0000_0000 by {
        assert(leaves.skip(1)[k] == leaves[k + 1]);
    }
}

/// Key order carries to fixed effective prices while the price data
/// stays below the sign bit.
pub proof fn lemma_fixed_price_ordered(side: Side, a: LeafNode, b: LeafNode)
    requires
        side_le(side, a.key as int, b.key as int),
        a.price_data_spec() < 0x8000_0000_0000_0000,
        b.price_data_spec() < 0x8000_0000_0000_0000,
    ensures
        side_le(side, fixed_price(a), fixed_price(b)),
{
    match side {
        Side::Ask => {
            vstd::arithmetic::div_mod::lemma_div_is_ordered(
                a.key as int,
                b.key as int,
                0x1_0000_0000_0000_0000,
            );
        },
        Side::Bid => {
            vstd::arithmetic::div_mod::lemma_div_is_ordered(
                b.key as int,
                a.key as int,
                0x1_0000_0000_0000_0000,
            );
        },
    }
}

/// Key order carries to pegged effective prices.
pub proof fn lemma_pegged_eff_ordered(side: Side, oracle: int, a: LeafNode, b: LeafNode)
    requires
        side_le(side, a.key as int, b.key as int),
    ensures
        side_le(side, pegged_eff(oracle, a, side), pegged_eff(oracle, b, side)),
{
    match side {
        Side::Ask => {
            lemma_pegged_price_monotone(oracle, a, b, side);
        },
        Side::Bid => {
            lemma_pegged_price_monotone(oracle, b, a, side);
        },
    }
}

/// The merged ranking yields the better-priced head: the chosen item's
/// price matches first against both the fixed head's price and the
/// pegged head's effective price.
pub proof fn lemma_rank_yields_best(side: Side, f: (u32, LeafNode), o: (u32, LeafNode), now: int,
    oracle: int)
    requires
        f.1.price_data_spec() < 0x8000_0000_0000_0000,
    ensures
        match rank_orders_spec(side, Some(f), Some(o), false, now, oracle) {
            Some(item) => side_le(side, item.price_lots as int, fixed_price(f.1)) && side_le(
                side,
                item.price_lots as int,
                pegged_eff(oracle, o.1, side),
            ),
            None => false,
        },
{
    let ps = pegged_price_spec(oracle, o.1, side);
    let o_key = ps.1 * 0x1_0000_0000_0000_0000 + (o.1.key as int % 0x1_0000_0000_0000_0000);
    let base: int = 0x1_0000_0000_0000_0000;
    assert(ps.1 >= 1);
    assert(ps.1 <= i64::MAX);
    assert(o_key / base == ps.1) by {
        vstd::arithmetic::div_mod::lemma_fundamental_div_mod_converse(
            o_key,
            base,
            ps.1,
            o.1.key as int % base,
        );
    }
    let fixed_better = match side {
        Side::Bid => f.1.key > o_key,
        Side::Ask => f.1.key < o_key,
    };
    if fixed_better {
        // the fixed head wins: its price matches no later than the pegged price
        match side {
            Side::Ask => {
                vstd::arithmetic::div_mod::lemma_div_is_ordered(f.1.key as int, o_key, base);
            },
            Side::Bid => {
                vstd::arithmetic::div_mod::lemma_div_is_ordered(o_key, f.1.key as int, base);
            },
        }
    } else {
        // the pegged head wins: its price matches no later than the fixed price
        match side {
            Side::Ask => {
                vstd::arithmetic::div_mod::lemma_div_is_ordered(o_key, f.1.key as int, base);
            },
            Side::Bid => {
                vstd::arithmetic::div_mod::lemma_div_is_ordered(f.1.key as int, o_key, base);
            },
        }
    }
}

/// If every head of both lists matches at or after `p`, so does the
/// head of the merged stream.
pub proof fn lemma_merge_head_bound(
    side: Side,
    fixed: Seq<(u32, LeafNode)>,
    pegged: Seq<(u32, LeafNode)>,
    now: int,
    oracle: int,
    p: int,
)
    requires
        keys_sorted(pegged, side),
        fixed.len() > 0 ==> side_le(side, p, fixed_price(fixed[0].1)),
        pegged.len() > 0 ==> side_le(side, p, pegged_eff(oracle, pegged[0].1, side)),
    ensures
        merge_items(side, fixed, pegged, now, oracle).len() > 0 ==> side_le(
            side,
            p,
            merge_items(side, fixed, pegged, now, oracle)[0].price_lots as int,
        ),
    decreases pegged.len(),
{
    if pegged.len() > 0 && pegged_price_spec(oracle, pegged[0].1, side).0
        == OrderState::Skipped {
        lemma_sorted_skip(pegged, side);
        if pegged.len() > 1 {
            assert(pegged.skip(1)[0] == pegged[1]);
            lemma_pegged_eff_ordered(side, oracle, pegged[0].1, pegged[1].1);
        }
        lemma_merge_head_bound(side, fixed, pegged.skip(1), now, oracle, p);
    }
}

/// The merged stream yields effective prices in match order: monotone
/// non-decreasing for asks, non-increasing for bids, given the books'
/// search-order invariant.
#[verifier::rlimit(100)]
pub proof fn lemma_merge_monotone(
    side: Side,
    fixed: Seq<(u32, LeafNode)>,
    pegged: Seq<(u32, LeafNode)>,
    now: int,
    oracle: int,
)
    requires
        keys_sorted(fixed, side),
        keys_sorted(pegged, side),
        fixed_prices_ok(fixed),
    ensures
        forall|i: int|
            0 <= i && i + 1 < merge_items(side, fixed, pegged, now, oracle).len() ==> side_le(
                side,
                (#[trigger] merge_items(side, fixed, pegged, now, oracle)[i]).price_lots as int,
                merge_items(side, fixed, pegged, now, oracle)[i + 1].price_lots as int,
            ),
    decreases fixed.len() + pegged.len(),
{
    let merged = merge_items(side, fixed, pegged, now, oracle);
    if pegged.len() > 0 && pegged_price_spec(oracle, pegged[0].1, side).0
        == OrderState::Skipped {
        lemma_sorted_skip(pegged, side);
        lemma_merge_monotone(side, fixed, pegged.skip(1), now, oracle);
    } else {
        let f: Option<(u32, LeafNode)> = if fixed.len() > 0 {
            Some(fixed[0])
        } else {
            None
        };
        let o: Option<(u32, LeafNode)> = if pegged.len() > 0 {
            Some(pegged[0])
        } else {
            None
        };
        match rank_orders_spec(side, f, o, false, now, oracle) {
            None => {},
            Some(item) => {
                let advanced_fixed = if item.handle.order_tree == BookSideOrderTree::Fixed {
                    fixed.skip(1)
                } else {
                    fixed
                };
                let advanced_pegged = if item.handle.order_tree == BookSideOrderTree::Fixed {
                    pegged
                } else {
                    pegged.skip(1)
                };
                let rest = merge_items(side, advanced_fixed, advanced_pegged, now, oracle);
                if fixed.len() > 0 {
                    lemma_sorted_skip(fixed, side);
                    lemma_prices_ok_skip(fixed);
                }
                if pegged.len() > 0 {
                    lemma_sorted_skip(pegged, side);
                }
                lemma_merge_monotone(side, advanced_fixed, advanced_pegged, now, oracle);
                // the fresh item matches no later than both remaining heads
                if fixed.len() > 0 && pegged.len() > 0 {
                    lemma_rank_yields_best(side, fixed[0], pegged[0], now, oracle);
                }
                if advanced_fixed.len() > 0 {
                    if item.handle.order_tree == BookSideOrderTree::Fixed {
                        assert(advanced_fixed[0] == fixed[1]);
                        lemma_fixed_price_ordered(side, fixed[0].1, fixed[1].1);
                    }
                }
                if advanced_pegged.len() > 0 {
                    if item.handle.order_tree != BookSideOrderTree::Fixed {
                        assert(advanced_pegged[0] == pegged[1]);
                        lemma_pegged_eff_ordered(side, oracle, pegged[0].1, pegged[1].1);
                    }
                }
                lemma_merge_head_bound(
                    side,
                    advanced_fixed,
                    advanced_pegged,
                    now,
                    oracle,
                    item.price_lots as int,
                );
                assert(merged == seq![item] + rest);
                assert forall|i: int| 0 <= i && i + 1 < merged.len() implies side_le(
                    side,
                    (#[trigger] merged[i]).price_lots as int,
                    merged[i + 1].price_lots as int,
                ) by {
                    if i == 0 {
                        assert(merged[1] == rest[0]);
                    } else {
                        assert(merged[i] == rest[i - 1]);
                        assert(merged[i + 1] == rest[i]);
                    }
                }
            },
        }
    }
}

/// The whole book side's merged stream is monotone in match order,
/// given the trees' search-order invariant.
pub proof fn lemma_book_stream_monotone(book: BookSide, now: int, oracle: int)
    requires
        book_merged_view(book, now, oracle) matches Some(items),
        tree_leaves_view(book.nodes.nodes@, book.nodes.order_tree_type, book.fixed_root)
            matches Some(f) && keys_sorted(f, side_of(book.nodes.order_tree_type))
            && fixed_prices_ok(f),
        tree_leaves_view(
            book.nodes.nodes@,
            book.nodes.order_tree_type,
            book.oracle_pegged_root,
        ) matches Some(o) && keys_sorted(o, side_of(book.nodes.order_tree_type)),
    ensures
        book_merged_view(book, now, oracle) matches Some(items) ==> forall|i: int|
            0 <= i && i + 1 < items.len() ==> side_le(
                side_of(book.nodes.order_tree_type),
                (#[trigger] items[i]).price_lots as int,
                items[i + 1].price_lots as int,
            ),
{
    let side = side_of(book.nodes.order_tree_type);
    let f = tree_leaves_view(
        book.nodes.nodes@,
        book.nodes.order_tree_type,
        book.fixed_root,
    ).unwrap();
    let o = tree_leaves_view(
        book.nodes.nodes@,
        book.nodes.order_tree_type,
        book.oracle_pegged_root,
    ).unwrap();
    lemma_merge_monotone(side, f, o, now, oracle);
}

} // verus!
