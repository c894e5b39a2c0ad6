//! Swaps through one market and along a path of markets.

use crate::actions::Action;
use crate::data_store::{DataStore, Key, Store};
use crate::failure::Failure;
use crate::impact_pools;
use crate::market_utils;
use crate::math;
use crate::types;
use crate::types::{Address, MarketProps, PriceBoard, PriceProps};
use vstd::prelude::*;

verus! {

/// Why a swap is rejected.
#[derive(Clone, Copy, Debug, PartialEq, Eq, Structural)]
pub enum SwapError {
    /// The token is neither the long nor the short token of the market.
    InvalidTokenIn,
    /// The path is longer than the store allows.
    PathTooLong,
    /// The path leads through the same market twice.
    DuplicateMarket,
    /// The pricing module quoted fewer hops than the path has.
    MissingQuote,
    /// The pricing module quoted an output below zero, which no pool can pay.
    NegativeOutput,
}

/// What the pricing module gives for one hop.
#[derive(Clone, Copy, Debug, PartialEq, Eq, Structural)]
pub struct SwapQuote {
    pub impact_usd: i128,
    pub amount_out: i128,
}

/// The longest path where the store configures none.
pub const DEFAULT_MAX_SWAP_PATH_LENGTH: u128 = 5;

// ---------------------------------------------------------------------------
// One hop
// ---------------------------------------------------------------------------

/// What a swap comes to.
pub struct Swap {
    pub token_out: Address,
    pub amount_out: i128,
    pub store: Store,
    pub actions: Seq<Action>,
}

/// The token that comes out where a token goes in.
pub open spec fn other_token(market: MarketProps, token_in: Address) -> Option<Address> {
    if token_in == market.long_token {
        Some(market.short_token)
    } else if token_in == market.short_token {
        Some(market.long_token)
    } else {
        None
    }
}

/// What one hop does to the store: the input joins its pool, the output leaves
/// its own.
pub open spec fn hop_booked(
    s: Store,
    market: MarketProps,
    token_in: Address,
    token_out: Address,
    amount_in: int,
    amount_out: int,
) -> Result<Store, Failure> {
    let s1 = s.shifted(market_utils::pool_key(market, token_in), amount_in);
    if s.can_shift(market_utils::pool_key(market, token_in), amount_in) && math::fits(-amount_out)
        && s1.can_shift(market_utils::pool_key(market, token_out), -amount_out) {
        Ok(s1.shifted(market_utils::pool_key(market, token_out), -amount_out))
    } else {
        Err(Failure::Overflow)
    }
}

/// What `swap` returns and does, or why it is rejected.
pub open spec fn hop(
    s: Store,
    board: Map<Address, PriceProps>,
    market: MarketProps,
    token_in: Address,
    amount_in: i128,
    receiver: Address,
    q: SwapQuote,
) -> Result<Swap, Failure> {
    match other_token(market, token_in) {
        None => Err(Failure::Swap(SwapError::InvalidTokenIn)),
        Some(token_out) => match types::mid_price_of(board, token_in) {
            Err(e) => Err(e),
            Ok(_) => match types::mid_price_of(board, token_out) {
                Err(e) => Err(e),
                Ok(price_out) => if q.amount_out < 0 {
                    Err(Failure::Swap(SwapError::NegativeOutput))
                } else if q.amount_out == 0 {
                    Ok(Swap { token_out, amount_out: 0, store: s, actions: Seq::empty() })
                } else {
                    match impact_pools::impact_booked(
                        s,
                        impact_pools::swap_impact_key(market, token_out),
                        q.impact_usd as int,
                        price_out as int,
                    ) {
                        Err(e) => Err(e),
                        Ok(s1) => match hop_booked(
                            s1,
                            market,
                            token_in,
                            token_out,
                            amount_in as int,
                            q.amount_out as int,
                        ) {
                            Err(e) => Err(e),
                            Ok(t) => Ok(
                                Swap {
                                    token_out,
                                    amount_out: q.amount_out,
                                    store: t,
                                    actions: seq![
                                        Action::WithdrawFromPool {
                                            market: market.market_token,
                                            token: token_out,
                                            receiver,
                                            amount: q.amount_out,
                                        },
                                    ],
                                },
                            ),
                        },
                    }
                },
            },
        },
    }
}

/// Swaps in one market, in a store that the caller discards where the swap is
/// rejected.
pub(crate) fn hop_in(
    ds: &mut DataStore,
    out: &mut Vec<Action>,
    prices: &PriceBoard,
    market: &MarketProps,
    token_in: &Address,
    amount_in: i128,
    receiver: &Address,
    q: &SwapQuote,
) -> (r: Result<(Address, i128), Failure>)
    ensures
        match hop(old(ds)@, prices@, *market, *token_in, amount_in, *receiver, *q) {
            Ok(x) => {
                &&& r == Ok::<(Address, i128), Failure>((x.token_out, x.amount_out))
                &&& final(ds)@ == x.store
                &&& final(out)@ == old(out)@ + x.actions
            },
            Err(e) => {
                &&& r == Err::<(Address, i128), Failure>(e)
                &&& final(out)@ == old(out)@
            },
        },
{
    let token_out = if *token_in == market.long_token {
        market.short_token
    } else if *token_in == market.short_token {
        market.long_token
    } else {
        return Err(Failure::Swap(SwapError::InvalidTokenIn));
    };
    prices.get_mid_price(token_in)?;
    let price_out: i128 = prices.get_mid_price(&token_out)?;
    if q.amount_out < 0 {
        return Err(Failure::Swap(SwapError::NegativeOutput));
    }
    if q.amount_out == 0 {
        assert(out@ + Seq::<Action>::empty() =~= out@);
        return Ok((token_out, 0));
    }
    impact_pools::apply_swap_impact_value(ds, market, &token_out, price_out, q.impact_usd)?;
    market_utils::apply_delta_to_pool_amount(ds, market, token_in, amount_in)?;
    let taken: i128 = math::minus(0, q.amount_out)?;
    market_utils::apply_delta_to_pool_amount(ds, market, &token_out, taken)?;
    out.push(
        Action::WithdrawFromPool {
            market: market.market_token,
            token: token_out,
            receiver: *receiver,
            amount: q.amount_out,
        },
    );
    Ok((token_out, q.amount_out))
}

/// Swaps a token in one market.  `q` is what the pricing module gives for this
/// swap.
pub fn swap(
    ds: &mut DataStore,
    out: &mut Vec<Action>,
    prices: &PriceBoard,
    market: &MarketProps,
    token_in: &Address,
    amount_in: i128,
    receiver: &Address,
    q: &SwapQuote,
) -> (r: Result<(Address, i128), Failure>)
    ensures
        match hop(old(ds)@, prices@, *market, *token_in, amount_in, *receiver, *q) {
            Ok(x) => {
                &&& r == Ok::<(Address, i128), Failure>((x.token_out, x.amount_out))
                &&& final(ds)@ == x.store
                &&& final(out)@ == old(out)@ + x.actions
            },
            Err(e) => {
                &&& r == Err::<(Address, i128), Failure>(e)
                &&& final(ds)@ == old(ds)@
                &&& final(out)@ == old(out)@
            },
        },
{
    let mut work = ds.duplicate();
    let result = hop_in(&mut work, out, prices, market, token_in, amount_in, receiver, q)?;
    *ds = work;
    Ok(result)
}

// ---------------------------------------------------------------------------
// A path
// ---------------------------------------------------------------------------

/// The longest path that the store allows.
pub open spec fn max_path_length(s: Store) -> u128 {
    if s.u128_at(Key::MaxSwapPathLength) == 0 {
        DEFAULT_MAX_SWAP_PATH_LENGTH
    } else {
        s.u128_at(Key::MaxSwapPathLength)
    }
}

/// Whether a path is acceptable: not too long, and through no market twice.
pub open spec fn path_check(s: Store, path: Seq<Address>) -> Result<(), Failure> {
    if path.len() > max_path_length(s) {
        Err(Failure::Swap(SwapError::PathTooLong))
    } else if !path.no_duplicates() {
        Err(Failure::Swap(SwapError::DuplicateMarket))
    } else {
        Ok(())
    }
}

/// Whether a path leads through no market twice.
fn has_no_duplicates(path: &Vec<Address>) -> (r: bool)
    ensures
        r == path@.no_duplicates(),
{
    let mut i: usize = 0;
    while i < path.len()
        invariant
            i <= path.len(),
            path@.take(i as int).no_duplicates(),
        decreases path.len() - i,
    {
        let mut j: usize = 0;
        while j < i
            invariant
                j <= i < path.len(),
                forall|k: int| 0 <= k < j ==> path@[k] != path@[i as int],
            decreases i - j,
        {
            if path[j] == path[i] {
                assert(path@[j as int] == path@[i as int]);
                return false;
            }
            j = j + 1;
        }
        proof {
            let before = path@.take(i as int);
            let after = path@.take(i + 1);
            assert forall|a: int, b: int|
                0 <= a < after.len() && 0 <= b < after.len() && a != b implies after[a]
                != after[b] by {
                if a < i && b < i {
                    assert(before[a] != before[b]);
                }
            }
        }
        i = i + 1;
    }
    assert(path@.take(i as int) =~= path@);
    true
}

/// Checks a path.
pub fn validate_swap_path(ds: &DataStore, path: &Vec<Address>) -> (r: Result<(), Failure>)
    ensures
        r == path_check(ds@, path@),
{
    let configured: u128 = ds.get_u128(&Key::MaxSwapPathLength);
    let longest: u128 = if configured == 0 {
        DEFAULT_MAX_SWAP_PATH_LENGTH
    } else {
        configured
    };
    if path.len() as u128 > longest {
        Err(Failure::Swap(SwapError::PathTooLong))
    } else if !has_no_duplicates(path) {
        Err(Failure::Swap(SwapError::DuplicateMarket))
    } else {
        Ok(())
    }
}

/// The swap with actions put before its own.
pub open spec fn after_actions(before: Seq<Action>, r: Result<Swap, Failure>) -> Result<
    Swap,
    Failure,
> {
    match r {
        Ok(x) => Ok(Swap { actions: before + x.actions, ..x }),
        Err(e) => Err(e),
    }
}

/// Who receives the output of a hop: the next market where another hop follows,
/// the receiver at the end.
pub open spec fn hop_receiver(path: Seq<Address>, i: int, receiver: Address) -> Address {
    if i + 1 == path.len() {
        receiver
    } else {
        path[i + 1]
    }
}

/// What the rest of a path comes to, from hop `i` on: each hop feeds the next.
pub open spec fn path_from(
    s: Store,
    board: Map<Address, PriceProps>,
    path: Seq<Address>,
    quotes: Seq<SwapQuote>,
    receiver: Address,
    i: int,
    token: Address,
    amount: i128,
) -> Result<Swap, Failure>
    decreases path.len() - i,
{
    if i >= path.len() {
        Ok(Swap { token_out: token, amount_out: amount, store: s, actions: Seq::empty() })
    } else {
        match market_utils::registered_market(s, path[i]) {
            Err(e) => Err(e),
            Ok(market) => if i >= quotes.len() {
                Err(Failure::Swap(SwapError::MissingQuote))
            } else {
                match hop(
                    s,
                    board,
                    market,
                    token,
                    amount,
                    hop_receiver(path, i, receiver),
                    quotes[i],
                ) {
                    Err(e) => Err(e),
                    Ok(x) => after_actions(
                        x.actions,
                        path_from(
                            x.store,
                            board,
                            path,
                            quotes,
                            receiver,
                            i + 1,
                            x.token_out,
                            x.amount_out,
                        ),
                    ),
                }
            },
        }
    }
}

/// What `swap_with_path` returns and does, or why it is rejected.
pub open spec fn path_swap(
    s: Store,
    board: Map<Address, PriceProps>,
    path: Seq<Address>,
    quotes: Seq<SwapQuote>,
    receiver: Address,
    token_in: Address,
    amount_in: i128,
) -> Result<Swap, Failure> {
    match path_check(s, path) {
        Err(e) => Err(e),
        Ok(_) => path_from(s, board, path, quotes, receiver, 0, token_in, amount_in),
    }
}

proof fn lemma_actions_chain(a: Seq<Action>, b: Seq<Action>, r: Result<Swap, Failure>)
    ensures
        after_actions(a, after_actions(b, r)) == after_actions(a + b, r),
{
    if let Ok(x) = r {
        assert(a + (b + x.actions) =~= (a + b) + x.actions);
    }
}

/// Swaps along a path, in a store and a list of actions that the caller
/// discards where the swap is rejected.
pub(crate) fn swap_path_in(
    ds: &mut DataStore,
    out: &mut Vec<Action>,
    prices: &PriceBoard,
    token_in: &Address,
    amount_in: i128,
    path: &Vec<Address>,
    receiver: &Address,
    quotes: &Vec<SwapQuote>,
) -> (r: Result<(Address, i128), Failure>)
    ensures
        match path_swap(old(ds)@, prices@, path@, quotes@, *receiver, *token_in, amount_in) {
            Ok(x) => {
                &&& r == Ok::<(Address, i128), Failure>((x.token_out, x.amount_out))
                &&& final(ds)@ == x.store
                &&& final(out)@ == old(out)@ + x.actions
            },
            Err(e) => r == Err::<(Address, i128), Failure>(e),
        },
{
    validate_swap_path(ds, path)?;
    let mut token = *token_in;
    let mut amount: i128 = amount_in;
    let mut i: usize = 0;
    let ghost done = Seq::<Action>::empty();
    let ghost start = ds@;
    let ghost before = out@;
    let ghost whole = path_from(start, prices@, path@, quotes@, *receiver, 0, *token_in, amount_in);
    proof {
        if let Ok(x) = whole {
            assert(done + x.actions =~= x.actions);
        }
        assert(before + done =~= before);
    }
    while i < path.len()
        invariant
            i <= path.len(),
            whole == after_actions(
                done,
                path_from(
                    ds@,
                    prices@,
                    path@,
                    quotes@,
                    *receiver,
                    i as int,
                    token,
                    amount,
                ),
            ),
            path_check(start, path@) is Ok,
            start == old(ds)@,
            before == old(out)@,
            whole == path_from(start, prices@, path@, quotes@, *receiver, 0, *token_in, amount_in),
            out@ == before + done,
        decreases path.len() - i,
    {
        let market = market_utils::load_market_props(ds, &path[i])?;
        if i >= quotes.len() {
            return Err(Failure::Swap(SwapError::MissingQuote));
        }
        let hop_receiver = if i + 1 == path.len() {
            *receiver
        } else {
            path[i + 1]
        };
        let ghost x = hop(
            ds@,
            prices@,
            market,
            token,
            amount,
            hop_receiver,
            quotes@[i as int],
        );
        let (token_out, amount_out) = hop_in(
            ds,
            out,
            prices,
            &market,
            &token,
            amount,
            &hop_receiver,
            &quotes[i],
        )?;
        proof {
            let actions = x->Ok_0.actions;
            lemma_actions_chain(
                done,
                actions,
                path_from(
                    ds@,
                    prices@,
                    path@,
                    quotes@,
                    *receiver,
                    i + 1,
                    token_out,
                    amount_out,
                ),
            );
            assert((before + done) + actions =~= before + (done + actions));
            done = done + actions;
        }
        token = token_out;
        amount = amount_out;
        i = i + 1;
    }
    assert(done + Seq::<Action>::empty() =~= done);
    Ok((token, amount))
}

/// Swaps a token along a path of markets.  `quotes` holds what the pricing
/// module gives for each hop.
pub fn swap_with_path(
    ds: &mut DataStore,
    out: &mut Vec<Action>,
    prices: &PriceBoard,
    token_in: &Address,
    amount_in: i128,
    path: &Vec<Address>,
    receiver: &Address,
    quotes: &Vec<SwapQuote>,
) -> (r: Result<(Address, i128), Failure>)
    ensures
        match path_swap(old(ds)@, prices@, path@, quotes@, *receiver, *token_in, amount_in) {
            Ok(x) => {
                &&& r == Ok::<(Address, i128), Failure>((x.token_out, x.amount_out))
                &&& final(ds)@ == x.store
                &&& final(out)@ == old(out)@ + x.actions
            },
            Err(e) => {
                &&& r == Err::<(Address, i128), Failure>(e)
                &&& final(ds)@ == old(ds)@
                &&& final(out)@ == old(out)@
            },
        },
{
    let mut work = ds.duplicate();
    let mut actions: Vec<Action> = Vec::new();
    let ghost planned = path_swap(ds@, prices@, path@, quotes@, *receiver, *token_in, amount_in);
    let result = swap_path_in(
        &mut work,
        &mut actions,
        prices,
        token_in,
        amount_in,
        path,
        receiver,
        quotes,
    )?;
    assert(actions@ =~= planned->Ok_0.actions);
    out.append(&mut actions);
    *ds = work;
    Ok(result)
}

// ---------------------------------------------------------------------------
// Laws
// ---------------------------------------------------------------------------

/// A path that is accepted is not too long and leads through no market twice.
pub proof fn accepted_paths_are_short_and_simple(
    s: Store,
    board: Map<Address, PriceProps>,
    path: Seq<Address>,
    quotes: Seq<SwapQuote>,
    receiver: Address,
    token_in: Address,
    amount_in: i128,
)
    requires
        path_swap(s, board, path, quotes, receiver, token_in, amount_in) is Ok,
    ensures
        path.len() <= max_path_length(s),
        path.no_duplicates(),
{
}

/// A hop moves exactly what goes in and what comes out between the pools of its
/// market.
pub proof fn hop_moves_what_it_says(
    s: Store,
    board: Map<Address, PriceProps>,
    market: MarketProps,
    token_in: Address,
    amount_in: i128,
    receiver: Address,
    q: SwapQuote,
)
    requires
        market.long_token != market.short_token,
    ensures
        hop(s, board, market, token_in, amount_in, receiver, q) matches Ok(x) ==> x.amount_out != 0
            ==> {
            let pool_in = market_utils::pool_key(market, token_in);
            let pool_out = market_utils::pool_key(market, x.token_out);
            &&& x.store.u128_at(pool_in) == s.u128_at(pool_in) + amount_in
            &&& x.store.u128_at(pool_out) == s.u128_at(pool_out) - x.amount_out
            &&& x.token_out != token_in
        },
{
}

/// A hop books exactly its price impact in the impact pool of the token that
/// comes out: a charge grows the pool, a rebate is paid out of it and never below
/// zero.
pub proof fn hop_books_its_impact(
    s: Store,
    board: Map<Address, PriceProps>,
    market: MarketProps,
    token_in: Address,
    amount_in: i128,
    receiver: Address,
    q: SwapQuote,
)
    ensures
        hop(s, board, market, token_in, amount_in, receiver, q) matches Ok(x) ==> x.amount_out != 0
            ==> {
            let key = impact_pools::swap_impact_key(market, x.token_out);
            let price = types::mid_price_of(board, x.token_out)->Ok_0;
            let before = s.u128_at(key);
            let after = x.store.u128_at(key);
            &&& price > 0 && q.impact_usd != 0 ==> after == impact_pools::pool_after(
                before as int,
                q.impact_usd as int,
                price as int,
            )
            &&& price > 0 && q.impact_usd < 0 ==> after > before
            &&& q.impact_usd >= 0 ==> after <= before
            &&& q.impact_usd == 0 || price <= 0 ==> after == before
        },
{
    if let Ok(x) = hop(s, board, market, token_in, amount_in, receiver, q) {
        let key = impact_pools::swap_impact_key(market, x.token_out);
        let price = types::mid_price_of(board, x.token_out)->Ok_0;
        if price > 0 {
            if q.impact_usd < 0 {
                impact_pools::charges_grow_the_pool(s, key, q.impact_usd as int, price as int);
            } else {
                impact_pools::rebates_are_capped_at_the_pool(
                    s,
                    key,
                    q.impact_usd as int,
                    price as int,
                );
            }
        }
    }
}

/// A path without hops hands its input back.
pub proof fn empty_path_changes_nothing(
    s: Store,
    board: Map<Address, PriceProps>,
    quotes: Seq<SwapQuote>,
    receiver: Address,
    token_in: Address,
    amount_in: i128,
)
    ensures
        path_swap(s, board, Seq::empty(), quotes, receiver, token_in, amount_in) == Ok::<
            Swap,
            Failure,
        >(
            Swap {
                token_out: token_in,
                amount_out: amount_in,
                store: s,
                actions: Seq::empty(),
            },
        ),
{
}

proof fn lemma_path_pays_the_receiver(
    s: Store,
    board: Map<Address, PriceProps>,
    path: Seq<Address>,
    quotes: Seq<SwapQuote>,
    receiver: Address,
    i: int,
    token: Address,
    amount: i128,
)
    requires
        0 <= i < path.len(),
    ensures
        path_from(s, board, path, quotes, receiver, i, token, amount) matches Ok(x)
            ==> x.amount_out != 0 ==> x.actions.len() > 0 && x.actions.last()
            == (Action::WithdrawFromPool {
            market: path.last(),
            token: x.token_out,
            receiver,
            amount: x.amount_out,
        }),
    decreases path.len() - i,
{
    if let Ok(market) = market_utils::registered_market(s, path[i]) {
        if i < quotes.len() {
            if let Ok(x) = hop(
                s,
                board,
                market,
                token,
                amount,
                hop_receiver(path, i, receiver),
                quotes[i],
            ) {
                if i + 1 < path.len() {
                    lemma_path_pays_the_receiver(
                        x.store,
                        board,
                        path,
                        quotes,
                        receiver,
                        i + 1,
                        x.token_out,
                        x.amount_out,
                    );
                } else {
                    assert(path_from(
                        x.store,
                        board,
                        path,
                        quotes,
                        receiver,
                        i + 1,
                        x.token_out,
                        x.amount_out,
                    ) is Ok);
                }
            }
        }
    }
}

/// What comes out of the last hop goes to the receiver, and it is the last
/// thing that a swap along a path asks for.
pub proof fn path_pays_the_receiver(
    s: Store,
    board: Map<Address, PriceProps>,
    path: Seq<Address>,
    quotes: Seq<SwapQuote>,
    receiver: Address,
    token_in: Address,
    amount_in: i128,
)
    requires
        path.len() > 0,
    ensures
        path_swap(s, board, path, quotes, receiver, token_in, amount_in) matches Ok(x)
            ==> x.amount_out != 0 ==> x.actions.len() > 0 && x.actions.last()
            == (Action::WithdrawFromPool {
            market: path.last(),
            token: x.token_out,
            receiver,
            amount: x.amount_out,
        }),
{
    lemma_path_pays_the_receiver(s, board, path, quotes, receiver, 0, token_in, amount_in);
}

/// A hop that another follows pays its output to the next market, and that is
/// exactly what the next hop takes in.
pub proof fn hops_feed_each_other(
    s: Store,
    board: Map<Address, PriceProps>,
    path: Seq<Address>,
    quotes: Seq<SwapQuote>,
    receiver: Address,
    i: int,
    token: Address,
    amount: i128,
)
    requires
        0 <= i,
        i + 1 < path.len(),
        i + 1 < quotes.len(),
    ensures
        path_from(s, board, path, quotes, receiver, i, token, amount) matches Ok(x) ==> {
            let market = market_utils::registered_market(s, path[i])->Ok_0;
            let first = hop(s, board, market, token, amount, path[i + 1], quotes[i]);
            &&& first is Ok
            &&& x == after_actions(
                first->Ok_0.actions,
                path_from(
                    first->Ok_0.store,
                    board,
                    path,
                    quotes,
                    receiver,
                    i + 1,
                    first->Ok_0.token_out,
                    first->Ok_0.amount_out,
                ),
            )->Ok_0
            &&& quotes[i].amount_out != 0 ==> first->Ok_0.actions == seq![
                Action::WithdrawFromPool {
                    market: path[i],
                    token: first->Ok_0.token_out,
                    receiver: path[i + 1],
                    amount: first->Ok_0.amount_out,
                },
            ]
        },
{
}

} // verus!
