//! NFT auctions: English (ascending bids held in escrow, the outbid bidder
//! refunded, late bids extending the end), Dutch (a price falling linearly
//! from the starting to the reserve price, bought outright) and sealed-bid.
use std::collections::HashMap;
use vstd::prelude::*;

use crate::common::lemma_floor_div;
use crate::token::TokenTransfer;

verus! {

broadcast use vstd::std_specs::hash::group_hash_axioms;

/// An account or contract address, identified by a number.
pub type AccountId = u64;

/// A bid this close to the end (in seconds) pushes the end back to this far
/// after the bid.
pub const ANTI_SNIPING_WINDOW: u64 = 300;

#[derive(Clone, Copy, Debug, PartialEq, Eq, Structural)]
pub enum AuctionError {
    EndTimeMustBeAfterStartTime,
    AuctionNotFound,
    EnglishOnly,
    AuctionAlreadySettled,
    AuctionNotStarted,
    AuctionEnded,
    BidTooLow,
    DutchOnly,
    CurrentPriceHigherThanMax,
    AuctionStillOngoing,
    SealedBidOnly,
    BiddingPeriodEnded,
    RevealPeriodNotStarted,
    RevealPeriodEnded,
    BidAlreadyRevealed,
    InvalidBidHash,
    BidsNotRevealed,
}

#[derive(Clone, Copy, Debug, PartialEq, Eq, Structural)]
pub enum AuctionType {
    English,
    Dutch,
    SealedBid,
}

#[derive(Clone, Copy, Debug, PartialEq, Eq, Structural)]
pub struct AuctionSettings {
    pub start_time: u64,
    pub end_time: u64,
    pub starting_price: i128,
    pub reserve_price: i128,
    pub buy_now_price: i128,
    pub min_bid_increment: i128,
}

#[derive(Clone, Copy, Debug, PartialEq, Eq, Structural)]
pub struct AuctionInfo {
    pub auction_id: u64,
    pub seller: AccountId,
    pub nft_contract: AccountId,
    pub nft_id: u64,
    pub payment_token: AccountId,
    pub auction_type: AuctionType,
    pub settings: AuctionSettings,
    pub highest_bidder: Option<AccountId>,
    pub current_bid: i128,
    pub settled: bool,
}

#[derive(Clone, Copy, Debug, PartialEq, Eq, Structural)]
pub struct Bid {
    pub bidder: AccountId,
    pub amount: i128,
    pub timestamp: u64,
}

/// A call asking NFT contract `nft_contract` to move token `nft_id` from
/// `from` to `to`.
#[derive(Clone, Copy, Debug, PartialEq, Eq, Structural)]
pub struct NftTransfer {
    pub nft_contract: AccountId,
    pub from: AccountId,
    pub to: AccountId,
    pub nft_id: u64,
}

/// The contract's storage.
pub struct AuctionContract {
    pub auction_count: Option<u64>,
    pub auctions: HashMap<u64, AuctionInfo>,
}

/// Division rounding toward zero, as integer division does.
pub open spec fn tdiv(a: int, b: int) -> int {
    if a >= 0 {
        a / b
    } else {
        -((-a) / b)
    }
}

/// The Dutch price at `now`: the starting price up to the start, the
/// reserve price from the end on, and in between the starting price less
/// the elapsed share of the drop (rounded toward zero).
pub open spec fn spec_dutch_price(s: AuctionSettings, now: u64) -> int {
    if now <= s.start_time {
        s.starting_price as int
    } else if now >= s.end_time {
        s.reserve_price as int
    } else {
        s.starting_price - tdiv(
            (s.starting_price - s.reserve_price) * (now - s.start_time),
            s.end_time - s.start_time,
        )
    }
}

/// The Dutch price arithmetic stays within `i128`.
pub open spec fn dutch_fits(s: AuctionSettings, now: u64) -> bool {
    s.start_time < now < s.end_time ==> {
        let range = s.starting_price - s.reserve_price;
        &&& i128::MIN <= range <= i128::MAX
        &&& i128::MIN <= range * (now - s.start_time) <= i128::MAX
        &&& i128::MIN <= spec_dutch_price(s, now) <= i128::MAX
    }
}

impl AuctionContract {
    pub open spec fn count(self) -> u64 {
        match self.auction_count {
            Some(n) => n,
            None => 0,
        }
    }

    pub fn new() -> (r: Self)
        ensures
            r.auction_count is None,
            r.auctions@ == Map::<u64, AuctionInfo>::empty(),
    {
        AuctionContract { auction_count: None, auctions: HashMap::new() }
    }

    /// Sets the auction counter to 0 unless it is set.
    pub fn init(&mut self)
        ensures
            *final(self) == (Self { auction_count: Some(old(self).count()), ..*old(self) }),
    {
        if self.auction_count.is_none() {
            self.auction_count = Some(0);
        }
    }

    /// Opens an auction under the next id (the end must follow the start).
    /// Returns the id.
    pub fn create_auction(
        &mut self,
        seller: AccountId,
        nft_contract: AccountId,
        nft_id: u64,
        payment_token: AccountId,
        auction_type: AuctionType,
        settings: AuctionSettings,
    ) -> (r: Result<u64, AuctionError>)
        requires
            settings.end_time > settings.start_time ==> old(self).count() < u64::MAX,
        ensures
            r == (if settings.end_time <= settings.start_time {
                Err(AuctionError::EndTimeMustBeAfterStartTime)
            } else {
                Ok((old(self).count() + 1) as u64)
            }),
            r.is_err() ==> *final(self) == *old(self),
            r matches Ok(id) ==> final(self).auction_count == Some(id) && final(self).auctions@
                == old(self).auctions@.insert(
                id,
                AuctionInfo {
                    auction_id: id,
                    seller,
                    nft_contract,
                    nft_id,
                    payment_token,
                    auction_type,
                    settings,
                    highest_bidder: None,
                    current_bid: 0,
                    settled: false,
                },
            ),
    {
        if settings.end_time <= settings.start_time {
            return Err(AuctionError::EndTimeMustBeAfterStartTime);
        }
        let id: u64 = match self.auction_count {
            Some(n) => n,
            None => 0,
        } + 1;
        self.auction_count = Some(id);
        self.auctions.insert(
            id,
            AuctionInfo {
                auction_id: id,
                seller,
                nft_contract,
                nft_id,
                payment_token,
                auction_type,
                settings,
                highest_bidder: None,
                current_bid: 0,
                settled: false,
            },
        );
        Ok(id)
    }

    /// The checks of a bid, in the contract's order.
    pub open spec fn spec_bid_check(self, now: u64, id: u64, amount: i128) -> Result<(), AuctionError> {
        if !self.auctions@.contains_key(id) {
            Err(AuctionError::AuctionNotFound)
        } else {
            let a = self.auctions@[id];
            if a.auction_type != AuctionType::English {
                Err(AuctionError::EnglishOnly)
            } else if a.settled {
                Err(AuctionError::AuctionAlreadySettled)
            } else if now < a.settings.start_time {
                Err(AuctionError::AuctionNotStarted)
            } else if now > a.settings.end_time {
                Err(AuctionError::AuctionEnded)
            } else if a.highest_bidder is Some && amount < a.current_bid
                + a.settings.min_bid_increment {
                Err(AuctionError::BidTooLow)
            } else if a.highest_bidder is None && amount < a.settings.starting_price {
                Err(AuctionError::BidTooLow)
            } else {
                Ok(())
            }
        }
    }

    /// The end time after a bid at `now`: pushed to `now + 300` when fewer
    /// than 300 seconds remained.
    pub open spec fn extended_end(end_time: u64, now: u64) -> u64 {
        if end_time - now < ANTI_SNIPING_WINDOW {
            (now + ANTI_SNIPING_WINDOW) as u64
        } else {
            end_time
        }
    }

    /// The storage after a bid: the auction's bidder and bid are the new
    /// ones and its end is extended as `extended_end` says.
    pub open spec fn bid_placed(self, new: Self, now: u64, bidder: AccountId, id: u64, amount: i128) -> bool {
        let a = self.auctions@[id];
        &&& new.auctions@ == self.auctions@.insert(
            id,
            AuctionInfo {
                settings: AuctionSettings {
                    end_time: Self::extended_end(a.settings.end_time, now),
                    ..a.settings
                },
                highest_bidder: Some(bidder),
                current_bid: amount,
                ..a
            },
        )
        &&& new.auction_count == self.auction_count
    }

    /// Bids `bid_amount` on an English auction that runs at `now`: a first
    /// bid must reach the starting price, a later one the current bid plus
    /// the increment, and the outbid bidder gets the current bid back. The
    /// bid is held by `contract`; a bid in the last 300 seconds extends the
    /// end to 300 seconds after it. Returns the refund (if any) and the
    /// payment to perform.
    pub fn place_bid(&mut self, now: u64, contract: AccountId, bidder: AccountId, auction_id: u64, bid_amount: i128) -> (r:
        Result<(Option<TokenTransfer>, TokenTransfer), AuctionError>)
        requires
            old(self).auctions@.contains_key(auction_id) && old(
                self,
            ).auctions@[auction_id].highest_bidder is Some ==> i128::MIN
                <= old(self).auctions@[auction_id].current_bid + old(
                self,
            ).auctions@[auction_id].settings.min_bid_increment <= i128::MAX,
            old(self).spec_bid_check(now, auction_id, bid_amount) is Ok ==> now + ANTI_SNIPING_WINDOW
                <= u64::MAX,
        ensures
            old(self).spec_bid_check(now, auction_id, bid_amount) matches Err(e) ==> r == Err::<
                (Option<TokenTransfer>, TokenTransfer),
                AuctionError,
            >(e) && *final(self) == *old(self),
            old(self).spec_bid_check(now, auction_id, bid_amount) is Ok ==> {
                let a = old(self).auctions@[auction_id];
                &&& r == Ok::<(Option<TokenTransfer>, TokenTransfer), AuctionError>(
                    (
                        match a.highest_bidder {
                            Some(prev) => Some(
                                TokenTransfer {
                                    token: a.payment_token,
                                    from: contract,
                                    to: prev,
                                    amount: a.current_bid,
                                },
                            ),
                            None => None,
                        },
                        TokenTransfer {
                            token: a.payment_token,
                            from: bidder,
                            to: contract,
                            amount: bid_amount,
                        },
                    ),
                )
                &&& old(self).bid_placed(*final(self), now, bidder, auction_id, bid_amount)
            },
    {
        let mut auction = match self.auctions.get(&auction_id) {
            Some(a) => *a,
            None => return Err(AuctionError::AuctionNotFound),
        };
        if auction.auction_type != AuctionType::English {
            return Err(AuctionError::EnglishOnly);
        }
        if auction.settled {
            return Err(AuctionError::AuctionAlreadySettled);
        }
        if now < auction.settings.start_time {
            return Err(AuctionError::AuctionNotStarted);
        }
        if now > auction.settings.end_time {
            return Err(AuctionError::AuctionEnded);
        }
        let refund = match auction.highest_bidder {
            Some(previous_bidder) => {
                if bid_amount < auction.current_bid + auction.settings.min_bid_increment {
                    return Err(AuctionError::BidTooLow);
                }
                Some(
                    TokenTransfer {
                        token: auction.payment_token,
                        from: contract,
                        to: previous_bidder,
                        amount: auction.current_bid,
                    },
                )
            },
            None => {
                if bid_amount < auction.settings.starting_price {
                    return Err(AuctionError::BidTooLow);
                }
                None
            },
        };
        let payment = TokenTransfer {
            token: auction.payment_token,
            from: bidder,
            to: contract,
            amount: bid_amount,
        };
        let time_remaining = auction.settings.end_time - now;
        if time_remaining < ANTI_SNIPING_WINDOW {
            auction.settings.end_time = now + ANTI_SNIPING_WINDOW;
        }
        auction.highest_bidder = Some(bidder);
        auction.current_bid = bid_amount;
        self.auctions.insert(auction_id, auction);
        Ok((refund, payment))
    }

    /// The Dutch price at `current_time` (see `spec_dutch_price`).
    pub fn calculate_dutch_price(settings: &AuctionSettings, current_time: u64) -> (r: i128)
        requires
            dutch_fits(*settings, current_time),
        ensures
            r == spec_dutch_price(*settings, current_time),
    {
        if current_time <= settings.start_time {
            return settings.starting_price;
        }
        if current_time >= settings.end_time {
            return settings.reserve_price;
        }
        let total_duration = settings.end_time - settings.start_time;
        let elapsed = current_time - settings.start_time;
        let price_drop_range = settings.starting_price - settings.reserve_price;
        let drop_amount = (price_drop_range * (elapsed as i128)) / (total_duration as i128);
        settings.starting_price - drop_amount
    }

    /// The checks of a Dutch purchase, in the contract's order.
    pub open spec fn spec_buy_check(self, now: u64, id: u64, max_amount: i128) -> Result<(), AuctionError> {
        if !self.auctions@.contains_key(id) {
            Err(AuctionError::AuctionNotFound)
        } else {
            let a = self.auctions@[id];
            if a.auction_type != AuctionType::Dutch {
                Err(AuctionError::DutchOnly)
            } else if a.settled {
                Err(AuctionError::AuctionAlreadySettled)
            } else if spec_dutch_price(a.settings, now) > max_amount {
                Err(AuctionError::CurrentPriceHigherThanMax)
            } else {
                Ok(())
            }
        }
    }

    /// Buys a Dutch auction at its price at `now`, if that is at most
    /// `max_amount`; the auction is settled to the buyer at once. Returns
    /// the payment to perform.
    pub fn buy_dutch(&mut self, now: u64, contract: AccountId, buyer: AccountId, auction_id: u64, max_amount: i128) -> (r:
        Result<TokenTransfer, AuctionError>)
        requires
            old(self).auctions@.contains_key(auction_id) && old(self).auctions@[auction_id].auction_type
                == AuctionType::Dutch && !old(self).auctions@[auction_id].settled ==> dutch_fits(
                old(self).auctions@[auction_id].settings,
                now,
            ),
        ensures
            old(self).spec_buy_check(now, auction_id, max_amount) matches Err(e) ==> r == Err::<
                TokenTransfer,
                AuctionError,
            >(e) && *final(self) == *old(self),
            old(self).spec_buy_check(now, auction_id, max_amount) is Ok ==> {
                let a = old(self).auctions@[auction_id];
                let price = spec_dutch_price(a.settings, now) as i128;
                &&& r == Ok::<TokenTransfer, AuctionError>(
                    TokenTransfer { token: a.payment_token, from: buyer, to: contract, amount: price },
                )
                &&& final(self).auctions@ == old(self).auctions@.insert(
                    auction_id,
                    AuctionInfo {
                        highest_bidder: Some(buyer),
                        current_bid: price,
                        settled: true,
                        ..a
                    },
                )
                &&& final(self).auction_count == old(self).auction_count
            },
    {
        let mut auction = match self.auctions.get(&auction_id) {
            Some(a) => *a,
            None => return Err(AuctionError::AuctionNotFound),
        };
        if auction.auction_type != AuctionType::Dutch {
            return Err(AuctionError::DutchOnly);
        }
        if auction.settled {
            return Err(AuctionError::AuctionAlreadySettled);
        }
        let current_price = Self::calculate_dutch_price(&auction.settings, now);
        if current_price > max_amount {
            return Err(AuctionError::CurrentPriceHigherThanMax);
        }
        auction.highest_bidder = Some(buyer);
        auction.current_bid = current_price;
        auction.settled = true;
        self.auctions.insert(auction_id, auction);
        Ok(
            TokenTransfer {
                token: auction.payment_token,
                from: buyer,
                to: contract,
                amount: current_price,
            },
        )
    }

    /// The checks of a settlement, in the contract's order.
    pub open spec fn spec_settle_check(self, now: u64, id: u64) -> Result<(), AuctionError> {
        if !self.auctions@.contains_key(id) {
            Err(AuctionError::AuctionNotFound)
        } else {
            let a = self.auctions@[id];
            if a.settled {
                Err(AuctionError::AuctionAlreadySettled)
            } else if a.auction_type == AuctionType::English && now < a.settings.end_time {
                Err(AuctionError::AuctionStillOngoing)
            } else {
                Ok(())
            }
        }
    }

    /// Settles an auction (an English one only once it has ended): with a
    /// winner, the seller is paid the winning bid and the NFT contract is
    /// asked to move the NFT from the seller to the winner. Returns the
    /// payment and the NFT transfer to perform, if any.
    pub fn settle_auction(&mut self, now: u64, contract: AccountId, auction_id: u64) -> (r: Result<
        Option<(TokenTransfer, NftTransfer)>,
        AuctionError,
    >)
        ensures
            old(self).spec_settle_check(now, auction_id) matches Err(e) ==> r == Err::<
                Option<(TokenTransfer, NftTransfer)>,
                AuctionError,
            >(e) && *final(self) == *old(self),
            old(self).spec_settle_check(now, auction_id) is Ok ==> {
                let a = old(self).auctions@[auction_id];
                &&& r == Ok::<Option<(TokenTransfer, NftTransfer)>, AuctionError>(
                    match a.highest_bidder {
                        Some(w) => Some(
                            (
                                TokenTransfer {
                                    token: a.payment_token,
                                    from: contract,
                                    to: a.seller,
                                    amount: a.current_bid,
                                },
                                NftTransfer {
                                    nft_contract: a.nft_contract,
                                    from: a.seller,
                                    to: w,
                                    nft_id: a.nft_id,
                                },
                            ),
                        ),
                        None => None,
                    },
                )
                &&& final(self).auctions@ == old(self).auctions@.insert(
                    auction_id,
                    AuctionInfo { settled: true, ..a },
                )
                &&& final(self).auction_count == old(self).auction_count
            },
    {
        let mut auction = match self.auctions.get(&auction_id) {
            Some(a) => *a,
            None => return Err(AuctionError::AuctionNotFound),
        };
        if auction.settled {
            return Err(AuctionError::AuctionAlreadySettled);
        }
        if auction.auction_type == AuctionType::English {
            if now < auction.settings.end_time {
                return Err(AuctionError::AuctionStillOngoing);
            }
        }
        let effects = match auction.highest_bidder {
            Some(winner) => Some(
                (
                    TokenTransfer {
                        token: auction.payment_token,
                        from: contract,
                        to: auction.seller,
                        amount: auction.current_bid,
                    },
                    NftTransfer {
                        nft_contract: auction.nft_contract,
                        from: auction.seller,
                        to: winner,
                        nft_id: auction.nft_id,
                    },
                ),
            ),
            None => None,
        };
        auction.settled = true;
        self.auctions.insert(auction_id, auction);
        Ok(effects)
    }

    pub fn get_auction(&self, auction_id: u64) -> (r: Option<AuctionInfo>)
        ensures
            r == (if self.auctions@.contains_key(auction_id) {
                Some(self.auctions@[auction_id])
            } else {
                None
            }),
    {
        match self.auctions.get(&auction_id) {
            Some(a) => Some(*a),
            None => None,
        }
    }
}

/// With the reserve at most the starting price and a proper period, the
/// Dutch price never leaves [reserve, starting] and never rises over time.
pub proof fn lemma_dutch_price_falls(s: AuctionSettings, t1: u64, t2: u64)
    requires
        s.reserve_price <= s.starting_price,
        s.start_time < s.end_time,
        t1 <= t2,
    ensures
        s.reserve_price <= spec_dutch_price(s, t2) <= spec_dutch_price(s, t1) <= s.starting_price,
{
    let range: int = s.starting_price - s.reserve_price;
    let total: int = s.end_time - s.start_time;
    assert forall|t: u64| s.start_time < t < s.end_time implies 0 <= #[trigger] tdiv(
        range * (t - s.start_time),
        total,
    ) <= range by {
        let e: int = t - s.start_time;
        assert(0 <= range * e <= range * total) by (nonlinear_arith)
            requires
                range >= 0,
                0 < e < total,
        ;
        assert((range * e) / total <= range) by (nonlinear_arith)
            requires
                0 <= range * e <= range * total,
                total > 0,
        ;
        assert(0 <= (range * e) / total) by (nonlinear_arith)
            requires
                0 <= range * e,
                total > 0,
        ;
    }
    if s.start_time < t1 && t2 < s.end_time {
        let e1: int = t1 - s.start_time;
        let e2: int = t2 - s.start_time;
        assert(range * e1 <= range * e2) by (nonlinear_arith)
            requires
                range >= 0,
                e1 <= e2,
        ;
        assert(0 <= range * e1) by (nonlinear_arith)
            requires
                range >= 0,
                e1 >= 0,
        ;
        assert((range * e1) / total <= (range * e2) / total) by (nonlinear_arith)
            requires
                0 <= range * e1 <= range * e2,
                total > 0,
        ;
    }
    if s.start_time < t1 < s.end_time {
        assert(0 <= tdiv(range * (t1 - s.start_time), total) <= range);
    }
    if s.start_time < t2 < s.end_time {
        assert(0 <= tdiv(range * (t2 - s.start_time), total) <= range);
    }
}

/// After a successful bid at `now`, the auction runs at least 300 more
/// seconds and never ends earlier than before; the bid exceeds the previous
/// one by at least the increment (or reaches the starting price).
pub proof fn lemma_bid_extends_and_raises(
    s0: AuctionContract,
    s1: AuctionContract,
    now: u64,
    bidder: AccountId,
    id: u64,
    amount: i128,
)
    requires
        s0.spec_bid_check(now, id, amount) is Ok,
        now + ANTI_SNIPING_WINDOW <= u64::MAX,
        s0.bid_placed(s1, now, bidder, id, amount),
    ensures
        s1.auctions@[id].settings.end_time >= now + ANTI_SNIPING_WINDOW,
        s1.auctions@[id].settings.end_time >= s0.auctions@[id].settings.end_time,
        s0.auctions@[id].highest_bidder is Some ==> s1.auctions@[id].current_bid
            >= s0.auctions@[id].current_bid + s0.auctions@[id].settings.min_bid_increment,
        s0.auctions@[id].highest_bidder is None ==> s1.auctions@[id].current_bid
            >= s0.auctions@[id].settings.starting_price,
{
}

/// Between the start and the end, the Dutch price has dropped by the
/// elapsed share of the drop from the starting to the reserve price: with
/// `d` what it has dropped, `d` whole periods fit in `drop * elapsed` and
/// `d + 1` do not.
pub proof fn lemma_dutch_price_share(s: AuctionSettings, now: u64)
    requires
        s.reserve_price <= s.starting_price,
        s.start_time < now < s.end_time,
    ensures
        0 <= (s.starting_price - spec_dutch_price(s, now)) * (s.end_time - s.start_time),
        (s.starting_price - spec_dutch_price(s, now)) * (s.end_time - s.start_time) <= (s.starting_price
            - s.reserve_price) * (now - s.start_time),
        (s.starting_price - s.reserve_price) * (now - s.start_time) < (s.starting_price - spec_dutch_price(
            s,
            now,
        ) + 1) * (s.end_time - s.start_time),
{
    let x: int = (s.starting_price - s.reserve_price) * (now - s.start_time);
    assert(x >= 0) by (nonlinear_arith)
        requires
            s.starting_price - s.reserve_price >= 0,
            now - s.start_time > 0,
            x == (s.starting_price - s.reserve_price) * (now - s.start_time),
    ;
    lemma_floor_div(x, s.end_time - s.start_time);
}

/// Halfway through the period the Dutch price is the average of the
/// starting and the reserve price (rounded up by at most a half).
pub proof fn lemma_dutch_midpoint(s: AuctionSettings, now: u64)
    requires
        s.reserve_price <= s.starting_price,
        s.start_time < s.end_time,
        (s.end_time - s.start_time) % 2 == 0,
        now == s.start_time + (s.end_time - s.start_time) / 2,
    ensures
        s.starting_price + s.reserve_price <= 2 * spec_dutch_price(s, now) <= s.starting_price
            + s.reserve_price + 1,
{
    let h: int = (s.end_time - s.start_time) / 2;
    assert(h > 0);
    lemma_dutch_price_share(s, now);
    let d: int = s.starting_price - spec_dutch_price(s, now);
    let drop: int = s.starting_price - s.reserve_price;
    assert(2 * d <= drop < 2 * d + 2) by (nonlinear_arith)
        requires
            h > 0,
            d * (2 * h) <= drop * h,
            drop * h < (d + 1) * (2 * h),
    ;
}

/// The Dutch price depends only on the time elapsed within the period:
/// moving the whole period and the moment by the same amount leaves it
/// unchanged.
pub proof fn lemma_dutch_shift(s: AuctionSettings, now: u64, k: u64)
    requires
        s.start_time < now < s.end_time,
        s.end_time + k <= u64::MAX,
    ensures
        spec_dutch_price(
            (AuctionSettings { start_time: (s.start_time + k) as u64, end_time: (s.end_time + k) as u64, ..s }),
            (now + k) as u64,
        ) == spec_dutch_price(s, now),
{
}

} // verus!
