use puzzle_contracts::auction::{AuctionContract, AuctionError, AuctionSettings, AuctionType};

const SELLER: u64 = 1;
const NFT: u64 = 2;
const TOKEN: u64 = 3;
const ALICE: u64 = 4;
const BOB: u64 = 5;
const HOUSE: u64 = 99;

fn settings(start: u64, end: u64, starting: i128, reserve: i128) -> AuctionSettings {
    AuctionSettings {
        start_time: start,
        end_time: end,
        starting_price: starting,
        reserve_price: reserve,
        buy_now_price: 0,
        min_bid_increment: 10,
    }
}

#[test]
fn dutch_price_falls_linearly() {
    let s = settings(0, 1000, 1000, 100);
    assert_eq!(AuctionContract::calculate_dutch_price(&s, 0), 1000);
    assert_eq!(AuctionContract::calculate_dutch_price(&s, 500), 550);
    assert_eq!(AuctionContract::calculate_dutch_price(&s, 999), 101);
    assert_eq!(AuctionContract::calculate_dutch_price(&s, 1000), 100);
    assert_eq!(AuctionContract::calculate_dutch_price(&s, 5000), 100);
}

#[test]
fn english_auction_bids_refunds_and_settles() {
    let mut a = AuctionContract::new();
    let id = a.create_auction(SELLER, NFT, 7, TOKEN, AuctionType::English, settings(100, 10_000, 50, 0)).unwrap();
    assert_eq!(id, 1);
    assert_eq!(a.place_bid(50, HOUSE, ALICE, id, 60), Err(AuctionError::AuctionNotStarted));
    assert_eq!(a.place_bid(200, HOUSE, ALICE, id, 40), Err(AuctionError::BidTooLow));
    let (refund, pay) = a.place_bid(200, HOUSE, ALICE, id, 60).unwrap();
    assert_eq!(refund, None);
    assert_eq!((pay.from, pay.to, pay.amount), (ALICE, HOUSE, 60));
    assert_eq!(a.place_bid(300, HOUSE, BOB, id, 65), Err(AuctionError::BidTooLow));
    let (refund, _) = a.place_bid(300, HOUSE, BOB, id, 70).unwrap();
    let refund = refund.unwrap();
    assert_eq!((refund.from, refund.to, refund.amount), (HOUSE, ALICE, 60));
    assert_eq!(a.settle_auction(400, HOUSE, id), Err(AuctionError::AuctionStillOngoing));
    let (payment, nft) = a.settle_auction(10_000, HOUSE, id).unwrap().unwrap();
    assert_eq!((payment.from, payment.to, payment.amount), (HOUSE, SELLER, 70));
    assert_eq!((nft.from, nft.to, nft.nft_id), (SELLER, BOB, 7));
    assert!(a.get_auction(id).unwrap().settled);
    assert_eq!(a.settle_auction(10_001, HOUSE, id), Err(AuctionError::AuctionAlreadySettled));
}

#[test]
fn late_bid_extends_the_end() {
    let mut a = AuctionContract::new();
    let id = a.create_auction(SELLER, NFT, 1, TOKEN, AuctionType::English, settings(0, 1000, 10, 0)).unwrap();
    a.place_bid(900, HOUSE, ALICE, id, 10).unwrap();
    assert_eq!(a.get_auction(id).unwrap().settings.end_time, 1200);
    a.place_bid(901, HOUSE, BOB, id, 20).unwrap();
    assert_eq!(a.get_auction(id).unwrap().settings.end_time, 1201);
}

#[test]
fn dutch_auction_is_bought_at_the_current_price() {
    let mut a = AuctionContract::new();
    let id = a.create_auction(SELLER, NFT, 3, TOKEN, AuctionType::Dutch, settings(0, 1000, 1000, 100)).unwrap();
    assert_eq!(a.place_bid(10, HOUSE, ALICE, id, 900), Err(AuctionError::EnglishOnly));
    assert_eq!(a.buy_dutch(500, HOUSE, ALICE, id, 500), Err(AuctionError::CurrentPriceHigherThanMax));
    let pay = a.buy_dutch(500, HOUSE, ALICE, id, 600).unwrap();
    assert_eq!(pay.amount, 550);
    let info = a.get_auction(id).unwrap();
    assert!(info.settled);
    assert_eq!(info.highest_bidder, Some(ALICE));
    assert_eq!(a.buy_dutch(600, HOUSE, BOB, id, 600), Err(AuctionError::AuctionAlreadySettled));
}

#[test]
fn auction_creation_and_lookup_errors() {
    let mut a = AuctionContract::new();
    assert_eq!(
        a.create_auction(SELLER, NFT, 1, TOKEN, AuctionType::English, settings(10, 10, 1, 0)),
        Err(AuctionError::EndTimeMustBeAfterStartTime)
    );
    assert_eq!(a.place_bid(0, HOUSE, ALICE, 9, 1), Err(AuctionError::AuctionNotFound));
    assert!(a.get_auction(9).is_none());
    let id = a.create_auction(SELLER, NFT, 1, TOKEN, AuctionType::English, settings(0, 10, 1, 0)).unwrap();
    assert_eq!(a.place_bid(11, HOUSE, ALICE, id, 5), Err(AuctionError::AuctionEnded));
    assert_eq!(a.settle_auction(11, HOUSE, id), Ok(None));
}
