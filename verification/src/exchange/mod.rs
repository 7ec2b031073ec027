//! Exchange control: trading halts and call auctions.
pub mod auction_book;
pub mod auction_engine;
pub mod control;
pub mod halt_detector;
