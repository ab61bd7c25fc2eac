//! The logic of a creature-catalog browser: paging through a remote catalog,
//! accumulating the fetched entries without duplicates, filtering them by
//! category and preparing what a card shows.
//!
//! Nothing here performs I/O. A front end drives the state machines of
//! [`client`] and [`state`], performs the requests they ask for and hands the
//! outcomes back.

pub mod card;
pub mod catalog;
pub mod client;
pub mod ordering;
pub mod pokemon;
pub mod state;
pub mod text;
pub mod theme;
