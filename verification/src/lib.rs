//! Portfolio bookkeeping for a personal transaction log: reading the
//! semicolon-separated transaction file, folding it into holdings, valuing
//! holdings against quotes, and naming the files and URLs of the stooq
//! market-data store.

pub mod amount;
pub mod date;
pub mod records;
pub mod transactions;
pub mod portfolio;
pub mod paths;
pub mod hivepart;
pub mod weburl;
pub mod clock;
pub mod stooq_download;
pub mod table;
pub mod stooq;
pub mod service;
pub mod raw;
pub mod laws;
