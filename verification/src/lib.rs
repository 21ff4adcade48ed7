//! Live token balances of EVM accounts.
//!
//! A session watches the balances of one owner on one chain. Its state lives
//! in the [`subscription_manager`]; the [`watcher`] folds what was read from
//! the chain into the session's snapshot and says what to send to its
//! clients; the [`balances`] module makes up the batched read and reads its
//! answer; the [`token_list_fetcher`] caches token lists. Everything here is
//! plain computation on plain values: what talks to the network calls in and
//! hands the answers back.

pub mod address;
pub mod address_set;
pub mod api;
pub mod app_error;
pub mod balance;
pub mod balance_map;
pub mod balances;
pub mod bytes;
pub mod config;
pub mod errors;
pub mod events;
pub mod logs;
pub mod network;
pub mod reconnect;
pub mod sse;
pub mod subscription_manager;
pub mod token_list_fetcher;
pub mod watcher;
