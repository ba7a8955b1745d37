//! Verified core of the XGA commitment module: validation rules, gas
//! reservation bookkeeping, relay fault tolerance and request limiting.

pub mod abi_helpers;
pub mod api_handlers;
pub mod cache;
pub mod commitment;
pub mod cli;
pub mod config;
pub mod conflicts;
pub mod crypto;
pub mod eigenlayer;
pub mod hex_ids;
pub mod error;
pub mod infrastructure;
pub mod keyed;
pub mod metrics_wrapper;
pub mod poller;
pub mod register_validator;
pub mod registration_cache;
pub mod relay;
pub mod relay_communication;
pub mod relay_queries;
pub mod reservations;
pub mod service;
pub mod signer;
pub mod state;
pub mod state_manager;
pub mod text;
pub mod types;
pub mod u256;
pub mod validation;
pub mod webhook;
pub mod wire;
