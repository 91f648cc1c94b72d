//! Dynamic-DNS maintenance library.
//!
//! The crate keeps a DNS address record at an authoritative provider in step
//! with the host's current public IP address.  It holds the verified logic of
//! that job: splitting a domain into registrable root and subdomain, building
//! and signing provider API requests, decoding provider responses, choosing
//! the record to touch, deciding whether an update is needed, and normalizing
//! the answers of several public IP-echo services.  Network transport and the
//! event loop live outside the crate and hand plain values in and out.

pub mod text;

pub mod signing;

pub mod errors;

pub mod domain;

pub mod ip_addr;

pub mod client;

pub mod json;

pub mod updater;

pub mod discovery;
