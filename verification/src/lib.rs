//! Credential-issuance core of a developer CLI: browser-login protocol
//! support (session key material, callback payload crypto, single-use
//! callback acceptance, delegation-chain validation, identity persistence).

pub mod callback;
pub mod chain;
pub mod cliargs;
pub mod codec;
pub mod config;
pub mod hexcode;
pub mod httpmsg;
pub mod identity;
pub mod keys;
pub mod payload;
pub mod principal;
pub mod spki;
pub mod text;
