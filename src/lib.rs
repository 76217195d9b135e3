//! On-chain storage layout of a candy machine account: size computation,
//! the header record format, the trailing index region and feature flags.

pub mod error;
pub mod layout;
pub mod flags;
pub mod codec;
pub mod init;
pub mod collection;
pub mod withdraw;
