//! Verified core of a token-pair metrics engine.
//!
//! On-chain balances and supplies arrive as raw integers scaled by a
//! power-of-ten `decimals` factor.  This crate models every quantity as an
//! exact non-negative rational number, so the derived metrics (spot prices,
//! pooled liquidity, protocol-owned-liquidity share, and the peg-model
//! curve) carry exact contracts instead of floating-point approximations.
//! The surrounding I/O (JSON-RPC transport, HTTP routes) lives outside this
//! library and hands it plain values.

pub mod addr;
pub mod asset;
pub mod metrics;
pub mod peg;
pub mod rational;
pub mod retry;

pub use rational::Rational;
