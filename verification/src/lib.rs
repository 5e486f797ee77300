//! Duration-valued columns for a columnar engine: a nullable signed 64-bit
//! count buffer tagged with a time unit, together with the unit-aware
//! arithmetic, casting and reduction re-tagging rules that make the tag
//! trustworthy across operations.
//!
//! The crate is organised in layers. [`physical`] holds the untyped nullable
//! Int64 kernel (elementwise arithmetic with unit-length broadcast, gather,
//! filter, slice, reductions). [`duration`] wraps one physical column with a
//! [`dtypes::TimeUnit`] and re-exposes the structural operations, keeping the
//! unit unchanged. [`arithmetic`] dispatches the binary operators over the
//! right-hand dtype, and [`aggregation`] re-tags reduction results.
//!
//! Floating-point computation (duration ratios, mean/std/var/quantile) is the
//! business of an external numeric engine: verified code never holds a float.
//! Where an operation runs through that engine, the functions here either
//! return the engine's task ([`arithmetic::ArithOutcome`]) or take the
//! engine's result, already cast back to an integer count, as an argument,
//! and the contracts pin everything this core decides: the unit tag, the
//! error cases, and the null structure.

pub mod aggregation;
pub mod arithmetic;
pub mod dtypes;
pub mod duration;
pub mod errors;
pub mod laws;
pub mod physical;
pub mod series;
