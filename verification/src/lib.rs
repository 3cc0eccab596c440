//! Verified core of a discrete Bayesian inference library.
//!
//! Probabilities are `f64` values and are computed outside this crate. What is
//! kept here is the exact, integer part:
//! collecting labelled training examples, counting the sufficient statistics
//! (class counts and per-class feature-value counts) from which the naive
//! Bayes classifier is built, and putting index sets in ascending order.
pub mod counting;
pub mod index_sort;
pub mod training;
