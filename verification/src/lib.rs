//! The core of a caching proxy for a provider of economic time series.
//!
//! `date_formats` and `entities` hold the data and its text forms, `fred` the
//! protocol spoken with the provider, `local_cache` the cache of observations
//! and series metadata, `reconcile` the decisions that serve a requested date
//! range from the cache and the provider, and `refresh` those that keep the
//! cached metadata of a series fresh. Nothing here reads the network or the
//! disk: the two state machines say what is to be done and are told what came
//! of it.

pub mod date_formats;
pub mod entities;
pub mod fred;
pub mod local_cache;
pub mod reconcile;
pub mod refresh;
