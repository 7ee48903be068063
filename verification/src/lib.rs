//! Core logic for a launch-reminder service.
//!
//! The library keeps a live, snapshot/replace cache of upcoming launches
//! ([`cache`]), builds each canonical launch record from the raw provider
//! payload ([`launches`], [`transformers`]), decides which guild or user
//! subscribers a launch concerns ([`reminders`], [`resolver`], [`filters`]),
//! and, on every timer tick, emits exactly one dispatch instruction per
//! (launch, subscriber, reminder-window) dedup key ([`scheduler`]). The
//! guarantees that span several calls — once-only emission, key eviction and
//! re-arming, filter exclusion, toggle independence — are stated and proved
//! in [`laws`].
//!
//! Polling the provider, reading the settings store, and delivering the
//! instructions are collaborators around this core; they hand plain values
//! in and take plain values out.

pub mod cache;
pub mod filters;
pub mod launches;
pub mod laws;
pub mod reminders;
pub mod resolver;
pub mod scheduler;
pub mod transformers;
