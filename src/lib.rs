//! Feed synchronisation core of a podcast catalog: episode metadata
//! normalisation, reconciliation of incoming episodes against stored
//! ones, retry and batch bookkeeping for fetches, and subscription-list
//! import.

pub mod model;
pub mod reconcile;
pub mod text;
pub mod feed;
pub mod outline;
pub mod fetch;
pub mod batch;
pub mod player;
