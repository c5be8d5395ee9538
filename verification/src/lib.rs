//! Durable bookkeeping for downloaded comic pages.
//!
//! One record per page of a chapter says whether the page's image has been
//! fetched, where it came from, and under which cache key the same image can
//! be recognised again, so that no image is fetched twice.

pub mod dtos;
pub mod index;
pub mod laws;
pub mod model;
pub mod schema;
pub mod status;
pub mod store;
