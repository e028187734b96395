//! Locality-partitioned storage.
//!
//! A *locality* is a unit of concurrent execution (a thread, a core, a
//! fiber). A [`LocalKey`] hands every locality its own instance of a value,
//! created on first use and never shared with another locality.
//!
//! The pieces, leaf first:
//!
//! * [`Id`] names the locality a caller runs in; [`Locality`] is the strategy
//!   that computes it.
//! * [`DefaultLocality`] is the set-once cell that holds the one provider a
//!   process runs under; [`set_locality`] fills it.
//! * [`Gate`] is the three-state protocol that lets exactly one accessor size
//!   a store, and [`__Store`] is the slot array behind that gate.
//! * [`LocalKey`] ties a store to the function that makes fresh values.
//! * [`ThreadLocality`] hands out sequential identifiers, one per thread.
//!
//! Every operation is a step on an explicit state value, so that a caller who
//! keeps those values in process-wide cells can run the steps under whatever
//! atomic primitive the platform offers.

pub mod gate;
pub mod id;
pub mod local;
pub mod protocol;
pub mod registry;
pub mod store;
pub mod thread;

pub use gate::{Access, Gate};
pub use id::{Id, Locality};
pub use local::{AccessError, LocalKey};

pub use registry::{reset, set_locality, DefaultLocality, SetDefaultError};
pub use store::{StoreView, __Store};
pub use thread::ThreadLocality;
