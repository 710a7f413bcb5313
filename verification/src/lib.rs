//! Content visibility and threaded retrieval engine.
//!
//! Decides, for a given viewer and query scope, which threaded
//! content items (comments in a tree rooted at a post) are visible,
//! in what order they appear, how they are paginated, and how
//! removed or deleted content is redacted before display.  The
//! engine is pure: it reads one snapshot of candidate rows supplied
//! by the caller — the storage collaborator's single atomic answer —
//! and never performs I/O itself.
//!
//! - [`model`], [`ids`], [`view`]: the snapshot's entities and the
//!   denormalized candidate row.
//! - [`viewer`]: the viewer context and its resolver.
//! - [`pred`]: the visibility predicates and their conjunction.
//! - [`order`]: ranking strategies and the verified sort.
//! - [`cursor`], [`paginate`]: the opaque cursor codec and paging.
//! - [`redact`]: display-time redaction and projection.
//! - [`engine`]: the `list` and `read` entry points.
//! - [`laws`]: the engine-wide guarantees, proved once.
//! - [`forms`]: write-side records of the surrounding system.

pub mod cursor;
pub mod engine;
pub mod forms;
pub mod ids;
pub mod laws;
pub mod model;
pub mod order;
pub mod paginate;
pub mod pred;
pub mod query;
pub mod redact;
pub mod view;
pub mod viewer;
