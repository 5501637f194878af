//! Grid placement engine for a dashboard builder, together with the
//! supporting value types of the surrounding application (license tiers,
//! operation bookkeeping, storage and sync descriptors).
//!
//! The placement engine puts rectangular widgets on an integer grid, keeps
//! them from overlapping, compacts them toward the top, and resolves the
//! conflicts that arise while one widget is being dragged.

pub mod geometry;
pub mod occupancy;
pub mod sorting;
pub mod layout;
pub mod laws;
pub mod license;
pub mod dispatch;
pub mod orchestrator;
pub mod plugins;
pub mod state;
pub mod storage;
pub mod sync;
pub mod text;
pub mod validation;

pub use geometry::blocks_collide;
pub use geometry::GridConfig;
pub use geometry::Position;
pub use geometry::Widget;
pub use layout::find_best_position;
pub use layout::optimize_layout;
pub use layout::resolve_conflicts;
pub use occupancy::OccupiedGrid;
pub use occupancy::MAX_SEARCH_ROWS;
pub use geometry::COORD_LIMIT;
