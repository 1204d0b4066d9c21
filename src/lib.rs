//! Disk-state consistency for a build daemon: the rollout decision for the
//! persistent materializer state, the lifecycle of that state's store, and the
//! pruning of unknown entries from the cache directory.

pub mod explain;
pub mod lifecycle;
pub mod reconcile;
pub mod rollout;
pub mod table;

pub use rollout::{is_deferred, ConfigError, DiskStateOptions, MaterializationMethod};

pub use reconcile::{delete_unknown_disk_state, is_known_name, CacheEntry, ReconcileError, ReconcilePlan};
pub use table::StringTable;
pub use lifecycle::{
    finish_initialization, plan_initialization, plan_initialization_at, stamp_metadata,
    timestamp_key_string, versions_fingerprint, current_timestamp, timestamp_text, InitError, InitStep,
    MaterializerStateIdentity, PlanError,
};
pub use explain::{
    build_command_start, check_working_dir, is_build_like, manifold_path, select_build_log,
    single_target_pattern, ExplainError,
};
