use vstd::prelude::*;

verus! {

/// How build artifacts are made present on disk.
#[derive(Clone, Copy, Debug, PartialEq, Eq, Structural)]
pub enum MaterializationMethod {
    /// Every artifact is materialized as soon as it is produced.
    Immediate,
    /// Artifacts are materialized lazily.
    Deferred,
    /// Artifacts are materialized lazily, and final artifacts are skipped.
    DeferredSkipFinalArtifacts,
    /// Artifacts are provided by a virtual file system.
    Eden,
}

/// The modes whose in-memory view of buck-out can be kept on disk across runs.
pub open spec fn deferred_spec(m: MaterializationMethod) -> bool {
    m == MaterializationMethod::Deferred || m == MaterializationMethod::DeferredSkipFinalArtifacts
}

/// Whether `m` materializes lazily.
pub fn is_deferred(m: MaterializationMethod) -> (r: bool)
    ensures
        r == deferred_spec(m),
{
    match m {
        MaterializationMethod::Deferred => true,
        MaterializationMethod::DeferredSkipFinalArtifacts => true,
        _ => false,
    }
}

/// A configuration value that could not be parsed.
#[derive(Clone, Debug, PartialEq, Eq)]
pub struct ConfigError {
    pub section: String,
    pub key: String,
    pub message: String,
}

/// What the daemon keeps on disk between runs.
#[derive(Clone, Copy, Debug, PartialEq, Eq, Structural)]
pub struct DiskStateOptions {
    pub sqlite_materializer_state: bool,
}

impl DiskStateOptions {
    /// Decides whether the materializer state is kept in its on-disk store.
    ///
    /// `rollout` is the outcome of the rollout-percentage setting: `Ok(None)`
    /// when the setting is absent, `Ok(Some(b))` when it is present and rolled
    /// `b`, and `Err` when it is malformed. It is consulted only for deferred
    /// modes: an immediate mode is never enabled, whatever the setting holds.
    pub fn new(
        materialization_method: MaterializationMethod,
        rollout: Result<Option<bool>, ConfigError>,
    ) -> (r: Result<DiskStateOptions, ConfigError>)
        ensures
            !deferred_spec(materialization_method) ==> r == Ok::<DiskStateOptions, ConfigError>(
                DiskStateOptions { sqlite_materializer_state: false },
            ),
            deferred_spec(materialization_method) ==> match rollout {
                Err(e) => r == Err::<DiskStateOptions, ConfigError>(e),
                Ok(None) => r == Ok::<DiskStateOptions, ConfigError>(
                    DiskStateOptions { sqlite_materializer_state: false },
                ),
                Ok(Some(b)) => r == Ok::<DiskStateOptions, ConfigError>(
                    DiskStateOptions { sqlite_materializer_state: b },
                ),
            },
    {
        if !is_deferred(materialization_method) {
            return Ok(DiskStateOptions { sqlite_materializer_state: false });
        }
        match rollout {
            Err(e) => Err(e),
            Ok(setting) => {
                let enabled = match setting {
                    Some(b) => b,
                    None => false,
                };
                Ok(DiskStateOptions { sqlite_materializer_state: enabled })
            },
        }
    }
}

} // verus!
