use vstd::prelude::*;

use crate::rollout::DiskStateOptions;
use crate::table::StringTable;

verus! {

/// Identifies one instantiation of the materializer-state store: the
/// timestamp that the store recorded in its metadata when it was created.
#[derive(Clone, Debug, PartialEq, Eq)]
pub struct MaterializerStateIdentity(String);

impl View for MaterializerStateIdentity {
    type V = Seq<char>;

    closed spec fn view(&self) -> Seq<char> {
        self.0@
    }
}

impl MaterializerStateIdentity {
    /// The identity as text.
    pub fn to_string(&self) -> (r: String)
        ensures
            r@ == self@,
    {
        self.0.clone()
    }
}

/// Why the store could not be given an identity.
#[derive(Clone, Debug, PartialEq, Eq)]
pub enum InitError<E> {
    /// Reading the store's creation metadata failed.
    ReadCreationMetadata(E),
    /// The store's creation metadata has no initialization timestamp.
    MissingTimestamp,
}

/// What startup does with the materializer-state store.
#[derive(Clone, Debug)]
pub enum InitStep {
    /// The feature is off: remove the store's path, recursively, if it exists.
    RemoveStatePath,
    /// The feature is on: open or create the store with this fingerprint and
    /// this metadata.
    OpenStore { versions: StringTable, metadata: StringTable },
}

/// The metadata key under which the store's creation timestamp is kept.
pub open spec fn timestamp_key() -> Seq<char> {
    "timestamp_on_initialization"@
}

/// The metadata key that holds the host's name.
pub open spec fn hostname_key() -> Seq<char> {
    "hostname"@
}

/// The decimal digits of `n`, most significant first.
pub open spec fn decimal(n: nat) -> Seq<char>
    decreases n,
{
    if n < 10 {
        seq![digit(n)]
    } else {
        decimal(n / 10).push(digit(n % 10))
    }
}

/// The character of the decimal digit `d`.
pub open spec fn digit(d: nat) -> char {
    seq!['0', '1', '2', '3', '4', '5', '6', '7', '8', '9'][d as int]
}

/// `true` or `false`, as text.
pub open spec fn bool_text(b: bool) -> Seq<char> {
    if b {
        "true"@
    } else {
        "false"@
    }
}

/// The views of an optional string.
pub open spec fn opt_view(o: Option<String>) -> Option<Seq<char>> {
    match o {
        Some(s) => Some(s@),
        None => None,
    }
}

/// The value of `key` in `m`, if any.
pub open spec fn lookup(m: Map<Seq<char>, Seq<char>>, key: Seq<char>) -> Option<Seq<char>> {
    if m.contains_key(key) {
        Some(m[key])
    } else {
        None
    }
}

/// The versions fingerprint: the store's schema version, the write-deferral
/// flag, the configured version override if any, and the host's name if known.
pub open spec fn versions_spec(
    schema_version: u64,
    defer_write_actions: bool,
    buckconfig_version: Option<Seq<char>>,
    hostname: Option<Seq<char>>,
) -> Map<Seq<char>, Seq<char>> {
    let base = Map::<Seq<char>, Seq<char>>::empty().insert(
        "schema_version"@,
        decimal(schema_version as nat),
    ).insert("defer_write_actions"@, bool_text(defer_write_actions));
    let with_override = match buckconfig_version {
        Some(v) => base.insert("buckconfig_version"@, v),
        None => base,
    };
    match hostname {
        Some(h) => with_override.insert("hostname"@, h),
        None => with_override,
    }
}

fn digit_str(d: u64) -> (r: &'static str)
    requires
        d < 10,
    ensures
        r@ == seq![digit(d as nat)],
{
    proof {
        reveal_strlit("0");
        reveal_strlit("1");
        reveal_strlit("2");
        reveal_strlit("3");
        reveal_strlit("4");
        reveal_strlit("5");
        reveal_strlit("6");
        reveal_strlit("7");
        reveal_strlit("8");
        reveal_strlit("9");
    }
    let r = match d {
        0 => "0",
        1 => "1",
        2 => "2",
        3 => "3",
        4 => "4",
        5 => "5",
        6 => "6",
        7 => "7",
        8 => "8",
        _ => "9",
    };
    assert(r@ =~= seq![digit(d as nat)]);
    r
}

/// The decimal digits of `n`, most significant first, with no leading zeros.
fn decimal_string(n: u64) -> (r: String)
    ensures
        r@ == decimal(n as nat),
    decreases n,
{
    if n < 10 {
        digit_str(n).to_owned()
    } else {
        let mut s = decimal_string(n / 10);
        s.append(digit_str(n % 10));
        assert(s@ =~= decimal(n as nat));
        s
    }
}

/// A point in time of the system clock.
#[verifier::external_type_specification]
#[verifier::external_body]
pub struct ExSystemTime(std::time::SystemTime);

/// The error of a clock reading earlier than the instant it is measured from.
#[verifier::external_type_specification]
#[verifier::external_body]
pub struct ExSystemTimeError(std::time::SystemTimeError);

/// Relies on `SystemTime::now`: the current reading of the system clock.
pub assume_specification[ std::time::SystemTime::now ]() -> std::time::SystemTime;

/// Relies on `SystemTime::duration_since`: the time elapsed since `earlier`, or
/// an error where `earlier` is later than this reading.
pub assume_specification[ std::time::SystemTime::duration_since ](
    t: &std::time::SystemTime,
    earlier: std::time::SystemTime,
) -> Result<core::time::Duration, std::time::SystemTimeError>;

/// Relies on `Duration::as_secs`: the whole seconds of the duration.
pub assume_specification[ core::time::Duration::as_secs ](d: &core::time::Duration) -> u64;

/// Relies on `Duration::subsec_nanos`: the nanoseconds past the whole seconds,
/// always under one second.
pub assume_specification[ core::time::Duration::subsec_nanos ](d: &core::time::Duration) -> (r: u32)
    ensures
        r < 1_000_000_000,
;

/// Relies on `std::time::UNIX_EPOCH`: the instant that clock readings are
/// measured from.
#[verifier::external_body]
fn unix_epoch() -> std::time::SystemTime {
    std::time::UNIX_EPOCH
}

/// The RFC 3339 text, in UTC, of the instant `secs` seconds and `nanos`
/// nanoseconds after the Unix epoch, or `None` where chrono cannot represent
/// that instant. It depends on the two numbers alone.
pub uninterp spec fn rfc3339_of(secs: i64, nanos: u32) -> Option<Seq<char>>;

/// `t` is the RFC 3339 text of some instant at or after the Unix epoch.
pub open spec fn is_rfc3339_instant(t: Seq<char>) -> bool {
    exists|secs: i64, nanos: u32|
        0 <= secs && nanos < 1_000_000_000 && #[trigger] rfc3339_of(secs, nanos) == Some(t)
}

/// Relies on `chrono::DateTime::<Utc>::from_timestamp` and
/// `DateTime::to_rfc3339`: the RFC 3339 text of that instant in UTC, or `None`
/// where the instant is out of chrono's range.
#[verifier::external_body]
fn rfc3339_of_timestamp(secs: i64, nanos: u32) -> (r: Option<String>)
    ensures
        opt_view(r) == rfc3339_of(secs, nanos),
{
    chrono::DateTime::<chrono::Utc>::from_timestamp(secs, nanos).map(|d| d.to_rfc3339())
}

/// Why startup could not plan the store's initialization.
#[derive(Clone, Copy, Debug, PartialEq, Eq, Structural)]
pub enum PlanError {
    /// The system clock could not be read as a time after the Unix epoch, or
    /// that time could not be written as RFC 3339 text.
    ClockUnavailable,
}

/// The RFC 3339 text of the instant `secs` seconds and `nanos` nanoseconds
/// after the Unix epoch, or `None` where the seconds do not fit in an `i64` or
/// chrono cannot represent the instant.
pub fn timestamp_text(secs: u64, nanos: u32) -> (r: Option<String>)
    ensures
        secs > i64::MAX as u64 ==> r is None,
        secs <= i64::MAX as u64 ==> opt_view(r) == rfc3339_of(secs as i64, nanos),
{
    if secs > i64::MAX as u64 {
        None
    } else {
        rfc3339_of_timestamp(secs as i64, nanos)
    }
}

/// The current time as RFC 3339 text, or `None` where the clock reads earlier
/// than the Unix epoch or the time cannot be written out.
pub fn current_timestamp() -> (r: Option<String>)
    ensures
        r matches Some(t) ==> is_rfc3339_instant(t@),
{
    let now = std::time::SystemTime::now();
    match now.duration_since(unix_epoch()) {
        Err(_) => None,
        Ok(d) => {
            let secs = d.as_secs();
            let nanos = d.subsec_nanos();
            let r = timestamp_text(secs, nanos);
            proof {
                if r is Some {
                    assert(rfc3339_of(secs as i64, nanos) == Some(r->0@));
                }
            }
            r
        },
    }
}

/// The key under which the store's creation timestamp is kept.
pub fn timestamp_key_string() -> (r: String)
    ensures
        r@ == timestamp_key(),
{
    "timestamp_on_initialization".to_owned()
}

fn bool_string(b: bool) -> (r: String)
    ensures
        r@ == bool_text(b),
{
    if b {
        "true".to_owned()
    } else {
        "false".to_owned()
    }
}

/// Builds the versions fingerprint that the store compares against the one it
/// recorded at its last successful write.
pub fn versions_fingerprint(
    schema_version: u64,
    defer_write_actions: bool,
    buckconfig_version: Option<String>,
    hostname: Option<String>,
) -> (r: StringTable)
    ensures
        r.wf(),
        r@ == versions_spec(
            schema_version,
            defer_write_actions,
            opt_view(buckconfig_version),
            opt_view(hostname),
        ),
{
    let mut versions = StringTable::new();
    versions.insert("schema_version".to_owned(), decimal_string(schema_version));
    versions.insert("defer_write_actions".to_owned(), bool_string(defer_write_actions));
    if let Some(v) = buckconfig_version {
        versions.insert("buckconfig_version".to_owned(), v);
    }
    if let Some(h) = hostname {
        versions.insert("hostname".to_owned(), h);
    }
    versions
}

/// Records `timestamp` in the collected metadata under the timestamp key.
pub fn stamp_metadata(collected: StringTable, timestamp: String) -> (r: StringTable)
    requires
        collected.wf(),
    ensures
        r.wf(),
        r@ == collected@.insert(timestamp_key(), timestamp@),
{
    let mut metadata = collected;
    metadata.insert(timestamp_key_string(), timestamp);
    metadata
}

/// Decides what startup does with the store, given the time of this
/// initialization: remove the store's path when the feature is off; else open
/// the store with the fingerprint, whose host name is read from the stamped
/// metadata, and with the metadata stamped with `timestamp`.
pub fn plan_initialization_at(
    options: DiskStateOptions,
    schema_version: u64,
    defer_write_actions: bool,
    buckconfig_version: Option<String>,
    collected_metadata: StringTable,
    timestamp: String,
) -> (r: InitStep)
    requires
        collected_metadata.wf(),
    ensures
        !options.sqlite_materializer_state ==> r is RemoveStatePath,
        options.sqlite_materializer_state ==> match r {
            InitStep::OpenStore { versions, metadata } => {
                &&& metadata.wf()
                &&& versions.wf()
                &&& metadata@ == collected_metadata@.insert(timestamp_key(), timestamp@)
                &&& versions@ == versions_spec(
                    schema_version,
                    defer_write_actions,
                    opt_view(buckconfig_version),
                    lookup(metadata@, hostname_key()),
                )
            },
            InitStep::RemoveStatePath => false,
        },
{
    if !options.sqlite_materializer_state {
        return InitStep::RemoveStatePath;
    }
    let metadata = stamp_metadata(collected_metadata, timestamp);
    let hostname = metadata.get(&"hostname".to_owned());
    let versions = versions_fingerprint(schema_version, defer_write_actions, buckconfig_version, hostname);
    InitStep::OpenStore { versions, metadata }
}

/// Decides what startup does with the store, stamping the metadata with the
/// current time: as `plan_initialization_at`, for a timestamp that is the
/// RFC 3339 text of some instant after the Unix epoch. When the feature is on
/// and the clock cannot be read, it fails instead.
pub fn plan_initialization(
    options: DiskStateOptions,
    schema_version: u64,
    defer_write_actions: bool,
    buckconfig_version: Option<String>,
    collected_metadata: StringTable,
) -> (r: Result<InitStep, PlanError>)
    requires
        collected_metadata.wf(),
    ensures
        !options.sqlite_materializer_state ==> r matches Ok(InitStep::RemoveStatePath),
        options.sqlite_materializer_state ==> match r {
            Ok(InitStep::OpenStore { versions, metadata }) => {
                &&& metadata.wf()
                &&& versions.wf()
                &&& metadata@.contains_key(timestamp_key())
                &&& is_rfc3339_instant(metadata@[timestamp_key()])
                &&& metadata@ == collected_metadata@.insert(timestamp_key(), metadata@[timestamp_key()])
                &&& versions@ == versions_spec(
                    schema_version,
                    defer_write_actions,
                    opt_view(buckconfig_version),
                    lookup(metadata@, hostname_key()),
                )
            },
            Ok(InitStep::RemoveStatePath) => false,
            Err(e) => e == PlanError::ClockUnavailable,
        },
{
    if !options.sqlite_materializer_state {
        return Ok(InitStep::RemoveStatePath);
    }
    let timestamp = match current_timestamp() {
        Some(t) => t,
        None => {
            return Err(PlanError::ClockUnavailable);
        },
    };
    Ok(
        plan_initialization_at(
            options,
            schema_version,
            defer_write_actions,
            buckconfig_version,
            collected_metadata,
            timestamp,
        ),
    )
}

/// Completes initialization once the store is open. `created_by` is what
/// reading the timestamp key from the store's creation metadata gave, and
/// `load_result` the outcome of loading the prior materializer state.
///
/// The identity is the timestamp read back; its absence, or a failed read, is
/// an error. A failed load is absorbed: it yields no prior state, never an
/// error, since starting from an empty state is always safe.
pub fn finish_initialization<H, S, L, E>(
    db: H,
    created_by: Result<Option<String>, E>,
    load_result: Result<S, L>,
) -> (r: Result<(H, MaterializerStateIdentity, Option<S>), InitError<E>>)
    ensures
        match created_by {
            Err(e) => r == Err::<(H, MaterializerStateIdentity, Option<S>), InitError<E>>(
                InitError::ReadCreationMetadata(e),
            ),
            Ok(None) => r == Err::<(H, MaterializerStateIdentity, Option<S>), InitError<E>>(
                InitError::MissingTimestamp,
            ),
            Ok(Some(ts)) => {
                &&& r is Ok
                &&& r->Ok_0.0 == db
                &&& r->Ok_0.1@ == ts@
                &&& r->Ok_0.2 == match load_result {
                    Ok(s) => Some(s),
                    Err(_) => None::<S>,
                }
            },
        },
{
    let timestamp = match created_by {
        Err(e) => {
            return Err(InitError::ReadCreationMetadata(e));
        },
        Ok(None) => {
            return Err(InitError::MissingTimestamp);
        },
        Ok(Some(ts)) => ts,
    };
    let identity = MaterializerStateIdentity(timestamp);
    let materializer_state = match load_result {
        Ok(s) => Some(s),
        Err(_) => None,
    };
    Ok((db, identity, materializer_state))
}

proof fn lemma_digit_injective(a: nat, b: nat)
    requires
        a < 10,
        b < 10,
        digit(a) == digit(b),
    ensures
        a == b,
{
    let s = seq!['0', '1', '2', '3', '4', '5', '6', '7', '8', '9'];
    assert(s[0] == '0' && s[1] == '1' && s[2] == '2' && s[3] == '3' && s[4] == '4');
    assert(s[5] == '5' && s[6] == '6' && s[7] == '7' && s[8] == '8' && s[9] == '9');
}

proof fn lemma_decimal_len(n: nat)
    ensures
        decimal(n).len() >= 1,
        n >= 10 ==> decimal(n).len() >= 2,
    decreases n,
{
    if n >= 10 {
        lemma_decimal_len(n / 10);
    }
}

proof fn lemma_decimal_injective(a: nat, b: nat)
    requires
        decimal(a) == decimal(b),
    ensures
        a == b,
    decreases a,
{
    lemma_decimal_len(a);
    lemma_decimal_len(b);
    if a < 10 && b < 10 {
        assert(decimal(a)[0] == digit(a));
        assert(decimal(b)[0] == digit(b));
        lemma_digit_injective(a, b);
    } else if a >= 10 && b >= 10 {
        let da = decimal(a);
        assert(da.last() == digit(a % 10));
        assert(decimal(b).last() == digit(b % 10));
        lemma_digit_injective(a % 10, b % 10);
        assert(da.drop_last() =~= decimal(a / 10));
        assert(decimal(b).drop_last() =~= decimal(b / 10));
        lemma_decimal_injective(a / 10, b / 10);
    }
}

/// Two initializations whose store schema versions differ present the store
/// with different fingerprints, whatever the other compatibility keys hold, so
/// the store does not hand back the state recorded under the other one.
pub proof fn schema_change_changes_fingerprint(
    a: u64,
    b: u64,
    defer_write_actions: bool,
    buckconfig_version: Option<Seq<char>>,
    hostname: Option<Seq<char>>,
)
    requires
        a != b,
    ensures
        versions_spec(a, defer_write_actions, buckconfig_version, hostname) != versions_spec(
            b,
            defer_write_actions,
            buckconfig_version,
            hostname,
        ),
{
    reveal_strlit("schema_version");
    reveal_strlit("defer_write_actions");
    reveal_strlit("buckconfig_version");
    reveal_strlit("hostname");
    let k = "schema_version"@;
    assert(k[0] != "defer_write_actions"@[0]);
    assert(k[0] != "buckconfig_version"@[0]);
    assert(k[0] != "hostname"@[0]);
    if versions_spec(a, defer_write_actions, buckconfig_version, hostname) == versions_spec(
        b,
        defer_write_actions,
        buckconfig_version,
        hostname,
    ) {
        assert(versions_spec(a, defer_write_actions, buckconfig_version, hostname)[k] == decimal(
            a as nat,
        ));
        assert(versions_spec(b, defer_write_actions, buckconfig_version, hostname)[k] == decimal(
            b as nat,
        ));
        lemma_decimal_injective(a as nat, b as nat);
    }
}

} // verus!
