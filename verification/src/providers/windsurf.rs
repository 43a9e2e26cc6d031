//! Windsurf usage from its local state.

use vstd::prelude::*;

use crate::error;
use crate::error::{ClassifiedError, ErrorKind};
use crate::instant;
use crate::instant::Timestamp;
use crate::json;
use crate::paths;
use crate::providers::zed;
use crate::registry::ProviderId;
use crate::settings::Environment;
use crate::sqlite_snapshot::SqliteSnapshotError;
use crate::text;
use crate::usage;
use crate::usage::{ProviderSource, RateWindow, SampleView, UsageSample, WindowView};

verus! {

pub const MAX_VALUE_BYTES: usize = 2 * 1024 * 1024;

/// The directory of the local state.
pub struct WindsurfSettings {
    pub profile_root: String,
}

/// The directory that an environment selects.
pub open spec fn root_of(environment: Environment) -> Option<Seq<char>> {
    match environment.setting("WINDSURF_DATA_DIR"@) {
        Some(directory) => Some(directory),
        None => match environment.setting("XDG_CONFIG_HOME"@) {
            Some(config) => Some(paths::path_below(config, "Windsurf/User/globalStorage"@)),
            None => match environment.setting("HOME"@) {
                Some(home) => Some(
                    paths::path_below(home, ".config/Windsurf/User/globalStorage"@),
                ),
                None => None,
            },
        },
    }
}

/// Whether a path can be a profile root.
pub open spec fn root_ok(path: Seq<char>) -> bool {
    path.len() > 0 && path[0] == '/' && text::byte_len(path) <= paths::MAX_PATH_BYTES
}

fn is_absolute(path: &str) -> (r: bool)
    ensures
        r == (path@.len() > 0 && path@[0] == '/'),
{
    let chars = text::chars_of(path);
    chars.len() > 0 && chars[0] == '/'
}

impl WindsurfSettings {
    /// The directory that an environment selects.
    pub fn resolve(environment: &Environment) -> (r: Result<WindsurfSettings, ClassifiedError>)
        ensures
            match r {
                Ok(found) => root_of(*environment) == Some(found.profile_root@) && root_ok(
                    found.profile_root@,
                ),
                Err(e) => match root_of(*environment) {
                    None => e == error::plain(ErrorKind::MissingCredential),
                    Some(path) => !root_ok(path) && e == error::plain(ErrorKind::Api),
                },
            },
    {
        let profile_root = match environment.get_setting("WINDSURF_DATA_DIR") {
            Some(directory) => directory,
            None => match environment.get_setting("XDG_CONFIG_HOME") {
                Some(config) => paths::join(config.as_str(), "Windsurf/User/globalStorage"),
                None => match environment.get_setting("HOME") {
                    Some(home) => paths::join(
                        home.as_str(),
                        ".config/Windsurf/User/globalStorage",
                    ),
                    None => return Err(ClassifiedError::new(ErrorKind::MissingCredential)),
                },
            },
        };
        if !is_absolute(profile_root.as_str()) || profile_root.as_str().len()
            > paths::MAX_PATH_BYTES {
            return Err(ClassifiedError::new(ErrorKind::Api));
        }
        Ok(WindsurfSettings { profile_root })
    }

    /// The settings of an explicit directory.
    pub fn for_profile_root(profile_root: String) -> (r: Result<WindsurfSettings, ClassifiedError>)
        ensures
            match r {
                Ok(found) => profile_root@.len() > 0 && profile_root@[0] == '/'
                    && found.profile_root == profile_root,
                Err(e) => !(profile_root@.len() > 0 && profile_root@[0] == '/') && e
                    == error::plain(ErrorKind::Api),
            },
    {
        if !is_absolute(profile_root.as_str()) {
            return Err(ClassifiedError::new(ErrorKind::Api));
        }
        Ok(WindsurfSettings { profile_root })
    }
}

/// An adapter bound to a directory.
pub struct WindsurfProvider {
    pub settings: WindsurfSettings,
}

impl WindsurfProvider {
    /// An adapter for a directory.
    pub fn new(settings: WindsurfSettings) -> (r: WindsurfProvider)
        ensures
            r.settings == settings,
    {
        WindsurfProvider { settings }
    }
}

/// Checks that a caller asks for an adapter's own local data.
pub fn check_context(same_scope: bool, source: ProviderSource) -> (r: Result<(), ClassifiedError>)
    ensures
        match r {
            Ok(_) => same_scope && source == ProviderSource::LocalData,
            Err(e) => !(same_scope && source == ProviderSource::LocalData) && e == error::plain(
                ErrorKind::Api,
            ),
        },
{
    if !same_scope || source != ProviderSource::LocalData {
        return Err(ClassifiedError::new(ErrorKind::Api));
    }
    Ok(())
}

/// The class of a snapshot's failure.
pub open spec fn snapshot_class(e: SqliteSnapshotError) -> ErrorKind {
    match e {
        SqliteSnapshotError::Missing | SqliteSnapshotError::InvalidRoot => ErrorKind::MissingCredential,
        SqliteSnapshotError::Replaced => ErrorKind::ProviderUnavailable,
        SqliteSnapshotError::InvalidRelativePath
        | SqliteSnapshotError::UnsafeFile
        | SqliteSnapshotError::TooLarge
        | SqliteSnapshotError::Open
        | SqliteSnapshotError::Configure
        | SqliteSnapshotError::Snapshot => ErrorKind::Parse,
    }
}

/// The class of a snapshot's failure.
pub fn classify_sqlite(e: SqliteSnapshotError) -> (r: ClassifiedError)
    ensures
        r == error::plain(snapshot_class(e)),
{
    match e {
        SqliteSnapshotError::Missing | SqliteSnapshotError::InvalidRoot => ClassifiedError::new(
            ErrorKind::MissingCredential,
        ),
        SqliteSnapshotError::Replaced => ClassifiedError::new(ErrorKind::ProviderUnavailable),
        SqliteSnapshotError::InvalidRelativePath
        | SqliteSnapshotError::UnsafeFile
        | SqliteSnapshotError::TooLarge
        | SqliteSnapshotError::Open
        | SqliteSnapshotError::Configure
        | SqliteSnapshotError::Snapshot => ClassifiedError::new(ErrorKind::Parse),
    }
}

/// A text without NUL characters around it.
pub open spec fn without_nul(s: Seq<char>) -> Seq<char> {
    text::without_trailing(text::without_leading(s, '\0'), '\0')
}

/// A text without NUL characters around it, where it is a JSON document.
pub open spec fn document_in(s: Seq<char>) -> Option<Seq<char>> {
    if json::parsed_json(vstd::utf8::encode_utf8(without_nul(s))) is Some {
        Some(without_nul(s))
    } else {
        None
    }
}

fn read_document(source: &str) -> (r: Option<String>)
    ensures
        r.deep_view() == document_in(source@),
{
    let chars = text::chars_of(source);
    let shown = text::text_of(
        text::strip_trailing(text::strip_leading(chars.as_slice(), '\0'), '\0'),
    );
    let bytes = shown.as_str().as_bytes_vec();
    match json::parse(bytes.as_slice()) {
        Some(_) => Some(shown),
        None => None,
    }
}

/// Little-endian code units of pairs of bytes.
pub open spec fn units_of(bytes: Seq<u8>) -> Seq<u16> {
    Seq::new(
        bytes.len() / 2,
        |i: int| (bytes[2 * i] as u16 + bytes[2 * i + 1] as u16 * 256) as u16,
    )
}

fn read_units(bytes: &[u8]) -> (r: Vec<u16>)
    ensures
        r@ == units_of(bytes@),
{
    let mut r: Vec<u16> = Vec::new();
    let length: usize = bytes.len();
    let n: usize = length / 2;
    let mut i: usize = 0;
    while i < n
        invariant
            i <= n,
            length == bytes@.len(),
            n == length / 2,
            r@ == units_of(bytes@).take(i as int),
        decreases n - i,
    {
        assert(2 * i + 1 < length);
        let low: u16 = bytes[2 * i] as u16;
        let high: u16 = bytes[2 * i + 1] as u16;
        r.push(low + high * 256);
        i += 1;
        assert(r@ =~= units_of(bytes@).take(i as int));
    }
    assert(r@ =~= units_of(bytes@));
    r
}

/// The JSON document that bytes hold, in UTF-8 or else in UTF-16.
pub open spec fn stored_document(bytes: Seq<u8>) -> Option<Seq<char>> {
    let plain = if vstd::utf8::valid_utf8(bytes) {
        document_in(vstd::utf8::decode_utf8(bytes))
    } else {
        None
    };
    match plain {
        Some(found) => Some(found),
        None => if bytes.len() % 2 == 0 {
            match text::utf16_text_of(units_of(bytes)) {
                Some(s) => document_in(s),
                None => None,
            }
        } else {
            None
        },
    }
}

/// The JSON document that bytes hold, in UTF-8 or else in UTF-16.
pub fn decode_json_bytes(bytes: &[u8]) -> (r: Option<String>)
    ensures
        r.deep_view() == stored_document(bytes@),
{
    if let Some(source) = text::utf8_text(bytes) {
        if let Some(found) = read_document(source.as_str()) {
            return Some(found);
        }
    }
    if bytes.len() % 2 == 0 {
        let units = read_units(bytes);
        if let Some(source) = text::utf16_text(units.as_slice()) {
            return read_document(source.as_str());
        }
    }
    None
}

/// What the local state holds for the plan's key.
pub enum StoredValue {
    Absent,
    Bytes(Vec<u8>),
    Other,
}

/// The document that is stored, or its failure.
pub open spec fn document_of(stored: StoredValue) -> Result<Seq<char>, ErrorKind> {
    match stored {
        StoredValue::Absent => Err(ErrorKind::MissingCredential),
        StoredValue::Other => Err(ErrorKind::Parse),
        StoredValue::Bytes(bytes) => if bytes@.len() > MAX_VALUE_BYTES {
            Err(ErrorKind::Parse)
        } else {
            match stored_document(bytes@) {
                Some(found) => Ok(found),
                None => Err(ErrorKind::Parse),
            }
        },
    }
}

/// The document that is stored.
pub fn read_stored(stored: &StoredValue) -> (r: Result<String, ClassifiedError>)
    ensures
        match r {
            Ok(found) => document_of(*stored) == Ok::<Seq<char>, ErrorKind>(found@),
            Err(e) => document_of(*stored) matches Err(kind) && e == error::plain(kind),
        },
{
    match stored {
        StoredValue::Absent => Err(ClassifiedError::new(ErrorKind::MissingCredential)),
        StoredValue::Other => Err(ClassifiedError::new(ErrorKind::Parse)),
        StoredValue::Bytes(bytes) => {
            if bytes.len() > MAX_VALUE_BYTES {
                return Err(ClassifiedError::new(ErrorKind::Parse));
            }
            match decode_json_bytes(bytes.as_slice()) {
                Some(found) => Ok(found),
                None => Err(ClassifiedError::new(ErrorKind::Parse)),
            }
        },
    }
}

/// Counts of a plan.
pub struct Counts {
    pub total: Option<i64>,
    pub used: Option<i64>,
    pub remaining: Option<i64>,
}

/// A quota whose remaining percentage is known, with its reset in seconds.
pub struct QuotaLeft {
    pub reset_at_unix: Option<i64>,
}

/// The cached plan of an account.
pub struct CachedPlan {
    pub plan_name: Option<String>,
    pub end_timestamp: Option<i64>,
    pub messages: Option<Counts>,
    pub flow_actions: Option<Counts>,
    pub daily: Option<QuotaLeft>,
    pub weekly: Option<QuotaLeft>,
}

/// The instant of a number of seconds since the epoch, where the calendar holds
/// it.
pub open spec fn seconds_instant(seconds: int) -> Option<Timestamp> {
    instant::calendar_nanos(seconds * 1_000_000_000)
}

fn from_seconds(seconds: i64) -> (r: Option<Timestamp>)
    ensures
        r == seconds_instant(seconds as int),
{
    Timestamp::from_nanos(seconds as i128 * 1_000_000_000)
}

/// The window of a quota, without its used share.
pub open spec fn left_window(quota: QuotaLeft) -> WindowView {
    WindowView {
        used: None,
        minutes: None,
        resets_at: match quota.reset_at_unix {
            Some(at) => seconds_instant(at as int),
            None => None,
        },
        description: None,
    }
}

fn remaining_window(quota: &QuotaLeft) -> (r: RateWindow)
    ensures
        r.value() == left_window(*quota),
{
    let resets_at = match quota.reset_at_unix {
        Some(at) => from_seconds(at),
        None => None,
    };
    RateWindow { used: None, minutes: None, resets_at, description: None }
}

/// Whether what is used can be told from what remains.
pub open spec fn countable(counts: Counts) -> bool {
    counts.total matches Some(total) && total > 0 && counts.used is None
        && counts.remaining is Some ==> counts.total->0 - counts.remaining->0 <= i64::MAX
}

/// What is used of a positive total, where it is known.
pub open spec fn used_of(counts: Counts) -> Option<(i64, i64)> {
    match counts.total {
        Some(total) => if total <= 0 {
            None
        } else {
            match (counts.used, counts.remaining) {
                (Some(used), _) => Some((zed::within(used, total), total)),
                (None, Some(remaining)) => Some(
                    (zed::within((total - remaining) as i64, total), total),
                ),
                (None, None) => None,
            }
        },
        None => None,
    }
}

/// The window of counts: `Some(None)` where they are not known, `None` where what
/// is used or its percentage does not fit.
pub open spec fn counts_window(counts: Option<Counts>, unit: Seq<char>) -> Option<Option<WindowView>> {
    match counts {
        None => Some(None),
        Some(c) => if !countable(c) {
            None
        } else {
            match used_of(c) {
                None => Some(None),
                Some((used, total)) => match zed::ratio_of(used, total) {
                    Some(percent) => Some(
                        Some(
                            WindowView {
                                used: Some(percent),
                                minutes: None,
                                resets_at: None,
                                description: Some(
                                    text::signed_digits(used as int) + " / "@
                                        + text::signed_digits(total as int) + " "@ + unit,
                                ),
                            },
                        ),
                    ),
                    None => None,
                },
            }
        },
    }
}

/// The window of counts.
pub fn count_window(counts: &Option<Counts>, unit: &str) -> (r: Result<
    Option<RateWindow>,
    ClassifiedError,
>)
    ensures
        match r {
            Ok(window) => counts_window(*counts, unit@) == Some(usage::window_value(window)),
            Err(e) => counts_window(*counts, unit@) is None && e == error::plain(ErrorKind::Parse),
        },
{
    let c = match counts {
        Some(c) => c,
        None => return Ok(None),
    };
    let total: i64 = match c.total {
        Some(total) => total,
        None => return Ok(None),
    };
    if total <= 0 {
        return Ok(None);
    }
    let raw: i64 = match c.used {
        Some(used) => used,
        None => match c.remaining {
            Some(remaining) => match total.checked_sub(remaining) {
                Some(used) => used,
                None => return Err(ClassifiedError::new(ErrorKind::Parse)),
            },
            None => return Ok(None),
        },
    };
    let used: i64 = if raw < 0 {
        0
    } else if raw > total {
        total
    } else {
        raw
    };
    let percent = zed::ratio_percent(used, total)?;
    let mut description = String::new();
    text::push_signed(&mut description, used);
    description.append(" / ");
    text::push_signed(&mut description, total);
    description.append(" ");
    description.append(unit);
    assert(description@ =~= text::signed_digits(used as int) + " / "@ + text::signed_digits(
        total as int,
    ) + " "@ + unit@);
    Ok(
        Some(
            RateWindow {
                used: Some(percent),
                minutes: None,
                resets_at: None,
                description: Some(description),
            },
        ),
    )
}

/// A window: of the quota where its remaining percentage is known, or else of
/// the counts.
pub open spec fn either_window(
    quota: Option<QuotaLeft>,
    counts: Option<Counts>,
    unit: Seq<char>,
) -> Option<Option<WindowView>> {
    match quota {
        Some(q) => Some(Some(left_window(q))),
        None => counts_window(counts, unit),
    }
}

/// When a plan ends, where the calendar holds it. Milliseconds are cut off.
pub open spec fn plan_end(millis: Option<i64>) -> Option<Timestamp> {
    match millis {
        Some(m) => seconds_instant(
            if m < 0 {
                -((-(m as int)) / 1_000)
            } else {
                m as int / 1_000
            },
        ),
        None => None,
    }
}

/// The reading of a cached plan; `None` where it has no window.
pub open spec fn sample_of(payload: CachedPlan, fetched_at: Timestamp) -> Option<SampleView> {
    match (
        either_window(payload.daily, payload.messages, "messages"@),
        either_window(payload.weekly, payload.flow_actions, "flow actions"@),
    ) {
        (Some(primary), Some(secondary)) => if primary is None && secondary is None {
            None
        } else {
            Some(
                SampleView {
                    primary,
                    secondary,
                    login_method: payload.plan_name.deep_view(),
                    expires_at: plan_end(payload.end_timestamp),
                    ..usage::empty_sample(
                        ProviderId::Windsurf,
                        fetched_at,
                        "windsurf"@,
                        "linux-local-state"@,
                    )
                },
            )
        },
        _ => None,
    }
}

/// The reading of a cached plan. A window of a quota has no used share yet.
pub fn normalize(payload: CachedPlan, fetched_at: Timestamp) -> (r: Result<
    UsageSample,
    ClassifiedError,
>)
    ensures
        match r {
            Ok(sample) => sample_of(payload, fetched_at) == Some(sample.value()),
            Err(e) => sample_of(payload, fetched_at) is None && e == error::plain(
                ErrorKind::Parse,
            ),
        },
{
    let primary = match &payload.daily {
        Some(quota) => Some(remaining_window(quota)),
        None => count_window(&payload.messages, "messages")?,
    };
    let secondary = match &payload.weekly {
        Some(quota) => Some(remaining_window(quota)),
        None => count_window(&payload.flow_actions, "flow actions")?,
    };
    if primary.is_none() && secondary.is_none() {
        return Err(ClassifiedError::new(ErrorKind::Parse));
    }
    let expires_at = match payload.end_timestamp {
        Some(millis) => {
            let seconds: i64 = if millis < 0 {
                (-((-(millis as i128)) / 1_000)) as i64
            } else {
                millis / 1_000
            };
            from_seconds(seconds)
        },
        None => None,
    };
    let mut sample = UsageSample::empty(
        ProviderId::Windsurf,
        fetched_at,
        "windsurf",
        "linux-local-state",
    );
    sample.primary = primary;
    sample.secondary = secondary;
    sample.login_method = payload.plan_name;
    sample.expires_at = expires_at;
    Ok(sample)
}

/// The used count of a total is the stated one within the total, or what does not
/// remain: with what remains it makes the total.
pub proof fn law_counts_make_the_total(counts: Counts)
    requires
        countable(counts),
    ensures
        used_of(counts) matches Some((used, total)) ==> {
            &&& counts.total == Some(total) && total > 0 && 0 <= used <= total
            &&& counts.used matches Some(stated) ==> (0 <= stated <= total ==> used == stated) && (
            stated > total ==> used == total) && (stated < 0 ==> used == 0)
            &&& counts.used is None && counts.remaining is Some && 0 <= counts.remaining->0 <= total
                ==> used + counts.remaining->0 == total
        },
        counts.total is Some && counts.total->0 > 0 && (counts.used is Some || counts.remaining
            is Some) ==> used_of(counts) is Some,
{
}

/// A counted window shows the used share of the total in percent.
pub proof fn law_counts_show_as_percentages(counts: Counts, unit: Seq<char>)
    requires
        crate::decimal::computes(),
        countable(counts),
    ensures
        counts_window(Some(counts), unit) matches Some(Some(window)) ==> (used_of(
            counts,
        ) matches Some((used, total)) && window.used is Some && crate::decimal::is_percentage(
            crate::decimal::signed_whole(used),
            crate::decimal::signed_whole(total),
            window.used->0,
        )),
{
    if let Some((used, total)) = used_of(counts) {
        zed::law_ratios_are_percentages(used, total);
    }
}

/// A plan ends at the whole second of its milliseconds, toward the epoch.
pub proof fn law_plans_end_at_whole_seconds(millis: i64)
    ensures
        plan_end(Some(millis)) matches Some(at) ==> {
            &&& at.nanos as int % 1_000_000_000 == 0
            &&& millis >= 0 ==> 0 <= millis * 1_000_000 - at.nanos < 1_000_000_000
            &&& millis < 0 ==> 0 <= at.nanos - millis * 1_000_000 < 1_000_000_000
        },
        plan_end(None) is None,
{
}

/// Stored texts of two bytes a unit start with the lesser byte.
pub proof fn law_units_are_little_endian(bytes: Seq<u8>, i: int)
    requires
        0 <= i,
        2 * i + 1 < bytes.len(),
    ensures
        units_of(bytes).len() == bytes.len() / 2,
        units_of(bytes)[i] % 256 == bytes[2 * i],
        units_of(bytes)[i] / 256 == bytes[2 * i + 1],
{
}

/// The first window is of the day or of the messages, the second of the week or of
/// the flow actions; what is left goes before counts and resets at its own second.
pub proof fn law_windows_are_of_their_plan(payload: CachedPlan, fetched_at: Timestamp)
    ensures
        sample_of(payload, fetched_at) matches Some(sample) ==> {
            &&& payload.daily matches Some(quota) ==> (sample.primary matches Some(window) && (
            quota.reset_at_unix matches Some(at) ==> (window.resets_at matches Some(t) ==> t.nanos
                == at * 1_000_000_000)))
            &&& payload.weekly matches Some(quota) ==> (sample.secondary matches Some(window) && (
            quota.reset_at_unix matches Some(at) ==> (window.resets_at matches Some(t) ==> t.nanos
                == at * 1_000_000_000)))
            &&& payload.daily is None ==> Some(sample.primary) == counts_window(
                payload.messages,
                "messages"@,
            )
            &&& payload.weekly is None ==> Some(sample.secondary) == counts_window(
                payload.flow_actions,
                "flow actions"@,
            )
        },
{
}

/// A snapshot that is missing tells of a missing credential, one that changed meanwhile
/// of a provider to be tried again, and every other failure of unreadable data.
pub proof fn law_snapshots_tell_their_failure(e: SqliteSnapshotError)
    ensures
        snapshot_class(e) == ErrorKind::MissingCredential <==> (e is Missing || e is InvalidRoot),
        snapshot_class(e) == ErrorKind::ProviderUnavailable <==> e is Replaced,
        !(e is Missing) && !(e is InvalidRoot) && !(e is Replaced) ==> snapshot_class(e)
            == ErrorKind::Parse,
{
}

} // verus!
