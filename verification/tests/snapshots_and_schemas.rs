use oab_providers::registry::{ProviderId, ProviderNames};
use oab_providers::settings_catalog;
use oab_providers::settings_descriptor::{
    ProviderSettingChoice, ProviderSettingId, ProviderSettingsActionId,
    ProviderSettingsAvailability, ProviderSettingsCondition, ProviderSettingsControlDescriptor,
    ProviderSettingsGap,
};
use oab_providers::sqlite_snapshot;
use oab_providers::sqlite_snapshot::{
    CopyReport, FileLookup, FileSnapshot, SourceLookup, SqliteSnapshotError, StageAttemptError,
    StageStep,
};

fn file(size: u64) -> FileSnapshot {
    FileSnapshot {
        device: 1,
        inode: 2,
        size,
        modified_seconds: 3,
        modified_nanoseconds: 4,
        changed_seconds: 5,
        changed_nanoseconds: 6,
    }
}

fn found(size: u64) -> FileLookup {
    FileLookup::Found { regular: true, inside: true, snapshot: file(size) }
}

fn report(size: u64) -> CopyReport {
    CopyReport {
        opened: Some(file(size)),
        opened_regular: true,
        created: true,
        copied: Some(size),
        flushed: true,
        after: Some(file(size)),
    }
}

#[test]
fn databases_lie_below_their_root() {
    assert!(sqlite_snapshot::validate_relative_database("Default/Cookies").is_ok());
    for bad in ["", "/etc/passwd", "../Cookies", "a/../b", "./Cookies"] {
        assert_eq!(
            sqlite_snapshot::validate_relative_database(bad).err(),
            Some(SqliteSnapshotError::InvalidRelativePath)
        );
    }
    assert!(sqlite_snapshot::check_root("/home/x", Some(true), true).is_ok());
    assert_eq!(
        sqlite_snapshot::check_root("home", Some(true), true).err(),
        Some(SqliteSnapshotError::InvalidRoot)
    );
    assert_eq!(sqlite_snapshot::sidecar_path("/a/db", "-wal"), "/a/db-wal");
}

#[test]
fn files_are_inspected_against_their_bounds() {
    let source = SourceLookup {
        database: found(10),
        wal: FileLookup::NotFound,
        shared_memory: found(1),
        rollback_journal: FileLookup::NotFound,
    };
    let seen = sqlite_snapshot::inspect_source_snapshot(source).ok().unwrap();
    assert_eq!(seen.database, file(10));
    assert!(seen.wal.is_none());
    let missing = SourceLookup { database: FileLookup::NotFound, ..source };
    assert_eq!(
        sqlite_snapshot::inspect_source_snapshot(missing).err(),
        Some(SqliteSnapshotError::Missing)
    );
    let link = FileLookup::Found { regular: false, inside: true, snapshot: file(1) };
    assert_eq!(
        sqlite_snapshot::inspect_source_snapshot(SourceLookup { wal: link, ..source }).err(),
        Some(SqliteSnapshotError::UnsafeFile)
    );
    let large = SourceLookup { shared_memory: found(17 * 1024 * 1024), ..source };
    assert_eq!(
        sqlite_snapshot::inspect_source_snapshot(large).err(),
        Some(SqliteSnapshotError::TooLarge)
    );
    assert_eq!(SqliteSnapshotError::Missing.message(), "browser SQLite database is missing");
}

#[test]
fn copies_are_of_the_inspected_file() {
    assert!(sqlite_snapshot::check_copy(report(10), file(10), 100).is_ok());
    assert_eq!(
        sqlite_snapshot::check_copy(report(10), file(11), 100).err(),
        Some(StageAttemptError::Changed)
    );
    let short = CopyReport { copied: Some(9), ..report(10) };
    assert_eq!(
        sqlite_snapshot::check_copy(short, file(10), 100).err(),
        Some(StageAttemptError::Changed)
    );
    let unwritten = CopyReport { created: false, ..report(10) };
    assert_eq!(
        sqlite_snapshot::check_copy(unwritten, file(10), 100).err(),
        Some(StageAttemptError::Failure(SqliteSnapshotError::Open))
    );
    assert_eq!(
        sqlite_snapshot::check_copy(report(10), file(10), 9).err(),
        Some(StageAttemptError::Changed)
    );
}

#[test]
fn staging_ends() {
    let changed = Err(StageAttemptError::Changed);
    assert_eq!(sqlite_snapshot::after_attempt(changed, 1), StageStep::Retry);
    assert_eq!(
        sqlite_snapshot::after_attempt(changed, 3),
        StageStep::Fail(SqliteSnapshotError::Replaced)
    );
    assert_eq!(sqlite_snapshot::after_attempt(Ok(()), 2), StageStep::Use);
}

fn names(provider: ProviderId) -> ProviderNames {
    let variant = format!("{provider:?}");
    ProviderNames {
        display: provider.display_name().unwrap_or(&variant).to_owned(),
        id: variant.to_lowercase(),
    }
}

#[test]
fn wire_names_start_with_their_provider() {
    let owner = names(ProviderId::Claude);
    assert_eq!(
        ProviderSettingId::ClaudeUsageSource.as_str(&owner),
        format!("{}-usage-source", owner.id)
    );
    assert_eq!(ProviderSettingsGap::ClaudeSwap.as_str(&owner), format!("{}-swap", owner.id));
    assert_eq!(ProviderSettingId::ZaiApiKey.as_str(&owner), "zai-api-key");
    let schema = settings_catalog::settings_for(ProviderId::Claude, &owner).unwrap();
    assert_eq!(schema.accounts.unwrap().title, format!("{} credentials", owner.display));
    let swap = schema.controls.iter().find(|control| {
        control.item().id == ProviderSettingId::ClaudeSwapShowSingleAccount
    });
    assert_eq!(
        swap.unwrap().item().subtitle,
        format!(
            "Prefer {}-swap over the ambient {} account presentation.",
            owner.id, owner.display
        )
    );
}

#[test]
fn schemas_belong_to_their_providers() {
    for provider in [
        ProviderId::Codex,
        ProviderId::Claude,
        ProviderId::Grok,
        ProviderId::Copilot,
        ProviderId::Zai,
    ] {
        let schema = settings_catalog::settings_for(provider, &names(provider)).unwrap();
        assert_eq!(schema.provider, provider);
        assert_eq!(schema.schema_version, 1);
        for (i, control) in schema.controls.iter().enumerate() {
            let id = control.item().id;
            assert!(schema.controls[i + 1..].iter().all(|other| other.item().id != id));
            let actions = match control {
                ProviderSettingsControlDescriptor::Picker(d) => &d.actions,
                ProviderSettingsControlDescriptor::Toggle(d) => &d.actions,
                ProviderSettingsControlDescriptor::PlainOption(d) => &d.actions,
                ProviderSettingsControlDescriptor::SecretSlot(d) => &d.actions,
            };
            for action in actions {
                assert!(schema.action(*action).is_some());
            }
        }
    }
    assert!(settings_catalog::settings_for(ProviderId::Venice, &names(ProviderId::Venice)).is_none());
}

#[test]
fn controls_are_found_by_identity() {
    let schema = settings_catalog::settings_for(ProviderId::Zai, &names(ProviderId::Zai)).unwrap();
    let region = schema.control(ProviderSettingId::ZaiApiRegion).unwrap();
    assert_eq!(region.item().title, "API region");
    assert!(region.is_implemented());
    match region {
        ProviderSettingsControlDescriptor::Picker(picker) => {
            assert_eq!(picker.options[1].choice.as_str(), "bigmodel-cn");
        }
        _ => panic!("a picker"),
    }
    assert!(schema.control(ProviderSettingId::CodexUsageSource).is_none());
    assert!(schema.action(ProviderSettingsActionId::OpenGrokUsage).is_none());
    let gap = ProviderSettingsAvailability::Unavailable { gap: ProviderSettingsGap::ClaudeSwap };
    assert!(!gap.is_implemented());
}

#[test]
fn conditions_name_their_operands() {
    let schema = settings_catalog::settings_for(ProviderId::Grok, &names(ProviderId::Grok)).unwrap();
    let header = schema.control(ProviderSettingId::GrokCookieHeader).unwrap();
    match &header.item().visible_when {
        ProviderSettingsCondition::All { conditions } => {
            assert_eq!(conditions.len(), 2);
            assert!(matches!(
                conditions[1],
                ProviderSettingsCondition::Choice {
                    setting: ProviderSettingId::GrokCookieSource,
                    choice: ProviderSettingChoice::Manual
                }
            ));
        }
        _ => panic!("all of two"),
    }
}
