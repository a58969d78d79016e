use lune::builtins::{strip_dir_prefix, FsMetadata, FsMetadataKind, LuneBuiltin};

const ALL: [LuneBuiltin; 9] = [
    LuneBuiltin::DateTime,
    LuneBuiltin::Fs,
    LuneBuiltin::Luau,
    LuneBuiltin::Net,
    LuneBuiltin::Task,
    LuneBuiltin::Process,
    LuneBuiltin::Regex,
    LuneBuiltin::Serde,
    LuneBuiltin::Stdio,
];

#[test]
fn builtin_names_roundtrip() {
    for b in ALL {
        assert_eq!(LuneBuiltin::from_str(b.name()), Ok(b));
    }
    assert_eq!(LuneBuiltin::DateTime.name(), "datetime");
    assert_eq!(LuneBuiltin::from_str("  NET "), Ok(LuneBuiltin::Net));
    assert_eq!(
        LuneBuiltin::from_str("http"),
        Err("Unknown builtin library 'http'".to_string())
    );
    assert_eq!(
        LuneBuiltin::Fs.create_error_context(),
        "Failed to create builtin library 'fs'"
    );
}

#[test]
fn builtin_metadata_kinds() {
    for k in [FsMetadataKind::Nothing, FsMetadataKind::File, FsMetadataKind::Dir, FsMetadataKind::Symlink] {
        assert_eq!(FsMetadataKind::from_str(k.name()), Ok(k));
    }
    assert_eq!(FsMetadataKind::from_str(" Dir"), Ok(FsMetadataKind::Dir));
    assert_eq!(FsMetadataKind::from_str("pipe"), Err("Invalid metadata kind"));
    assert_eq!(FsMetadataKind::from_file_type(true, false, true), FsMetadataKind::File);
    assert_eq!(FsMetadataKind::from_file_type(false, true, true), FsMetadataKind::Dir);
    assert_eq!(FsMetadataKind::from_file_type(false, false, true), FsMetadataKind::Symlink);
    assert_eq!(FsMetadataKind::Nothing.into_lua(), None);
    assert_eq!(FsMetadataKind::File.into_lua(), Some("file"));
}

#[test]
fn builtin_metadata_not_found() {
    let m = FsMetadata::not_found();
    assert_eq!(m.kind, FsMetadataKind::Nothing);
    assert!(!m.exists);
    assert!(m.created_at.is_none() && m.modified_at.is_none() && m.accessed_at.is_none());
    assert!(m.permissions.is_none());
}

#[test]
fn builtin_dir_entries_lose_their_prefix() {
    let entries = vec!["dir/a.txt".to_string(), " dir/sub ".to_string()];
    assert_eq!(strip_dir_prefix("dir", '/', &entries), vec!["a.txt".to_string(), "sub".to_string()]);
    assert_eq!(strip_dir_prefix("dir/", '/', &entries), vec!["a.txt".to_string(), "sub".to_string()]);
}

#[test]
fn builtin_names_in_any_case_with_spaces() {
    for b in ALL {
        let padded = format!(" {} ", b.name().to_ascii_uppercase());
        assert_eq!(LuneBuiltin::from_str(&padded), Ok(b));
    }
    assert_eq!(LuneBuiltin::from_str("nope"), Err("Unknown builtin library 'nope'".to_string()));
}
