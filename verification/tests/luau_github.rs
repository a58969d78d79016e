use lune::github::{
    find_release, find_release_asset, release_version_tag, request_headers, Client, Release,
    ReleaseAsset,
};
use lune::luau::{
    compile_result, load_source_text, CompileOptions, CompileOptionsInput, LoadOptions,
    LoadOptionsError, LoadOptionsInput,
};

#[test]
fn luau_compile_options_defaults_and_table() {
    let d = CompileOptions::default();
    assert_eq!((d.optimization_level, d.coverage_level, d.debug_level), (1, 0, 1));
    assert_eq!(CompileOptions::from_lua(&CompileOptionsInput::Nil).unwrap(), d);
    let o = CompileOptions::from_lua(&CompileOptionsInput::Table {
        optimization_level: Some(2),
        coverage_level: None,
        debug_level: Some(0),
    })
    .unwrap();
    assert_eq!((o.optimization_level, o.coverage_level, o.debug_level), (2, 0, 0));
    let e = CompileOptions::from_lua(&CompileOptionsInput::Other("number".to_string()))
        .unwrap_err();
    assert_eq!(e.to, "CompileOptions");
    assert_eq!(e.message, "Invalid compile options - expected table, got number");
}

#[test]
fn luau_compile_result_splits_errors() {
    assert_eq!(compile_result(vec![3, 1, 2]), Ok(vec![3, 1, 2]));
    let mut err = vec![0u8];
    err.extend_from_slice(b":1: syntax error");
    let expected = String::from_utf8(err.clone()).unwrap();
    assert_eq!(compile_result(err), Err(expected));
}

#[test]
fn luau_load_options() {
    assert_eq!(LoadOptions::default().debug_name, "luau.load(...)");
    assert_eq!(LoadOptions::from_lua(&LoadOptionsInput::Nil).unwrap().debug_name, "luau.load(...)");
    assert_eq!(
        LoadOptions::from_lua(&LoadOptionsInput::Table { debug_name: None }).unwrap().debug_name,
        "luau.load(...)"
    );
    assert_eq!(
        LoadOptions::from_lua(&LoadOptionsInput::Table { debug_name: Some("chunk".to_string()) })
            .unwrap()
            .debug_name,
        "chunk"
    );
    assert_eq!(
        LoadOptions::from_lua(&LoadOptionsInput::String(b"named".to_vec())).unwrap().debug_name,
        "named"
    );
    assert!(matches!(
        LoadOptions::from_lua(&LoadOptionsInput::String(vec![0xc3])),
        Err(LoadOptionsError::NotUtf8)
    ));
    match LoadOptions::from_lua(&LoadOptionsInput::Other("boolean".to_string())) {
        Err(LoadOptionsError::Type(e)) => {
            assert_eq!(e.to, "LoadOptions");
            assert_eq!(e.message, "Invalid load options - expected string or table, got boolean");
        }
        other => panic!("unexpected {:?}", other),
    }
}

#[test]
fn luau_load_source_trims_leading_whitespace() {
    let r: String = load_source_text("  \n\tprint(1) ").into_iter().collect();
    assert_eq!(r, "print(1) ");
    let r: String = load_source_text("").into_iter().collect();
    assert_eq!(r, "");
}

fn asset(name: Option<&str>) -> ReleaseAsset {
    ReleaseAsset {
        id: 1,
        url: "https://example.com/a".to_string(),
        name: name.map(|s| s.to_string()),
        label: None,
        content_type: "application/zip".to_string(),
        size: 10,
    }
}

fn release(tag: &str, assets: Vec<ReleaseAsset>) -> Release {
    Release {
        id: 7,
        url: "https://example.com/r".to_string(),
        tag_name: tag.to_string(),
        name: None,
        body: None,
        draft: false,
        prerelease: false,
        assets,
    }
}

#[test]
fn github_client_and_urls() {
    let c = Client::new();
    assert_eq!(c.github_owner, "filiptibell");
    assert_eq!(c.github_repo, "lune");
    assert_eq!(c.releases_url(), "https://api.github.com/repos/filiptibell/lune/releases");
    assert_eq!(release_version_tag("0.7.4"), "v0.7.4");
    let h = request_headers("agent", &vec![("Accept-Encoding".to_string(), "gzip".to_string())]);
    assert_eq!(h.len(), 4);
    assert_eq!(h[0], ("User-Agent".to_string(), "agent".to_string()));
    assert_eq!(h[1], ("Accept".to_string(), "application/vnd.github+json".to_string()));
    assert_eq!(h[2], ("X-GitHub-Api-Version".to_string(), "2022-11-28".to_string()));
    assert_eq!(h[3], ("Accept-Encoding".to_string(), "gzip".to_string()));
}

#[test]
fn github_find_release_and_asset() {
    let rs = vec![
        release("v0.1.0", vec![]),
        release("v0.2.0", vec![asset(None), asset(Some("lune-linux.zip")), asset(Some("lune-linux.zip"))]),
        release("v0.2.0", vec![]),
    ];
    assert_eq!(find_release(&rs, "v0.2.0"), Ok(1));
    assert_eq!(find_release(&rs, "v9.9.9"), Err("Failed to find release for version v9.9.9".to_string()));
    assert_eq!(find_release_asset(&rs[1], "lune-linux.zip"), Ok(1));
    assert_eq!(
        find_release_asset(&rs[0], "lune-linux.zip"),
        Err("Failed to find release asset 'lune-linux.zip' for release 'v0.1.0'".to_string())
    );
}
