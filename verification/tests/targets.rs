use lune::build_target::{BuildTarget, BuildTargetArch, BuildTargetOS};
use lune::metachunk::{is_standalone_binary, MetaChunk, MetaChunkError};
use lune::standalone::{
    base_exe_plan, binary_file_name, current_target, download_status, release_url,
    target_exe_extension, target_triple, BaseExePlan, BuildError,
};

#[test]
fn target_current_system_linux_x86_64() {
    let t = BuildTarget::current_system("linux", "x86_64");
    assert_eq!(t.os, BuildTargetOS::Linux);
    assert_eq!(t.arch, BuildTargetArch::X86_64);
    assert!(t.is_current_system("linux", "x86_64"));
    assert!(!t.is_current_system("windows", "x86_64"));
    assert!(!t.is_current_system("linux", "aarch64"));
}

#[test]
fn target_exe_extensions_and_suffixes() {
    let win = BuildTarget { os: BuildTargetOS::Windows, arch: BuildTargetArch::X86_64 };
    let mac = BuildTarget { os: BuildTargetOS::MacOS, arch: BuildTargetArch::Aarch64 };
    assert_eq!(win.exe_extension(), "exe");
    assert_eq!(win.exe_suffix(), ".exe");
    assert_eq!(mac.exe_extension(), "");
    assert_eq!(mac.exe_suffix(), "");
    assert_eq!(BuildTargetOS::Linux.exe_extension(), "");
    assert_eq!(BuildTargetOS::Windows.exe_suffix(), ".exe");
}

#[test]
fn target_text_roundtrip() {
    for os in [BuildTargetOS::Windows, BuildTargetOS::Linux, BuildTargetOS::MacOS] {
        for arch in [BuildTargetArch::X86_64, BuildTargetArch::Aarch64] {
            let t = BuildTarget { os, arch };
            let text = t.to_string();
            let back = BuildTarget::from_str(&text).unwrap();
            assert_eq!(back, t);
        }
    }
    assert_eq!(
        BuildTarget { os: BuildTargetOS::MacOS, arch: BuildTargetArch::Aarch64 }.to_string(),
        "macos-aarch64"
    );
}

#[test]
fn target_parse_aliases_and_errors() {
    let t = BuildTarget::from_str("Win-X64").unwrap();
    assert_eq!(t.os, BuildTargetOS::Windows);
    assert_eq!(t.arch, BuildTargetArch::X86_64);
    let t = BuildTarget::from_str("darwin-arm64").unwrap();
    assert_eq!(t.os, BuildTargetOS::MacOS);
    assert_eq!(t.arch, BuildTargetArch::Aarch64);
    assert_eq!(BuildTarget::from_str("linux"), Err("target must be in the form `os-arch`"));
    assert_eq!(BuildTarget::from_str("plan9-x86_64"), Err("invalid target OS"));
    assert_eq!(BuildTarget::from_str("linux-mips"), Err("invalid target architecture"));
}

#[test]
fn target_cache_file_name_and_path() {
    let win = BuildTarget { os: BuildTargetOS::Windows, arch: BuildTargetArch::X86_64 };
    assert_eq!(win.cache_file_name(), "windows-x86_64exe");
    let linux = BuildTarget { os: BuildTargetOS::Linux, arch: BuildTargetArch::Aarch64 };
    let p = linux.cache_path("/home/u");
    assert_eq!(p, "/home/u/.lune/target/linux-aarch64");
}

#[test]
fn metachunk_roundtrip() {
    let chunk = MetaChunk { bytecode: vec![1, 2, 3, 4, 5] };
    let bytes = chunk.to_bytes();
    assert_eq!(bytes.len(), 5 + 16);
    assert_eq!(&bytes[5..13], &[0, 0, 0, 0, 0, 0, 0, 5]);
    assert_eq!(&bytes[13..], b"cr3sc3nt");
    let back = MetaChunk::from_bytes(&bytes).unwrap();
    assert_eq!(back.bytecode, vec![1, 2, 3, 4, 5]);
}

#[test]
fn metachunk_behind_base_executable() {
    let chunk = MetaChunk { bytecode: b"print('hi')".to_vec() };
    let mut binary = b"BASE-EXECUTABLE".to_vec();
    binary.extend(chunk.to_bytes());
    assert!(is_standalone_binary(&binary));
    let back = MetaChunk::from_bytes(&binary).unwrap();
    assert_eq!(back.bytecode, b"print('hi')".to_vec());
}

#[test]
fn metachunk_errors() {
    assert!(matches!(MetaChunk::from_bytes(b"short"), Err(MetaChunkError::NotStandalone)));
    assert!(matches!(
        MetaChunk::from_bytes(b"0123456789abcdefnot magic"),
        Err(MetaChunkError::NotStandalone)
    ));
    let mut huge = vec![0xFFu8; 8];
    huge.extend_from_slice(b"cr3sc3nt");
    if usize::MAX as u64 != u64::MAX {
        assert!(matches!(MetaChunk::from_bytes(&huge), Err(MetaChunkError::SizeTooLarge)));
    }
    assert_eq!(MetaChunkError::NotStandalone.message(), "not a standalone binary");
    assert!(!is_standalone_binary(b"abc"));
}

#[test]
fn standalone_target_names() {
    assert_eq!(target_exe_extension("windows-x86_64"), "exe");
    assert_eq!(target_exe_extension("linux-x86_64"), "");
    assert_eq!(current_target("linux", "x86_64"), "linux-x86_64");
    assert_eq!(target_triple("0.8.0", "linux-aarch64"), "lune-0.8.0-linux-aarch64");
    assert_eq!(
        release_url("0.8.0", "linux-aarch64"),
        "https://github.com/lune-org/lune/releases/download/v0.8.0/lune-0.8.0-linux-aarch64.zip"
    );
    assert_eq!(binary_file_name(""), "lune");
    assert_eq!(binary_file_name("exe"), "lune.exe");
}

#[test]
fn standalone_base_exe_plan() {
    assert!(matches!(base_exe_plan(None, "linux-x86_64"), BaseExePlan::Current));
    assert!(matches!(base_exe_plan(Some("linux-x86_64"), "linux-x86_64"), BaseExePlan::Current));
    match base_exe_plan(Some("windows-x86_64"), "linux-x86_64") {
        BaseExePlan::Cached { file_name, output_extension } => {
            assert_eq!(file_name, "lune-windows-x86_64.exe");
            assert_eq!(output_extension, "exe");
        }
        BaseExePlan::Current => panic!("expected a cached executable"),
    }
    match base_exe_plan(Some("macos-aarch64"), "linux-x86_64") {
        BaseExePlan::Cached { file_name, output_extension } => {
            assert_eq!(file_name, "lune-macos-aarch64.");
            assert_eq!(output_extension, "");
        }
        BaseExePlan::Current => panic!("expected a cached executable"),
    }
}

#[test]
fn standalone_download_status_and_messages() {
    assert!(download_status("linux-x86_64", 200, "").is_none());
    let e = download_status("linux-x86_64", 404, "").unwrap();
    assert_eq!(e.message(), "failed to find lune target 'linux-x86_64' in GitHub release");
    let e = download_status("linux-x86_64", 500, "server error").unwrap();
    assert_eq!(e.message(), "failed to download lune binary: server error");
    assert_eq!(
        BuildError::ZippedBinaryNotFound("lune.exe".to_string()).message(),
        "failed to find lune binary 'lune.exe' in downloaded zip file"
    );
    assert_eq!(BuildError::IoError("denied".to_string()).message(), "io error: denied");
}

#[test]
fn metachunk_size_out_of_bounds_is_an_error() {
    // a stored length of 5 with only 3 bytes in front of the trailer
    let mut short = vec![1u8, 2, 3];
    short.extend_from_slice(&5u64.to_be_bytes());
    short.extend_from_slice(b"cr3sc3nt");
    assert!(matches!(MetaChunk::from_bytes(&short), Err(MetaChunkError::SizeOutOfBounds)));
    assert_eq!(MetaChunkError::SizeOutOfBounds.message(), "bytecode size exceeds the binary");
}
