//! Building standalone executables: which base executable to start from,
//! where a cross-compilation target is cached and downloaded from, and the
//! errors of getting it.

use vstd::prelude::*;

use crate::text::{chars_eq_str, str_chars};

verus! {

/// The extension of executables for a target: `exe` for 64-bit Windows,
/// none otherwise.
pub open spec fn spec_target_exe_extension(target: Seq<char>) -> Seq<char> {
    if target == "windows-x86_64"@ {
        "exe"@
    } else {
        ""@
    }
}

/// The extension of executables for a target.
pub fn target_exe_extension(target: &str) -> (r: &'static str)
    ensures
        r@ == spec_target_exe_extension(target@),
{
    if chars_eq_str(str_chars(target).as_slice(), "windows-x86_64") {
        "exe"
    } else {
        ""
    }
}

/// The base executable to build from.
#[derive(Debug)]
pub enum BaseExePlan {
    /// The running executable; the output gets the host's executable
    /// extension.
    Current,
    /// A cached executable for another target, by its file name in the
    /// cache directory; the output gets the target's extension.
    Cached { file_name: String, output_extension: String },
}

/// The base executable to build from: the running one when no target or
/// the host's own target is asked for, else the cached executable
/// `lune-{target}.{extension}`.
pub fn base_exe_plan(target: Option<&str>, current_target: &str) -> (r: BaseExePlan)
    ensures
        match target {
            None => r is Current,
            Some(t) => if t@ == current_target@ {
                r is Current
            } else {
                r matches BaseExePlan::Cached { file_name, output_extension } && file_name@
                    == "lune-"@ + t@ + "."@ + spec_target_exe_extension(t@) && output_extension@
                    == spec_target_exe_extension(t@)
            },
        },
{
    match target {
        None => BaseExePlan::Current,
        Some(t) => {
            let ext = target_exe_extension(t);
            if crate::text::chars_eq(str_chars(t).as_slice(), str_chars(current_target).as_slice()) {
                BaseExePlan::Current
            } else {
                let mut file_name = "lune-".to_string();
                file_name.append(t);
                file_name.append(".");
                file_name.append(ext);
                BaseExePlan::Cached { file_name, output_extension: ext.to_string() }
            }
        },
    }
}

/// The host's target: its operating system and architecture joined by `-`.
pub fn current_target(os: &str, arch: &str) -> (r: String)
    ensures
        r@ == os@ + "-"@ + arch@,
{
    let mut r = os.to_string();
    r.append("-");
    r.append(arch);
    r
}

/// The name of a target's release: `lune-{version}-{target}`.
pub fn target_triple(version: &str, target: &str) -> (r: String)
    ensures
        r@ == "lune-"@ + version@ + "-"@ + target@,
{
    let mut r = "lune-".to_string();
    r.append(version);
    r.append("-");
    r.append(target);
    r
}

/// Where a target's release is downloaded from.
pub fn release_url(version: &str, target: &str) -> (r: String)
    ensures
        r@ == "https://github.com/lune-org/lune/releases/download/v"@ + version@ + "/"@ + "lune-"@
            + version@ + "-"@ + target@ + ".zip"@,
{
    let mut r = "https://github.com/lune-org/lune/releases/download/v".to_string();
    r.append(version);
    r.append("/");
    let triple = target_triple(version, target);
    r.append(triple.as_str());
    r.append(".zip");
    assert(r@ =~= "https://github.com/lune-org/lune/releases/download/v"@ + version@ + "/"@
        + "lune-"@ + version@ + "-"@ + target@ + ".zip"@);
    r
}

/// The name of the executable in a release's archive: `lune`, with a dot
/// and the extension when there is one.
pub fn binary_file_name(extension: &str) -> (r: String)
    ensures
        r@ == (if extension@.len() == 0 {
            "lune"@
        } else {
            "lune"@ + "."@ + extension@
        }),
{
    let mut r = "lune".to_string();
    if str_chars(extension).len() != 0 {
        r.append(".");
        r.append(extension);
    }
    r
}

/// Errors of getting a base executable.
#[derive(Debug)]
pub enum BuildError {
    /// The release has no executable for the target.
    ReleaseTargetNotFound(String),
    /// The archive holds no executable of that name.
    ZippedBinaryNotFound(String),
    /// The download failed; the value is what the client reported.
    Download(String),
    /// The archive could not be read; the value is what was reported.
    Unzip(String),
    /// Reading the archive panicked; the value is what was reported.
    UnzipJoin(String),
    /// Reading or writing a file failed; the value is what was reported.
    IoError(String),
}

impl BuildError {
    /// The message of the error.
    pub fn message(&self) -> (r: String)
        ensures
            match self {
                BuildError::ReleaseTargetNotFound(t) => r@ == "failed to find lune target '"@ + t@
                    + "' in GitHub release"@,
                BuildError::ZippedBinaryNotFound(b) => r@ == "failed to find lune binary '"@ + b@
                    + "' in downloaded zip file"@,
                BuildError::Download(e) => r@ == "failed to download lune binary: "@ + e@,
                BuildError::Unzip(e) => r@ == "failed to unzip lune binary: "@ + e@,
                BuildError::UnzipJoin(e) => r@ == "panicked while unzipping lune binary: "@ + e@,
                BuildError::IoError(e) => r@ == "io error: "@ + e@,
            },
    {
        match self {
            BuildError::ReleaseTargetNotFound(t) => {
                let mut r = "failed to find lune target '".to_string();
                r.append(t.as_str());
                r.append("' in GitHub release");
                r
            },
            BuildError::ZippedBinaryNotFound(b) => {
                let mut r = "failed to find lune binary '".to_string();
                r.append(b.as_str());
                r.append("' in downloaded zip file");
                r
            },
            BuildError::Download(e) => {
                let mut r = "failed to download lune binary: ".to_string();
                r.append(e.as_str());
                r
            },
            BuildError::Unzip(e) => {
                let mut r = "failed to unzip lune binary: ".to_string();
                r.append(e.as_str());
                r
            },
            BuildError::UnzipJoin(e) => {
                let mut r = "panicked while unzipping lune binary: ".to_string();
                r.append(e.as_str());
                r
            },
            BuildError::IoError(e) => {
                let mut r = "io error: ".to_string();
                r.append(e.as_str());
                r
            },
        }
    }
}

/// What a download's status means: nothing for success, the target not
/// being released for 404, and a failed download otherwise; `error` is what
/// the client reports for an unsuccessful status.
pub fn download_status(target: &str, status: u16, error: &str) -> (r: Option<BuildError>)
    ensures
        200 <= status < 300 ==> r is None,
        status == 404 ==> (r matches Some(BuildError::ReleaseTargetNotFound(t)) && t@ == target@),
        !(200 <= status < 300) && status != 404 ==> (r matches Some(BuildError::Download(e)) && e@
            == error@),
{
    if 200 <= status && status < 300 {
        None
    } else if status == 404 {
        Some(BuildError::ReleaseTargetNotFound(target.to_string()))
    } else {
        Some(BuildError::Download(error.to_string()))
    }
}

} // verus!
