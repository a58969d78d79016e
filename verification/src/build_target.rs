//! Targets (operating system and architecture) that standalone binaries
//! can be built for.

use vstd::prelude::*;

use crate::text::{
    ascii_lower, find_char, find_char_exec, lemma_find_char, chars_eq_str, chars_to_string, str_chars, sub_chars, to_ascii_lower, trim,
    trim_chars,
};

verus! {

/// A target operating system.
#[derive(Debug, Clone, Copy, PartialEq, Eq, Structural)]
pub enum BuildTargetOS {
    Windows,
    Linux,
    MacOS,
}

/// A target processor architecture.
#[derive(Debug, Clone, Copy, PartialEq, Eq, Structural)]
pub enum BuildTargetArch {
    X86_64,
    Aarch64,
}

/// A full target: operating system and architecture, written `os-arch`.
#[derive(Debug, Clone, Copy, PartialEq, Eq, Structural)]
pub struct BuildTarget {
    pub os: BuildTargetOS,
    pub arch: BuildTargetArch,
}

/// The operating system named by `std::env::consts::OS`, if supported.
pub open spec fn os_from_system_name(name: Seq<char>) -> Option<BuildTargetOS> {
    if name == "windows"@ {
        Some(BuildTargetOS::Windows)
    } else if name == "linux"@ {
        Some(BuildTargetOS::Linux)
    } else if name == "macos"@ {
        Some(BuildTargetOS::MacOS)
    } else {
        None
    }
}

/// The architecture named by `std::env::consts::ARCH`, if supported.
pub open spec fn arch_from_system_name(name: Seq<char>) -> Option<BuildTargetArch> {
    if name == "x86_64"@ {
        Some(BuildTargetArch::X86_64)
    } else if name == "aarch64"@ {
        Some(BuildTargetArch::Aarch64)
    } else {
        None
    }
}

/// What `BuildTargetOS::from_str` accepts: the trimmed, lowercased name.
pub open spec fn parse_os(s: Seq<char>) -> Option<BuildTargetOS> {
    let n = ascii_lower(trim(s));
    if n == "win"@ || n == "windows"@ {
        Some(BuildTargetOS::Windows)
    } else if n == "linux"@ {
        Some(BuildTargetOS::Linux)
    } else if n == "mac"@ || n == "macos"@ || n == "darwin"@ {
        Some(BuildTargetOS::MacOS)
    } else {
        None
    }
}

/// What `BuildTargetArch::from_str` accepts: the trimmed, lowercased name.
pub open spec fn parse_arch(s: Seq<char>) -> Option<BuildTargetArch> {
    let n = ascii_lower(trim(s));
    if n == "x86_64"@ || n == "x64"@ {
        Some(BuildTargetArch::X86_64)
    } else if n == "aarch64"@ || n == "arm64"@ {
        Some(BuildTargetArch::Aarch64)
    } else {
        None
    }
}

/// The text of an operating system, as its `Display` writes it.
pub open spec fn os_text(os: BuildTargetOS) -> Seq<char> {
    match os {
        BuildTargetOS::Windows => "windows"@,
        BuildTargetOS::Linux => "linux"@,
        BuildTargetOS::MacOS => "macos"@,
    }
}

/// The text of an architecture, as its `Display` writes it.
pub open spec fn arch_text(arch: BuildTargetArch) -> Seq<char> {
    match arch {
        BuildTargetArch::X86_64 => "x86_64"@,
        BuildTargetArch::Aarch64 => "aarch64"@,
    }
}

/// The text of a target: `os-arch`.
pub open spec fn target_text(t: BuildTarget) -> Seq<char> {
    os_text(t.os) + "-"@ + arch_text(t.arch)
}

/// The executable extension of an operating system, without a dot.
pub open spec fn os_exe_extension(os: BuildTargetOS) -> Seq<char> {
    match os {
        BuildTargetOS::Windows => "exe"@,
        _ => ""@,
    }
}

/// The executable suffix of an operating system, with its dot.
pub open spec fn os_exe_suffix(os: BuildTargetOS) -> Seq<char> {
    match os {
        BuildTargetOS::Windows => ".exe"@,
        _ => ""@,
    }
}

/// What `BuildTarget::from_str` gives: the text is split at its first `-`,
/// then each side is parsed.
pub open spec fn parse_target(s: Seq<char>) -> Result<BuildTarget, Seq<char>> {
    match find_char(s, '-') {
        None => Err("target must be in the form `os-arch`"@),
        Some(i) => match parse_os(s.take(i)) {
            None => Err("invalid target OS"@),
            Some(os) => match parse_arch(s.skip(i + 1)) {
                None => Err("invalid target architecture"@),
                Some(arch) => Ok(BuildTarget { os, arch }),
            },
        },
    }
}

/// The `&'static str` error of a parse, by its view.
pub open spec fn err_view<T>(r: Result<T, &'static str>) -> Result<T, Seq<char>> {
    match r {
        Ok(v) => Ok(v),
        Err(e) => Err(e@),
    }
}

impl BuildTargetOS {
    /// The operating system that `std::env::consts::OS` names.
    pub fn current_system(os_name: &str) -> (r: Self)
        requires
            os_from_system_name(os_name@) is Some,
        ensures
            Some(r) == os_from_system_name(os_name@),
    {
        if chars_eq_str(str_chars(os_name).as_slice(), "windows") {
            BuildTargetOS::Windows
        } else if chars_eq_str(str_chars(os_name).as_slice(), "linux") {
            BuildTargetOS::Linux
        } else {
            BuildTargetOS::MacOS
        }
    }

    /// The executable extension, without a dot.
    pub fn exe_extension(self) -> (r: &'static str)
        ensures
            r@ == os_exe_extension(self),
    {
        match self {
            BuildTargetOS::Windows => "exe",
            _ => "",
        }
    }

    /// The executable suffix, with its dot.
    pub fn exe_suffix(self) -> (r: &'static str)
        ensures
            r@ == os_exe_suffix(self),
    {
        match self {
            BuildTargetOS::Windows => ".exe",
            _ => "",
        }
    }

    /// The name, as `Display` writes it.
    pub fn as_str(self) -> (r: &'static str)
        ensures
            r@ == os_text(self),
    {
        match self {
            BuildTargetOS::Windows => "windows",
            BuildTargetOS::Linux => "linux",
            BuildTargetOS::MacOS => "macos",
        }
    }

    /// The name, as `to_string` gives it.
    pub fn to_string(self) -> (r: String)
        ensures
            r@ == os_text(self),
    {
        self.as_str().to_string()
    }

    /// Parses an operating system name; surrounding whitespace and case
    /// are ignored.
    pub fn from_str(s: &str) -> (r: Result<Self, &'static str>)
        ensures
            err_view(r) == (match parse_os(s@) {
                Some(os) => Ok(os),
                None => Err("invalid target OS"@),
            }),
    {
        let n = to_ascii_lower(trim_chars(str_chars(s).as_slice()).as_slice());
        if chars_eq_str(n.as_slice(), "win") || chars_eq_str(n.as_slice(), "windows") {
            Ok(BuildTargetOS::Windows)
        } else if chars_eq_str(n.as_slice(), "linux") {
            Ok(BuildTargetOS::Linux)
        } else if chars_eq_str(n.as_slice(), "mac") || chars_eq_str(n.as_slice(), "macos")
            || chars_eq_str(n.as_slice(), "darwin") {
            Ok(BuildTargetOS::MacOS)
        } else {
            Err("invalid target OS")
        }
    }
}

impl BuildTargetArch {
    /// The architecture that `std::env::consts::ARCH` names.
    pub fn current_system(arch_name: &str) -> (r: Self)
        requires
            arch_from_system_name(arch_name@) is Some,
        ensures
            Some(r) == arch_from_system_name(arch_name@),
    {
        if chars_eq_str(str_chars(arch_name).as_slice(), "x86_64") {
            BuildTargetArch::X86_64
        } else {
            BuildTargetArch::Aarch64
        }
    }

    /// The name, as `Display` writes it.
    pub fn as_str(self) -> (r: &'static str)
        ensures
            r@ == arch_text(self),
    {
        match self {
            BuildTargetArch::X86_64 => "x86_64",
            BuildTargetArch::Aarch64 => "aarch64",
        }
    }

    /// The name, as `to_string` gives it.
    pub fn to_string(self) -> (r: String)
        ensures
            r@ == arch_text(self),
    {
        self.as_str().to_string()
    }

    /// Parses an architecture name; surrounding whitespace and case are
    /// ignored.
    pub fn from_str(s: &str) -> (r: Result<Self, &'static str>)
        ensures
            err_view(r) == (match parse_arch(s@) {
                Some(arch) => Ok(arch),
                None => Err("invalid target architecture"@),
            }),
    {
        let n = to_ascii_lower(trim_chars(str_chars(s).as_slice()).as_slice());
        if chars_eq_str(n.as_slice(), "x86_64") || chars_eq_str(n.as_slice(), "x64") {
            Ok(BuildTargetArch::X86_64)
        } else if chars_eq_str(n.as_slice(), "aarch64") || chars_eq_str(n.as_slice(), "arm64") {
            Ok(BuildTargetArch::Aarch64)
        } else {
            Err("invalid target architecture")
        }
    }
}

/// The directory where base executables of other targets are cached:
/// `.lune/target` in the home directory.
pub open spec fn spec_cache_dir(home_dir: Seq<char>) -> Seq<char> {
    crate::paths::spec_path_join(crate::paths::spec_path_join(home_dir, ".lune"@), "target"@)
}

impl BuildTarget {
    /// The target of the running system, from `std::env::consts::OS` and
    /// `std::env::consts::ARCH`.
    pub fn current_system(os_name: &str, arch_name: &str) -> (r: Self)
        requires
            os_from_system_name(os_name@) is Some,
            arch_from_system_name(arch_name@) is Some,
        ensures
            Some(r.os) == os_from_system_name(os_name@),
            Some(r.arch) == arch_from_system_name(arch_name@),
    {
        BuildTarget {
            os: BuildTargetOS::current_system(os_name),
            arch: BuildTargetArch::current_system(arch_name),
        }
    }

    /// Whether this is the target of the running system.
    pub fn is_current_system(&self, os_name: &str, arch_name: &str) -> (r: bool)
        requires
            os_from_system_name(os_name@) is Some,
            arch_from_system_name(arch_name@) is Some,
        ensures
            r == (Some(self.os) == os_from_system_name(os_name@) && Some(self.arch)
                == arch_from_system_name(arch_name@)),
    {
        let os = BuildTargetOS::current_system(os_name);
        let arch = BuildTargetArch::current_system(arch_name);
        self.os == os && self.arch == arch
    }

    /// The executable extension of the target's operating system.
    pub fn exe_extension(&self) -> (r: &'static str)
        ensures
            r@ == os_exe_extension(self.os),
    {
        self.os.exe_extension()
    }

    /// The executable suffix of the target's operating system.
    pub fn exe_suffix(&self) -> (r: &'static str)
        ensures
            r@ == os_exe_suffix(self.os),
    {
        self.os.exe_suffix()
    }

    /// The text `os-arch`, as `Display` writes it.
    pub fn to_string(&self) -> (r: String)
        ensures
            r@ == target_text(*self),
    {
        let mut s = self.os.as_str().to_string();
        s.append("-");
        s.append(self.arch.as_str());
        s
    }

    /// The file name under which the target's base executable is cached:
    /// the target text followed by the executable extension.
    pub fn cache_file_name(&self) -> (r: String)
        ensures
            r@ == target_text(*self) + os_exe_extension(self.os),
    {
        let mut s = self.to_string();
        s.append(self.os.exe_extension());
        s
    }

    /// The path of the cached base executable: the file named by
    /// `cache_file_name` in the cache directory `.lune/target` of the home
    /// directory `home_dir`.
    pub fn cache_path(&self, home_dir: &str) -> (r: String)
        ensures
            r@ == crate::paths::spec_path_join(
                spec_cache_dir(home_dir@),
                target_text(*self) + os_exe_extension(self.os),
            ),
    {
        let lune_dir = crate::paths::path_join(home_dir, ".lune");
        let cache_dir = crate::paths::path_join(lune_dir.as_str(), "target");
        let name = self.cache_file_name();
        crate::paths::path_join(cache_dir.as_str(), name.as_str())
    }

    /// Parses a target written `os-arch`.
    pub fn from_str(s: &str) -> (r: Result<Self, &'static str>)
        ensures
            err_view(r) == parse_target(s@),
    {
        let cs = str_chars(s);
        match find_char_exec(cs.as_slice(), '-') {
            None => Err("target must be in the form `os-arch`"),
            Some(i) => {
                let n = cs.len();
                assert(i < n);
                let left = chars_to_string(sub_chars(cs.as_slice(), 0, i).as_slice());
                let right = chars_to_string(sub_chars(cs.as_slice(), i + 1, n).as_slice());
                assert(cs@.subrange(0, i as int) =~= s@.take(i as int));
                assert(cs@.subrange(i + 1, cs@.len() as int) =~= s@.skip(i + 1));
                let os = match BuildTargetOS::from_str(left.as_str()) {
                    Ok(os) => os,
                    Err(e) => return Err(e),
                };
                let arch = match BuildTargetArch::from_str(right.as_str()) {
                    Ok(arch) => arch,
                    Err(e) => return Err(e),
                };
                Ok(BuildTarget { os, arch })
            },
        }
    }
}

} // verus!

verus! {

proof fn lemma_trim_plain(s: Seq<char>)
    requires
        forall|k: int| 0 <= k < s.len() ==> !crate::text::is_ws(#[trigger] s[k]),
    ensures
        trim(s) == s,
{
    reveal_with_fuel(crate::text::trim_start, 1);
    reveal_with_fuel(crate::text::trim_end, 1);
}

proof fn lemma_lower_plain(s: Seq<char>)
    requires
        forall|k: int| 0 <= k < s.len() ==> !('A' <= #[trigger] s[k] && s[k] <= 'Z'),
    ensures
        ascii_lower(s) == s,
{
    assert(ascii_lower(s) =~= s);
}

/// Parsing the name of an operating system, as `Display` writes it, gives
/// that operating system back.
pub proof fn lemma_os_text_roundtrip(os: BuildTargetOS)
    ensures
        parse_os(os_text(os)) == Some(os),
{
    reveal_strlit("windows");
    reveal_strlit("linux");
    reveal_strlit("macos");
    reveal_strlit("win");
    reveal_strlit("mac");
    reveal_strlit("darwin");
    let s = os_text(os);
    lemma_trim_plain(s);
    lemma_lower_plain(s);
}

/// Parsing the name of an architecture, as `Display` writes it, gives
/// that architecture back.
pub proof fn lemma_arch_text_roundtrip(arch: BuildTargetArch)
    ensures
        parse_arch(arch_text(arch)) == Some(arch),
{
    reveal_strlit("x86_64");
    reveal_strlit("aarch64");
    reveal_strlit("x64");
    reveal_strlit("arm64");
    let s = arch_text(arch);
    lemma_trim_plain(s);
    lemma_lower_plain(s);
}

/// A target parsed back from its text `os-arch` is the same target.
pub proof fn lemma_target_text_roundtrip(t: BuildTarget)
    ensures
        parse_target(target_text(t)) == Ok::<BuildTarget, Seq<char>>(t),
{
    reveal_strlit("windows");
    reveal_strlit("linux");
    reveal_strlit("macos");
    reveal_strlit("x86_64");
    reveal_strlit("aarch64");
    reveal_strlit("-");
    let o = os_text(t.os);
    let a = arch_text(t.arch);
    let s = target_text(t);
    assert(forall|k: int| 0 <= k < o.len() ==> o[k] != '-');
    assert(s =~= o + seq!['-'] + a);
    lemma_find_char(s, '-');
    let i = o.len() as int;
    assert(s[i] == '-');
    assert(forall|k: int| 0 <= k < i ==> s[k] == o[k]);
    assert(find_char(s, '-') == Some(i));
    assert(s.take(i) =~= o);
    assert(s.skip(i + 1) =~= a);
    lemma_os_text_roundtrip(t.os);
    lemma_arch_text_roundtrip(t.arch);
}

} // verus!
