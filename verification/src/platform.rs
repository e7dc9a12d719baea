//! Where the bundled helper binaries are looked for, by platform.
use vstd::prelude::*;

use crate::text::{push_str, str_eq, to_owned_string};

verus! {

/// Operating systems the helpers are built for.
#[derive(Debug, Clone, Copy, PartialEq, Eq, Structural)]
pub enum Os {
    MacOs,
    Windows,
    Linux,
    Other,
}

/// Processor architectures the helpers are built for.
#[derive(Debug, Clone, Copy, PartialEq, Eq, Structural)]
pub enum Arch {
    Aarch64,
    X86_64,
    Other,
}

/// The operating system named as `std::env::consts::OS` names it.
pub open spec fn os_named(name: Seq<char>) -> Os {
    if name == "macos"@ {
        Os::MacOs
    } else if name == "windows"@ {
        Os::Windows
    } else if name == "linux"@ {
        Os::Linux
    } else {
        Os::Other
    }
}

/// The architecture named as `std::env::consts::ARCH` names it.
pub open spec fn arch_named(name: Seq<char>) -> Arch {
    if name == "aarch64"@ {
        Arch::Aarch64
    } else if name == "x86_64"@ {
        Arch::X86_64
    } else {
        Arch::Other
    }
}

pub fn os_from_name(name: &str) -> (r: Os)
    ensures
        r == os_named(name@),
{
    if str_eq(name, "macos") {
        Os::MacOs
    } else if str_eq(name, "windows") {
        Os::Windows
    } else if str_eq(name, "linux") {
        Os::Linux
    } else {
        Os::Other
    }
}

pub fn arch_from_name(name: &str) -> (r: Arch)
    ensures
        r == arch_named(name@),
{
    if str_eq(name, "aarch64") {
        Arch::Aarch64
    } else if str_eq(name, "x86_64") {
        Arch::X86_64
    } else {
        Arch::Other
    }
}

/// The suffix of the bridge and Hysteria binaries: macOS builds only.
pub open spec fn sidecar_triple(os: Os, arch: Arch) -> Seq<char> {
    match (os, arch) {
        (Os::MacOs, Arch::Aarch64) => "aarch64-apple-darwin"@,
        (Os::MacOs, Arch::X86_64) => "x86_64-apple-darwin"@,
        _ => "unknown"@,
    }
}

/// The suffix of the Xray binary: macOS, and 64-bit Windows and Linux.
pub open spec fn xray_triple(os: Os, arch: Arch) -> Seq<char> {
    match (os, arch) {
        (Os::MacOs, Arch::Aarch64) => "aarch64-apple-darwin"@,
        (Os::MacOs, Arch::X86_64) => "x86_64-apple-darwin"@,
        (Os::Windows, Arch::X86_64) => "x86_64-pc-windows-msvc.exe"@,
        (Os::Linux, Arch::X86_64) => "x86_64-unknown-linux-gnu"@,
        _ => "unknown"@,
    }
}

pub fn sidecar_target_triple(os: Os, arch: Arch) -> (r: &'static str)
    ensures
        r@ == sidecar_triple(os, arch),
{
    match (os, arch) {
        (Os::MacOs, Arch::Aarch64) => "aarch64-apple-darwin",
        (Os::MacOs, Arch::X86_64) => "x86_64-apple-darwin",
        _ => "unknown",
    }
}

pub fn xray_target_triple(os: Os, arch: Arch) -> (r: &'static str)
    ensures
        r@ == xray_triple(os, arch),
{
    match (os, arch) {
        (Os::MacOs, Arch::Aarch64) => "aarch64-apple-darwin",
        (Os::MacOs, Arch::X86_64) => "x86_64-apple-darwin",
        (Os::Windows, Arch::X86_64) => "x86_64-pc-windows-msvc.exe",
        (Os::Linux, Arch::X86_64) => "x86_64-unknown-linux-gnu",
        _ => "unknown",
    }
}

/// The directory a candidate path starts from.
#[derive(Debug, Clone, Copy, PartialEq, Eq, Structural)]
pub enum PathBase {
    /// The directory of the running executable.
    ExeDir,
    /// The parent of that directory.
    ExeParent,
    /// The application's resource directory.
    ResourceDir,
    /// The crate's manifest directory (development builds).
    ManifestDir,
}

/// A path: a base directory and the components joined to it.
pub struct PathCandidate {
    pub base: PathBase,
    pub parts: Vec<String>,
}

pub struct PathCandidateView {
    pub base: PathBase,
    pub parts: Seq<Seq<char>>,
}

impl View for PathCandidate {
    type V = PathCandidateView;

    open spec fn view(&self) -> PathCandidateView {
        PathCandidateView { base: self.base, parts: self.parts.deep_view() }
    }
}

pub open spec fn at(base: PathBase, parts: Seq<Seq<char>>) -> PathCandidateView {
    PathCandidateView { base, parts }
}

/// The places a helper binary `name` is looked for, in order: beside the
/// executable (plain and with the target suffix), in the resource directory
/// (plain, suffixed, and both under `binaries/`), then under `binaries/` of
/// the manifest directory (suffixed). Bases that do not exist are skipped.
pub open spec fn binary_candidate_paths(
    name: Seq<char>,
    triple: Seq<char>,
    has_exe_dir: bool,
    has_resource_dir: bool,
    has_manifest_dir: bool,
) -> Seq<PathCandidateView> {
    let suffixed = name + seq!['-'] + triple;
    (if has_exe_dir {
        seq![at(PathBase::ExeDir, seq![name]), at(PathBase::ExeDir, seq![suffixed])]
    } else {
        Seq::empty()
    }) + (if has_resource_dir {
        seq![
            at(PathBase::ResourceDir, seq![name]),
            at(PathBase::ResourceDir, seq![suffixed]),
            at(PathBase::ResourceDir, seq!["binaries"@, name]),
            at(PathBase::ResourceDir, seq!["binaries"@, suffixed]),
        ]
    } else {
        Seq::empty()
    }) + (if has_manifest_dir {
        seq![at(PathBase::ManifestDir, seq!["binaries"@, suffixed])]
    } else {
        Seq::empty()
    })
}

fn candidate1(base: PathBase, a: &str) -> (r: PathCandidate)
    ensures
        r@ == at(base, seq![a@]),
{
    let mut parts: Vec<String> = Vec::new();
    parts.push(to_owned_string(a));
    let r = PathCandidate { base, parts };
    assert(r@.parts =~= seq![a@]);
    r
}

fn candidate2(base: PathBase, a: &str, b: &str) -> (r: PathCandidate)
    ensures
        r@ == at(base, seq![a@, b@]),
{
    let mut parts: Vec<String> = Vec::new();
    parts.push(to_owned_string(a));
    parts.push(to_owned_string(b));
    let r = PathCandidate { base, parts };
    assert(r@.parts =~= seq![a@, b@]);
    r
}

/// The candidate paths of a helper binary (see `binary_candidate_paths`).
pub fn binary_candidates(
    name: &str,
    triple: &str,
    has_exe_dir: bool,
    has_resource_dir: bool,
    has_manifest_dir: bool,
) -> (r: Vec<PathCandidate>)
    ensures
        r@.map_values(|c: PathCandidate| c@) == binary_candidate_paths(
            name@,
            triple@,
            has_exe_dir,
            has_resource_dir,
            has_manifest_dir,
        ),
{
    let mut suffixed = to_owned_string(name);
    push_str(&mut suffixed, "-");
    push_str(&mut suffixed, triple);
    proof {
        reveal_strlit("-");
    }
    let s = suffixed.as_str();
    let mut out: Vec<PathCandidate> = Vec::new();
    if has_exe_dir {
        out.push(candidate1(PathBase::ExeDir, name));
        out.push(candidate1(PathBase::ExeDir, s));
    }
    let ghost a = out@.map_values(|c: PathCandidate| c@);
    let ghost suffixed_v = name@ + seq!['-'] + triple@;
    assert(s@ =~= suffixed_v);
    assert(a =~= (if has_exe_dir {
        seq![at(PathBase::ExeDir, seq![name@]), at(PathBase::ExeDir, seq![suffixed_v])]
    } else {
        Seq::empty()
    }));
    if has_resource_dir {
        out.push(candidate1(PathBase::ResourceDir, name));
        out.push(candidate1(PathBase::ResourceDir, s));
        out.push(candidate2(PathBase::ResourceDir, "binaries", name));
        out.push(candidate2(PathBase::ResourceDir, "binaries", s));
    }
    let ghost b = out@.map_values(|c: PathCandidate| c@);
    assert(b =~= a + (if has_resource_dir {
        seq![
            at(PathBase::ResourceDir, seq![name@]),
            at(PathBase::ResourceDir, seq![suffixed_v]),
            at(PathBase::ResourceDir, seq!["binaries"@, name@]),
            at(PathBase::ResourceDir, seq!["binaries"@, suffixed_v]),
        ]
    } else {
        Seq::empty()
    }));
    if has_manifest_dir {
        out.push(candidate2(PathBase::ManifestDir, "binaries", s));
    }
    assert(out@.map_values(|c: PathCandidate| c@) =~= binary_candidate_paths(
        name@,
        triple@,
        has_exe_dir,
        has_resource_dir,
        has_manifest_dir,
    ));
    out
}

/// The directories searched, in order, for Xray's `geoip.dat`: the
/// executable's directory, then `Resources` and `Resources/_up_/binaries`
/// beside it, the resource directory, its `binaries` and `_up_/binaries`,
/// and `binaries` of the manifest directory. Bases that do not exist are
/// skipped.
pub open spec fn asset_dir_paths(
    has_exe_dir: bool,
    has_exe_parent: bool,
    has_resource_dir: bool,
    has_manifest_dir: bool,
) -> Seq<PathCandidateView> {
    (if has_exe_dir {
        seq![at(PathBase::ExeDir, Seq::empty())] + if has_exe_parent {
            seq![
                at(PathBase::ExeParent, seq!["Resources"@]),
                at(PathBase::ExeParent, seq!["Resources"@, "_up_"@, "binaries"@]),
            ]
        } else {
            Seq::empty()
        }
    } else {
        Seq::empty()
    }) + (if has_resource_dir {
        seq![
            at(PathBase::ResourceDir, Seq::empty()),
            at(PathBase::ResourceDir, seq!["binaries"@]),
            at(PathBase::ResourceDir, seq!["_up_"@, "binaries"@]),
        ]
    } else {
        Seq::empty()
    }) + (if has_manifest_dir {
        seq![at(PathBase::ManifestDir, seq!["binaries"@])]
    } else {
        Seq::empty()
    })
}

fn candidate0(base: PathBase) -> (r: PathCandidate)
    ensures
        r@ == at(base, Seq::empty()),
{
    let r = PathCandidate { base, parts: Vec::new() };
    assert(r@.parts =~= Seq::<Seq<char>>::empty());
    r
}

fn candidate3(base: PathBase, a: &str, b: &str, c: &str) -> (r: PathCandidate)
    ensures
        r@ == at(base, seq![a@, b@, c@]),
{
    let mut parts: Vec<String> = Vec::new();
    parts.push(to_owned_string(a));
    parts.push(to_owned_string(b));
    parts.push(to_owned_string(c));
    let r = PathCandidate { base, parts };
    assert(r@.parts =~= seq![a@, b@, c@]);
    r
}

/// The asset directories searched for Xray (see `asset_dir_paths`).
pub fn xray_asset_dirs(
    has_exe_dir: bool,
    has_exe_parent: bool,
    has_resource_dir: bool,
    has_manifest_dir: bool,
) -> (r: Vec<PathCandidate>)
    ensures
        r@.map_values(|c: PathCandidate| c@) == asset_dir_paths(
            has_exe_dir,
            has_exe_parent,
            has_resource_dir,
            has_manifest_dir,
        ),
{
    let mut out: Vec<PathCandidate> = Vec::new();
    if has_exe_dir {
        out.push(candidate0(PathBase::ExeDir));
        if has_exe_parent {
            out.push(candidate1(PathBase::ExeParent, "Resources"));
            out.push(candidate3(PathBase::ExeParent, "Resources", "_up_", "binaries"));
        }
    }
    if has_resource_dir {
        out.push(candidate0(PathBase::ResourceDir));
        out.push(candidate1(PathBase::ResourceDir, "binaries"));
        out.push(candidate2(PathBase::ResourceDir, "_up_", "binaries"));
    }
    if has_manifest_dir {
        out.push(candidate1(PathBase::ManifestDir, "binaries"));
    }
    assert(out@.map_values(|c: PathCandidate| c@) =~= asset_dir_paths(
        has_exe_dir,
        has_exe_parent,
        has_resource_dir,
        has_manifest_dir,
    ));
    out
}

/// `i` is the first index at which `flags` holds.
pub open spec fn is_first_true(flags: Seq<bool>, i: int) -> bool {
    &&& 0 <= i < flags.len()
    &&& flags[i]
    &&& forall|j: int| 0 <= j < i ==> !flags[j]
}

/// The first candidate that exists, given whether each exists; none where
/// none does.
pub fn first_existing(exists: &Vec<bool>) -> (r: Option<usize>)
    ensures
        r matches Some(i) ==> is_first_true(exists@, i as int),
        r is None ==> forall|j: int| 0 <= j < exists@.len() ==> !exists@[j],
{
    let mut i: usize = 0;
    while i < exists.len()
        invariant
            i <= exists@.len(),
            forall|j: int| 0 <= j < i ==> !exists@[j],
        decreases exists@.len() - i,
    {
        if exists[i] {
            return Some(i);
        }
        i = i + 1;
    }
    None
}

/// Where Xray's geo data is taken from.
#[derive(Debug, Clone, Copy, PartialEq, Eq, Structural)]
pub enum AssetDir {
    /// The asset directory at this index of the list searched.
    Listed(usize),
    /// The directory of the Xray binary itself.
    BinaryDir,
}

/// The first listed directory that holds `geoip.dat`, given whether each
/// does; the binary's own directory where none does.
pub fn choose_asset_dir(has_geoip: &Vec<bool>) -> (r: AssetDir)
    ensures
        r matches AssetDir::Listed(i) ==> is_first_true(has_geoip@, i as int),
        r is BinaryDir <==> forall|j: int| 0 <= j < has_geoip@.len() ==> !has_geoip@[j],
{
    match first_existing(has_geoip) {
        Some(i) => AssetDir::Listed(i),
        None => AssetDir::BinaryDir,
    }
}

} // verus!
