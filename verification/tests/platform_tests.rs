use proxysvpn::platform::{
    arch_from_name, binary_candidates, choose_asset_dir, first_existing, os_from_name,
    sidecar_target_triple, xray_asset_dirs, xray_target_triple, Arch, AssetDir, Os, PathBase,
    PathCandidate,
};

fn show(c: &PathCandidate) -> String {
    let base = match c.base {
        PathBase::ExeDir => "exe",
        PathBase::ExeParent => "contents",
        PathBase::ResourceDir => "res",
        PathBase::ManifestDir => "manifest",
    };
    let mut s = base.to_string();
    for p in &c.parts {
        s.push('/');
        s.push_str(p);
    }
    s
}

#[test]
fn platform_names() {
    assert_eq!(os_from_name("macos"), Os::MacOs);
    assert_eq!(os_from_name("linux"), Os::Linux);
    assert_eq!(os_from_name("windows"), Os::Windows);
    assert_eq!(os_from_name("freebsd"), Os::Other);
    assert_eq!(arch_from_name("aarch64"), Arch::Aarch64);
    assert_eq!(arch_from_name("x86_64"), Arch::X86_64);
    assert_eq!(arch_from_name("riscv64"), Arch::Other);
}

#[test]
fn target_triples() {
    assert_eq!(sidecar_target_triple(Os::MacOs, Arch::Aarch64), "aarch64-apple-darwin");
    assert_eq!(sidecar_target_triple(Os::MacOs, Arch::X86_64), "x86_64-apple-darwin");
    assert_eq!(sidecar_target_triple(Os::Linux, Arch::X86_64), "unknown");
    assert_eq!(xray_target_triple(Os::Linux, Arch::X86_64), "x86_64-unknown-linux-gnu");
    assert_eq!(xray_target_triple(Os::Windows, Arch::X86_64), "x86_64-pc-windows-msvc.exe");
    assert_eq!(xray_target_triple(Os::Windows, Arch::Aarch64), "unknown");
}

#[test]
fn binary_search_order() {
    let all: Vec<String> = binary_candidates("tun2socks", "aarch64-apple-darwin", true, true, true)
        .iter()
        .map(show)
        .collect();
    assert_eq!(
        all,
        vec![
            "exe/tun2socks",
            "exe/tun2socks-aarch64-apple-darwin",
            "res/tun2socks",
            "res/tun2socks-aarch64-apple-darwin",
            "res/binaries/tun2socks",
            "res/binaries/tun2socks-aarch64-apple-darwin",
            "manifest/binaries/tun2socks-aarch64-apple-darwin",
        ]
    );
    let some: Vec<String> = binary_candidates("xray", "unknown", false, true, false).iter().map(show).collect();
    assert_eq!(some, vec!["res/xray", "res/xray-unknown", "res/binaries/xray", "res/binaries/xray-unknown"]);
}

#[test]
fn asset_search_order() {
    let all: Vec<String> = xray_asset_dirs(true, true, true, true).iter().map(show).collect();
    assert_eq!(
        all,
        vec![
            "exe",
            "contents/Resources",
            "contents/Resources/_up_/binaries",
            "res",
            "res/binaries",
            "res/_up_/binaries",
            "manifest/binaries",
        ]
    );
    assert_eq!(xray_asset_dirs(true, false, false, false).len(), 1);
}

#[test]
fn first_existing_candidate() {
    assert_eq!(first_existing(&vec![false, true, true]), Some(1));
    assert_eq!(first_existing(&vec![false, false]), None);
    assert_eq!(first_existing(&vec![]), None);
}

#[test]
fn asset_dir_falls_back_to_the_binary_dir() {
    assert_eq!(choose_asset_dir(&vec![false, false, true]), AssetDir::Listed(2));
    assert_eq!(choose_asset_dir(&vec![false]), AssetDir::BinaryDir);
}
