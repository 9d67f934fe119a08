//! Kernel presets, kernel images, and how a kernel gets into place.
use ember::host::{Arch, Os};
use ember::kernel::container_build::{
    base_config_url, build_fault, build_script, build_step, built_kernel_subpath, detect_container_tool,
    docker_run_args, install_path, BuildPhase,
};
use ember::kernel::{
    download_args, is_same_file, validate_kernel_image, FileId, ImageProbe, KernelPreset,
    KernelSpec, Phase, Resolution, ResolveEvent, DEFAULT_PRESET, KERNEL_HEADER_LEN,
};

// ------------------------------------------------------------------ presets

#[test]
fn kernel_parse_preset_stock() {
    assert_eq!(KernelPreset::from_str("stock", Os::Linux), Ok(KernelPreset::Stock));
}

#[test]
fn kernel_parse_preset_docker() {
    assert_eq!(KernelPreset::from_str("docker", Os::Linux), Ok(KernelPreset::Docker));
}

#[test]
fn kernel_parse_preset_case_insensitive() {
    assert_eq!(KernelPreset::from_str("STOCK", Os::Linux), Ok(KernelPreset::Stock));
    assert_eq!(KernelPreset::from_str("DOCKER", Os::Linux), Ok(KernelPreset::Docker));
    // On macOS one of the two is refused.
    assert!(KernelPreset::from_str("STOCK", Os::Macos).is_err());
    assert_eq!(KernelPreset::from_str("DOCKER", Os::Macos), Ok(KernelPreset::Docker));
}

#[test]
fn kernel_parse_preset_unknown() {
    assert!(KernelPreset::from_str("custom", Os::Linux).is_err());
    assert!(KernelPreset::from_str("/path/to/vmlinux", Os::Linux).is_err());
    assert!(KernelPreset::from_str("containerd", Os::Linux).is_err());
    assert_eq!(
        KernelPreset::from_str("custom", Os::Linux).unwrap_err(),
        "unknown kernel preset 'custom'"
    );
}

#[test]
fn kernel_stock_preset_rejected_on_macos() {
    let err = KernelPreset::from_str("stock", Os::Macos).unwrap_err();
    assert!(err.contains("not supported on macOS"), "unexpected error: {err}");
    assert!(err.contains("ember kernel build"), "hint missing: {err}");
}

#[test]
fn kernel_spec_stock_rejected_on_macos() {
    let result = KernelSpec::from_str("stock", Os::Macos);
    assert!(result.is_err(), "expected Err but got Ok");
    let err = result.unwrap_err();
    assert!(err.contains("not supported on macOS"), "unexpected error: {err}");
}

#[test]
fn kernel_spec_from_preset_name() {
    assert_eq!(
        KernelSpec::from_str("stock", Os::Linux).unwrap(),
        KernelSpec::Preset(KernelPreset::Stock)
    );
    assert_eq!(
        KernelSpec::from_str("docker", Os::Linux).unwrap(),
        KernelSpec::Preset(KernelPreset::Docker)
    );
    assert!(KernelSpec::from_str("stock", Os::Macos).is_err());
    assert_eq!(
        KernelSpec::from_str("docker", Os::Macos).unwrap(),
        KernelSpec::Preset(KernelPreset::Docker)
    );
}

#[test]
fn kernel_spec_from_path() {
    assert_eq!(
        KernelSpec::from_str("/path/to/vmlinux", Os::Linux).unwrap(),
        KernelSpec::Path("/path/to/vmlinux".to_string())
    );
    assert_eq!(
        KernelSpec::from_str("~/kernels/vmlinux", Os::Linux).unwrap(),
        KernelSpec::Path("~/kernels/vmlinux".to_string())
    );
}

#[test]
fn kernel_containerd_is_treated_as_path() {
    assert_eq!(
        KernelSpec::from_str("containerd", Os::Linux).unwrap(),
        KernelSpec::Path("containerd".to_string())
    );
}

#[test]
fn kernel_preset_urls_contain_arch() {
    assert!(KernelPreset::Stock.url(Arch::Aarch64).unwrap().contains("aarch64"));
    assert!(KernelPreset::Stock.url(Arch::X86_64).unwrap().contains("x86_64"));
}

#[test]
fn kernel_docker_preset_has_no_url() {
    assert!(KernelPreset::Docker.url(Arch::X86_64).is_none());
}

#[test]
fn kernel_default_preset_is_docker() {
    assert_eq!(DEFAULT_PRESET, KernelPreset::Docker);
}

#[test]
fn kernel_display_round_trip() {
    assert_eq!(KernelPreset::Stock.to_string(), "stock");
    assert_eq!(KernelPreset::Docker.to_string(), "docker");
}

fn spec_from_json(json: &str, os: Os) -> Result<KernelSpec, String> {
    let s: String = serde_json::from_str(json).unwrap();
    KernelSpec::from_str(&s, os)
}

#[test]
fn kernel_serde_deserialize_preset() {
    let spec = spec_from_json(r#""stock""#, Os::Linux).unwrap();
    assert_eq!(spec, KernelSpec::Preset(KernelPreset::Stock));

    let spec = spec_from_json(r#""docker""#, Os::Linux).unwrap();
    assert_eq!(spec, KernelSpec::Preset(KernelPreset::Docker));

    assert!(spec_from_json(r#""stock""#, Os::Macos).is_err());
    let spec = spec_from_json(r#""docker""#, Os::Macos).unwrap();
    assert_eq!(spec, KernelSpec::Preset(KernelPreset::Docker));
}

#[test]
fn kernel_serde_deserialize_path() {
    let spec = spec_from_json(r#""/path/to/vmlinux""#, Os::Linux).unwrap();
    assert_eq!(spec, KernelSpec::Path("/path/to/vmlinux".to_string()));
}

#[test]
fn mod_parse_preset_stock() {
    assert_eq!(KernelPreset::from_str("stock", Os::Linux), Ok(KernelPreset::Stock));
}

#[test]
fn mod_parse_preset_docker() {
    assert_eq!(KernelPreset::from_str("docker", Os::Linux), Ok(KernelPreset::Docker));
}

#[test]
fn mod_parse_preset_case_insensitive() {
    assert_eq!(KernelPreset::from_str("STOCK", Os::Linux), Ok(KernelPreset::Stock));
    assert_eq!(KernelPreset::from_str("DOCKER", Os::Linux), Ok(KernelPreset::Docker));
    assert!(KernelPreset::from_str("STOCK", Os::Macos).is_err());
    assert_eq!(KernelPreset::from_str("DOCKER", Os::Macos), Ok(KernelPreset::Docker));
}

#[test]
fn mod_parse_preset_unknown() {
    assert!(KernelPreset::from_str("custom", Os::Macos).is_err());
    assert!(KernelPreset::from_str("/path/to/vmlinux", Os::Macos).is_err());
    assert!(KernelPreset::from_str("containerd", Os::Macos).is_err());
}

#[test]
fn mod_stock_preset_rejected_on_macos() {
    let err = KernelPreset::from_str("stock", Os::Macos).unwrap_err();
    assert!(err.contains("not supported on macOS"), "unexpected error: {err}");
    assert!(err.contains("ember kernel build"), "hint missing: {err}");
}

#[test]
fn mod_spec_stock_rejected_on_macos() {
    let result = KernelSpec::from_str("stock", Os::Macos);
    assert!(result.is_err(), "expected Err but got Ok");
    let err = result.unwrap_err();
    assert!(err.contains("not supported on macOS"), "unexpected error: {err}");
}

#[test]
fn mod_spec_from_preset_name() {
    assert_eq!(
        KernelSpec::from_str("stock", Os::Linux).unwrap(),
        KernelSpec::Preset(KernelPreset::Stock)
    );
    assert_eq!(
        KernelSpec::from_str("docker", Os::Linux).unwrap(),
        KernelSpec::Preset(KernelPreset::Docker)
    );
    assert!(KernelSpec::from_str("stock", Os::Macos).is_err());
    assert_eq!(
        KernelSpec::from_str("docker", Os::Macos).unwrap(),
        KernelSpec::Preset(KernelPreset::Docker)
    );
}

#[test]
fn mod_spec_from_path() {
    assert_eq!(
        KernelSpec::from_str("/path/to/vmlinux", Os::Macos).unwrap(),
        KernelSpec::Path("/path/to/vmlinux".to_string())
    );
    assert_eq!(
        KernelSpec::from_str("~/kernels/vmlinux", Os::Macos).unwrap(),
        KernelSpec::Path("~/kernels/vmlinux".to_string())
    );
}

#[test]
fn mod_containerd_is_treated_as_path() {
    assert_eq!(
        KernelSpec::from_str("containerd", Os::Macos).unwrap(),
        KernelSpec::Path("containerd".to_string())
    );
}

#[test]
fn mod_preset_urls_contain_arch() {
    assert_eq!(
        KernelPreset::Stock.url(Arch::X86_64).unwrap(),
        "https://s3.amazonaws.com/spec.ccfc.min/firecracker-ci/v1.11/x86_64/vmlinux-6.1.102"
    );
}

#[test]
fn mod_docker_preset_has_no_url() {
    assert!(KernelPreset::Docker.url(Arch::Aarch64).is_none());
}

#[test]
fn mod_default_preset_is_docker() {
    assert_eq!(DEFAULT_PRESET, KernelPreset::Docker);
}

#[test]
fn mod_display_round_trip() {
    assert_eq!(KernelPreset::Stock.to_string(), "stock");
    assert_eq!(KernelPreset::Docker.to_string(), "docker");
}

#[test]
fn mod_serde_deserialize_preset() {
    let spec = spec_from_json(r#""stock""#, Os::Linux).unwrap();
    assert_eq!(spec, KernelSpec::Preset(KernelPreset::Stock));
    let spec = spec_from_json(r#""docker""#, Os::Linux).unwrap();
    assert_eq!(spec, KernelSpec::Preset(KernelPreset::Docker));
    assert!(spec_from_json(r#""stock""#, Os::Macos).is_err());
}

#[test]
fn mod_serde_deserialize_path() {
    let spec = spec_from_json(r#""/path/to/vmlinux""#, Os::Macos).unwrap();
    assert_eq!(spec, KernelSpec::Path("/path/to/vmlinux".to_string()));
}

// ------------------------------------------------------------------- images

/// A minimal but plausible ELF kernel image.
fn fake_elf(len: usize) -> Vec<u8> {
    let mut data = vec![0x7f, b'E', b'L', b'F'];
    data.resize(len, 0xab);
    data
}

/// A minimal but plausible arm64 boot image.
fn fake_arm64_image(len: usize) -> Vec<u8> {
    let mut data = vec![0u8; len.max(KERNEL_HEADER_LEN)];
    data[56..60].copy_from_slice(b"ARMd");
    data
}

fn probe(data: &[u8]) -> ImageProbe {
    ImageProbe::Read {
        size: data.len() as u64,
        header: data[..data.len().min(KERNEL_HEADER_LEN)].to_vec(),
    }
}

fn file(path: &str) -> FileId {
    FileId { canonical: Some(path.to_string()), inode: None }
}

fn resolve(spec: KernelSpec, dir: &str) -> Resolution {
    spec.resolve(dir, None, Os::Linux, Arch::X86_64)
}

#[test]
fn resolve_same_file_via_symlinked_state_dir_is_noop() {
    let kernel = "/tmp/real/kernels/vmlinux-6.1.102";
    let mut r = resolve(KernelSpec::Path(kernel.to_string()), "/tmp/link/kernels");
    r.advance(ResolveEvent::Canonical(Ok(kernel.to_string())));
    assert_eq!(r.dest, "/tmp/link/kernels/vmlinux-6.1.102");
    assert_ne!(r.dest, r.src);
    // Both names lead to the same file.
    r.advance(ResolveEvent::Identified(file(kernel), file(kernel)));
    assert_eq!(r.phase, Phase::ProbeInPlace);
    r.advance(ResolveEvent::Probed(probe(&fake_elf(4096))));
    assert_eq!(r.phase, Phase::InPlace);
    assert_eq!(
        r.report(),
        "Kernel already in place at /tmp/link/kernels/vmlinux-6.1.102 — nothing to copy."
    );
}

#[test]
fn resolve_identical_path_is_noop() {
    let dest = "/state/kernels/vmlinux-6.1.102";
    let mut r = resolve(KernelSpec::Path(dest.to_string()), "/state/kernels");
    r.advance(ResolveEvent::Canonical(Ok(dest.to_string())));
    r.advance(ResolveEvent::Identified(file(dest), file(dest)));
    r.advance(ResolveEvent::Probed(probe(&fake_elf(2048))));
    assert_eq!(r.phase, Phase::InPlace);
    assert_eq!(r.dest, dest);
}

#[test]
fn resolve_different_file_copies() {
    let src = "/elsewhere/vmlinux-custom";
    let mut r = resolve(KernelSpec::Path(src.to_string()), "/state/kernels");
    r.advance(ResolveEvent::Canonical(Ok(src.to_string())));
    r.advance(ResolveEvent::Identified(file(src), FileId { canonical: None, inode: None }));
    assert_eq!(r.phase, Phase::ProbeSource);
    r.advance(ResolveEvent::Probed(probe(&fake_elf(8192))));
    assert_eq!(r.phase, Phase::Copy);
    r.advance(ResolveEvent::Finished(Ok(())));
    r.advance(ResolveEvent::Probed(probe(&fake_elf(8192))));
    assert_eq!(r.phase, Phase::Copied);
    assert_eq!(r.dest, "/state/kernels/vmlinux-custom");
    assert_eq!(
        r.report(),
        "Copied kernel /elsewhere/vmlinux-custom → /state/kernels/vmlinux-custom"
    );
}

#[test]
fn resolve_same_file_empty_fails_loudly() {
    let kernel = "/real/kernels/vmlinux-6.1.102";
    let mut r = resolve(KernelSpec::Path(kernel.to_string()), "/link/kernels");
    r.advance(ResolveEvent::Canonical(Ok(kernel.to_string())));
    r.advance(ResolveEvent::Identified(file(kernel), file(kernel)));
    r.advance(ResolveEvent::Probed(probe(b"")));
    assert_eq!(r.phase, Phase::Failed);
    assert!(r.error.contains("0 bytes"), "unexpected error: {}", r.error);
    assert!(r.error.contains("ember kernel build"), "hint missing: {}", r.error);
}

#[test]
fn resolve_non_elf_source_fails_and_preserves_destination() {
    let src = "/elsewhere/vmlinux-custom";
    let mut r = resolve(KernelSpec::Path(src.to_string()), "/state/kernels");
    r.advance(ResolveEvent::Canonical(Ok(src.to_string())));
    r.advance(ResolveEvent::Identified(file(src), file("/state/kernels/vmlinux-custom")));
    // The source is looked at before anything is written.
    assert_eq!(r.phase, Phase::ProbeSource);
    r.advance(ResolveEvent::Probed(probe(b"not a kernel at all")));
    assert_eq!(r.phase, Phase::Failed);
    assert!(r.error.contains("not a bootable kernel image"), "unexpected error: {}", r.error);
    assert!(r.error.contains("starts with [6e 6f 74 20]"), "{}", r.error);
}

#[test]
fn resolve_empty_source_fails() {
    let src = "/tmp/vmlinux-empty";
    let mut r = resolve(KernelSpec::Path(src.to_string()), "/state/kernels");
    r.advance(ResolveEvent::Canonical(Ok(src.to_string())));
    r.advance(ResolveEvent::Identified(file(src), FileId { canonical: None, inode: None }));
    r.advance(ResolveEvent::Probed(probe(b"")));
    assert_eq!(r.phase, Phase::Failed);
    assert!(r.error.contains("0 bytes"), "unexpected error: {}", r.error);
}

#[test]
fn resolve_preset_rejects_truncated_cached_kernel() {
    let mut r = resolve(KernelSpec::Preset(KernelPreset::Docker), "/state/kernels");
    assert_eq!(r.phase, Phase::LookUp);
    r.advance(ResolveEvent::Found(true));
    r.advance(ResolveEvent::Probed(probe(b"")));
    assert_eq!(r.phase, Phase::Failed);
    assert!(r.error.contains("0 bytes"), "unexpected error: {}", r.error);
}

#[test]
fn resolve_preset_accepts_valid_cached_kernel() {
    let mut r = resolve(KernelSpec::Preset(KernelPreset::Docker), "/state/kernels");
    r.advance(ResolveEvent::Found(true));
    r.advance(ResolveEvent::Probed(probe(&fake_elf(4096))));
    assert_eq!(r.phase, Phase::Cached);
    assert_eq!(r.dest, format!("/state/kernels/{}", KernelPreset::Docker.filename()));
    assert!(r.report().starts_with("Using docker kernel at /state/kernels/"));
}

#[test]
fn resolve_reports_what_went_wrong() {
    let mut r = resolve(KernelSpec::Path("/nope".to_string()), "/k");
    r.advance(ResolveEvent::Canonical(Err("No such file".to_string())));
    assert_eq!(r.error, "kernel path '/nope': No such file");

    let mut r = resolve(KernelSpec::Path("/".to_string()), "/k");
    r.advance(ResolveEvent::Canonical(Ok("/".to_string())));
    assert_eq!(r.error, "kernel path has no filename");

    let mut r = resolve(KernelSpec::Preset(KernelPreset::Docker), "/k");
    r.advance(ResolveEvent::Found(false));
    assert_eq!(r.phase, Phase::Failed);
    assert!(r.error.starts_with("Default kernel has not been built yet."));

    let spec = KernelSpec::Path("/s/v".to_string());
    let mut r = resolve(spec, "/k");
    r.advance(ResolveEvent::Canonical(Ok("/s/v".to_string())));
    r.advance(ResolveEvent::Identified(file("/s/v"), file("/k/v")));
    r.advance(ResolveEvent::Probed(probe(&fake_elf(8))));
    r.advance(ResolveEvent::Finished(Err("disk full".to_string())));
    assert_eq!(r.error, "failed to copy kernel '/s/v' → '/k/v': disk full");
}

#[test]
fn resolve_downloads_through_a_partial_file() {
    let mut r = resolve(KernelSpec::Preset(KernelPreset::Stock), "/k");
    r.advance(ResolveEvent::Found(false));
    assert_eq!(r.phase, Phase::Download);
    assert_eq!(r.partial(), format!("{}.partial", r.dest));
    assert_eq!(
        download_args("u", &r.partial()),
        vec!["-fSL".to_string(), "-o".to_string(), r.partial(), "u".to_string()]
    );
    r.advance(ResolveEvent::Finished(Ok(())));
    assert_eq!(r.probed(), r.partial());
    r.advance(ResolveEvent::Probed(probe(b"oops")));
    assert_eq!(r.phase, Phase::RemovePartial);
    let kept = r.error.clone();
    r.advance(ResolveEvent::Finished(Err("busy".to_string())));
    assert_eq!(r.phase, Phase::Failed);
    assert_eq!(r.error, kept);

    let mut r = resolve(KernelSpec::Preset(KernelPreset::Stock), "/k");
    r.advance(ResolveEvent::Found(false));
    r.advance(ResolveEvent::Finished(Ok(())));
    r.advance(ResolveEvent::Probed(probe(&fake_elf(100))));
    assert_eq!(r.phase, Phase::Install);
    r.advance(ResolveEvent::Finished(Ok(())));
    assert_eq!(r.phase, Phase::Downloaded);
    assert_eq!(r.report(), format!("Kernel saved to {}", r.dest));
}

#[test]
fn validate_accepts_elf_and_arm64_image() {
    assert!(validate_kernel_image("vmlinux", &probe(&fake_elf(1024))).is_ok());
    assert!(validate_kernel_image("Image", &probe(&fake_arm64_image(1024))).is_ok());
}

#[test]
fn validate_rejects_tiny_non_kernel_files() {
    // Shorter than the header of either kind.
    let err = validate_kernel_image("tiny", &probe(b"hi")).unwrap_err();
    assert!(err.contains("not a bootable kernel image"), "unexpected error: {err}");
    let missing = ImageProbe::Unreadable("No such file or directory".to_string());
    assert_eq!(
        validate_kernel_image("nope", &missing).unwrap_err(),
        "kernel 'nope': No such file or directory"
    );
}

#[test]
fn is_same_file_handles_symlinks_and_distinct_files() {
    let id = |c: &str, i: u64| FileId { canonical: Some(c.to_string()), inode: Some((1, i)) };
    let missing = || FileId { canonical: None, inode: None };
    let a = id("/t/a", 10);
    let b = id("/t/b", 11);
    let link = id("/t/a", 10);
    let hard = id("/t/hard-to-a", 10);

    assert!(is_same_file(&a, &a));
    assert!(is_same_file(&a, &link));
    assert!(is_same_file(&a, &hard));
    assert!(!is_same_file(&a, &b));
    assert!(!is_same_file(&a, &missing()));
    assert!(!is_same_file(&missing(), &missing()));
    // The inode counts only on one device.
    let other = FileId { canonical: Some("/u/a".to_string()), inode: Some((2, 10)) };
    assert!(!is_same_file(&a, &other));
}

// ----------------------------------------------------------------- building

#[test]
fn docker_run_args_linux_includes_user_flag() {
    let args = docker_run_args("/work:/build", Some("1000:1000"), "echo hi");
    let pos = args.iter().position(|a| a == "--user");
    assert!(pos.is_some(), "--user must be present on Linux");
    let next = &args[pos.unwrap() + 1];
    assert_eq!(next, "1000:1000");
}

#[test]
fn docker_run_args_macos_omits_user_flag() {
    let args = docker_run_args("/work:/build", None, "echo hi");
    assert!(!args.contains(&"--user".to_string()), "--user must NOT be present on macOS");
    assert_eq!(args.last().unwrap(), "echo hi");
}

#[test]
fn base_config_url_is_aarch64_on_arm() {
    assert!(base_config_url(Arch::Aarch64).contains("aarch64"));
}

#[test]
fn base_config_url_is_x86_64_off_arm() {
    assert!(base_config_url(Arch::X86_64).contains("x86_64"));
}

#[test]
fn built_subpath_is_arm64_boot_image_on_arm() {
    assert_eq!(built_kernel_subpath(Arch::Aarch64), "linux/arch/arm64/boot/Image");
}

#[test]
fn built_subpath_is_vmlinux_off_arm() {
    assert_eq!(built_kernel_subpath(Arch::X86_64), "linux/vmlinux");
}

#[test]
fn container_tools_are_tried_in_order() {
    assert_eq!(detect_container_tool(true, true), Ok("docker"));
    assert_eq!(detect_container_tool(false, true), Ok("podman"));
    assert!(detect_container_tool(false, false).is_err());
    assert!(build_script(Arch::X86_64, 8).contains("-j8"));
    assert!(install_path("/k").starts_with("/k/"));
}

#[test]
fn builds_go_phase_by_phase() {
    let mut p = BuildPhase::MakeWorkDir;
    let mut steps = 0;
    while p != BuildPhase::Installed {
        assert_eq!(build_step(p, false), BuildPhase::Failed);
        p = build_step(p, true);
        steps += 1;
    }
    assert_eq!(steps, 9);
    let fault = |p: BuildPhase| build_fault(p, Os::Linux, "docker", "/b", "/k", "2");
    assert_eq!(fault(BuildPhase::RunBuild), "kernel build failed (exit code 2)");
    assert_eq!(fault(BuildPhase::FindKernel), "build completed but kernel not found at /b");
    assert_eq!(fault(BuildPhase::BuildImage), "docker build failed:\n2");
}
