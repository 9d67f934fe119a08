//! Building a kernel inside a container.
use crate::command;
use crate::host::{Arch, Os};
use crate::kernel::KernelPreset;
use crate::paths;
use crate::text;
use vstd::prelude::*;

verus! {

/// The container image that holds the compiler.
pub const BUILDER_IMAGE: &'static str = "ember-kernel-builder";

pub open spec fn config_url_text(arch: Arch) -> Seq<char> {
    match arch {
        Arch::Aarch64 => "https://raw.githubusercontent.com/firecracker-microvm/firecracker/main/resources/guest_configs/microvm-kernel-ci-aarch64-6.1.config"@,
        Arch::X86_64 => "https://raw.githubusercontent.com/firecracker-microvm/firecracker/main/resources/guest_configs/microvm-kernel-ci-x86_64-6.1.config"@,
    }
}

/// Firecracker CI base kernel config for the architecture.
pub fn base_config_url(arch: Arch) -> (r: &'static str)
    ensures
        r@ == config_url_text(arch),
{
    match arch {
        Arch::Aarch64 => "https://raw.githubusercontent.com/firecracker-microvm/firecracker/main/resources/guest_configs/microvm-kernel-ci-aarch64-6.1.config",
        Arch::X86_64 => "https://raw.githubusercontent.com/firecracker-microvm/firecracker/main/resources/guest_configs/microvm-kernel-ci-x86_64-6.1.config",
    }
}

pub open spec fn subpath_text(arch: Arch) -> Seq<char> {
    match arch {
        Arch::Aarch64 => "linux/arch/arm64/boot/Image"@,
        Arch::X86_64 => "linux/vmlinux"@,
    }
}

/// Where the build leaves what is to be installed.
pub fn built_kernel_subpath(arch: Arch) -> (r: &'static str)
    ensures
        r@ == subpath_text(arch),
{
    match arch {
        Arch::Aarch64 => "linux/arch/arm64/boot/Image",
        Arch::X86_64 => "linux/vmlinux",
    }
}

/// The container tool to use: the first one that is installed.
pub fn detect_container_tool(docker: bool, podman: bool) -> (r: Result<&'static str, &'static str>)
    ensures
        match r {
            Ok(t) => (docker && t@ == "docker"@) || (!docker && podman && t@ == "podman"@),
            Err(e) => !docker && !podman && e@
                == "neither 'docker' nor 'podman' is installed.\nInstall one to build kernels."@,
        },
{
    if docker {
        Ok("docker")
    } else if podman {
        Ok("podman")
    } else {
        Err("neither 'docker' nor 'podman' is installed.\nInstall one to build kernels.")
    }
}

/// Arguments that run the build script in the container. On macOS the files
/// belong to whom the sharing layer says, so no user is named.
pub fn docker_run_args(volume: &str, user_flag: Option<&str>, build_script: &str) -> (r: Vec<
    String,
>)
    ensures
        text::views(r@) == (match user_flag {
            Some(u) => seq![
                "run"@,
                "--rm"@,
                "--user"@,
                u@,
                "-v"@,
                volume@,
                "-w"@,
                "/build"@,
                "ember-kernel-builder"@,
                "sh"@,
                "-c"@,
                build_script@,
            ],
            None => seq![
                "run"@,
                "--rm"@,
                "-v"@,
                volume@,
                "-w"@,
                "/build"@,
                "ember-kernel-builder"@,
                "sh"@,
                "-c"@,
                build_script@,
            ],
        }),
        ({
            let a = text::views(r@);
            let n = if user_flag is Some {
                8int
            } else {
                6
            };
            &&& command::option_is(a.take(n), 2, "-v"@, volume@)
            &&& command::option_is(a.take(n), 2, "-w"@, "/build"@)
            &&& user_flag matches Some(u) ==> command::option_is(a.take(n), 2, "--user"@, u@)
            &&& user_flag is None ==> command::option_absent(a.take(n), 2, "--user"@)
            &&& a[n] == "ember-kernel-builder"@ && a.last() == build_script@
        }),
{
    proof {
        reveal_strlit("-v");
        reveal_strlit("-w");
        reveal_strlit("--user");
        assert("-v"@.len() == 2 && "-w"@.len() == 2 && "--user"@.len() == 6);
        assert("-v"@[1] == 'v' && "-w"@[1] == 'w');
        assert forall|i: int| 2 <= i < 7 && #[trigger] ((i - 2) % 2) == 0 implies i == 2 || i == 4 || i
            == 6 by {}
    }
    match user_flag {
        Some(u) => {
            let r = command::strings(
                &[
                    "run",
                    "--rm",
                    "--user",
                    u,
                    "-v",
                    volume,
                    "-w",
                    "/build",
                    "ember-kernel-builder",
                    "sh",
                    "-c",
                    build_script,
                ],
            );
            assert(text::views(r@) =~= seq![
                "run"@,
                "--rm"@,
                "--user"@,
                u@,
                "-v"@,
                volume@,
                "-w"@,
                "/build"@,
                "ember-kernel-builder"@,
                "sh"@,
                "-c"@,
                build_script@,
            ]);
            proof {
                let a = text::views(r@).take(8);
                assert(a[2] == "--user"@ && a[4] == "-v"@ && a[6] == "-w"@);
                command::lemma_option(a, 2, 2, "--user"@, u@);
                command::lemma_option(a, 2, 4, "-v"@, volume@);
                command::lemma_option(a, 2, 6, "-w"@, "/build"@);
            }
            r
        },
        None => {
            let r = command::strings(
                &[
                    "run",
                    "--rm",
                    "-v",
                    volume,
                    "-w",
                    "/build",
                    "ember-kernel-builder",
                    "sh",
                    "-c",
                    build_script,
                ],
            );
            assert(text::views(r@) =~= seq![
                "run"@,
                "--rm"@,
                "-v"@,
                volume@,
                "-w"@,
                "/build"@,
                "ember-kernel-builder"@,
                "sh"@,
                "-c"@,
                build_script@,
            ]);
            proof {
                let a = text::views(r@).take(6);
                assert(a[2] == "-v"@ && a[4] == "-w"@);
                command::lemma_option(a, 2, 2, "-v"@, volume@);
                command::lemma_option(a, 2, 4, "-w"@, "/build"@);
            }
            r
        },
    }
}

pub open spec fn script_text(arch: Arch, jobs: nat) -> Seq<char> {
    "set -e\necho '==> Downloading Firecracker CI kernel config...'\ncurl -fSL -o base.config '"@
        + config_url_text(arch)
        + "'\necho '==> Cloning kernel source (shallow, tag microvm-kernel-6.1.163-20.299.amzn2023)...'\ngit clone --depth 1 --branch 'microvm-kernel-6.1.163-20.299.amzn2023' 'https://github.com/amazonlinux/linux.git' linux\necho '==> Merging base config + fragments...'\ncd linux\nKCONFIG_CONFIG=.config scripts/kconfig/merge_config.sh -m ../base.config ../docker.fragment ../avf.fragment\nsed -i 's/^CONFIG_BUILD_SALT=.*/CONFIG_BUILD_SALT=\"\"/' .config\nmake olddefconfig\necho '==> Building kernel ("@
        + text::dec(jobs) + " jobs)...'\nmake -j"@ + text::dec(jobs)
        + " vmlinux Image\necho '==> Done.'"@
}

/// The script that builds the kernel: it fetches the base config and the source,
/// merges the config fragments and compiles both boot artifacts.
pub fn build_script(arch: Arch, jobs: u64) -> (r: String)
    ensures
        r@ == script_text(arch, jobs as nat),
{
    let n = text::dec_u64(jobs);
    text::cat7(
        "set -e\necho '==> Downloading Firecracker CI kernel config...'\ncurl -fSL -o base.config '",
        base_config_url(arch),
        "'\necho '==> Cloning kernel source (shallow, tag microvm-kernel-6.1.163-20.299.amzn2023)...'\ngit clone --depth 1 --branch 'microvm-kernel-6.1.163-20.299.amzn2023' 'https://github.com/amazonlinux/linux.git' linux\necho '==> Merging base config + fragments...'\ncd linux\nKCONFIG_CONFIG=.config scripts/kconfig/merge_config.sh -m ../base.config ../docker.fragment ../avf.fragment\nsed -i 's/^CONFIG_BUILD_SALT=.*/CONFIG_BUILD_SALT=\"\"/' .config\nmake olddefconfig\necho '==> Building kernel (",
        n.as_str(),
        " jobs)...'\nmake -j",
        n.as_str(),
        " vmlinux Image\necho '==> Done.'",
    )
}

/// What to do next to build a kernel, or how it ended.
#[derive(Clone, Copy, Debug, PartialEq, Eq, Structural)]
pub enum BuildPhase {
    /// Make the work directory.
    MakeWorkDir,
    WriteDockerfile,
    WriteDockerFragment,
    WriteAvfFragment,
    /// Build the builder image in the work directory.
    BuildImage,
    /// Run the build script in the container.
    RunBuild,
    /// See whether the kernel is where the build should have left it.
    FindKernel,
    /// Make the kernels directory.
    MakeKernelDir,
    /// Copy the kernel there.
    CopyKernel,
    Installed,
    Failed,
}

/// The phase after one that went well or not: every failure ends the build.
pub open spec fn next_build_phase(p: BuildPhase, good: bool) -> BuildPhase {
    if p == BuildPhase::Installed {
        p
    } else if !good {
        BuildPhase::Failed
    } else {
        match p {
            BuildPhase::MakeWorkDir => BuildPhase::WriteDockerfile,
            BuildPhase::WriteDockerfile => BuildPhase::WriteDockerFragment,
            BuildPhase::WriteDockerFragment => BuildPhase::WriteAvfFragment,
            BuildPhase::WriteAvfFragment => BuildPhase::BuildImage,
            BuildPhase::BuildImage => BuildPhase::RunBuild,
            BuildPhase::RunBuild => BuildPhase::FindKernel,
            BuildPhase::FindKernel => BuildPhase::MakeKernelDir,
            BuildPhase::MakeKernelDir => BuildPhase::CopyKernel,
            BuildPhase::CopyKernel => BuildPhase::Installed,
            BuildPhase::Installed => BuildPhase::Installed,
            BuildPhase::Failed => BuildPhase::Failed,
        }
    }
}

/// The phase after `p`.
pub fn build_step(p: BuildPhase, good: bool) -> (r: BuildPhase)
    ensures
        r == next_build_phase(p, good),
{
    match p {
        BuildPhase::Installed => p,
        _ => if !good {
            BuildPhase::Failed
        } else {
            match p {
                BuildPhase::MakeWorkDir => BuildPhase::WriteDockerfile,
                BuildPhase::WriteDockerfile => BuildPhase::WriteDockerFragment,
                BuildPhase::WriteDockerFragment => BuildPhase::WriteAvfFragment,
                BuildPhase::WriteAvfFragment => BuildPhase::BuildImage,
                BuildPhase::BuildImage => BuildPhase::RunBuild,
                BuildPhase::RunBuild => BuildPhase::FindKernel,
                BuildPhase::FindKernel => BuildPhase::MakeKernelDir,
                BuildPhase::MakeKernelDir => BuildPhase::CopyKernel,
                BuildPhase::CopyKernel => BuildPhase::Installed,
                BuildPhase::Installed => BuildPhase::Installed,
                BuildPhase::Failed => BuildPhase::Failed,
            }
        },
    }
}

/// The phases that end a build or lead from its start to the given one.
pub open spec fn phase_number(p: BuildPhase) -> nat {
    match p {
        BuildPhase::MakeWorkDir => 0,
        BuildPhase::WriteDockerfile => 1,
        BuildPhase::WriteDockerFragment => 2,
        BuildPhase::WriteAvfFragment => 3,
        BuildPhase::BuildImage => 4,
        BuildPhase::RunBuild => 5,
        BuildPhase::FindKernel => 6,
        BuildPhase::MakeKernelDir => 7,
        BuildPhase::CopyKernel => 8,
        BuildPhase::Installed => 9,
        BuildPhase::Failed => 10,
    }
}

/// A build is installed only after every phase before it went well, one by one.
pub proof fn law_build_skips_nothing(p: BuildPhase, good: bool)
    ensures
        next_build_phase(p, good) != BuildPhase::Failed && p != BuildPhase::Installed ==> good
            && phase_number(next_build_phase(p, good)) == phase_number(p) + 1,
{
}

/// Where the built kernel is installed.
pub fn install_path(kernel_dir: &str) -> (r: String)
    ensures
        r@ == paths::joined(kernel_dir@, KernelPreset::Docker.file_text()),
{
    let p = KernelPreset::Docker;
    paths::join(kernel_dir, p.filename())
}

/// Why a build phase failed, from what it reported.
pub open spec fn build_fault_text(
    p: BuildPhase,
    os: Os,
    tool: Seq<char>,
    built: Seq<char>,
    kernel_dir: Seq<char>,
    detail: Seq<char>,
) -> Seq<char> {
    match p {
        BuildPhase::MakeWorkDir => match os {
            Os::Macos => "failed to create temp build directory in $HOME"@,
            Os::Linux => "failed to create temp build directory"@,
        },
        BuildPhase::WriteDockerfile => "failed to write Dockerfile"@,
        BuildPhase::WriteDockerFragment => "failed to write docker.fragment"@,
        BuildPhase::WriteAvfFragment => "failed to write avf.fragment"@,
        BuildPhase::BuildImage => tool + " build failed:\n"@ + detail,
        BuildPhase::RunBuild => "kernel build failed (exit code "@ + detail + ")"@,
        BuildPhase::FindKernel => "build completed but kernel not found at "@ + built,
        BuildPhase::MakeKernelDir => "failed to create "@ + kernel_dir,
        _ => "failed to copy vmlinux from "@ + built + " to "@ + paths::joined(
            kernel_dir,
            KernelPreset::Docker.file_text(),
        ),
    }
}

/// Why a build phase failed. `detail` is what the builder image's build printed,
/// or the exit code of the kernel build.
pub fn build_fault(
    p: BuildPhase,
    os: Os,
    tool: &str,
    built: &str,
    kernel_dir: &str,
    detail: &str,
) -> (r: String)
    ensures
        r@ == build_fault_text(p, os, tool@, built@, kernel_dir@, detail@),
{
    match p {
        BuildPhase::MakeWorkDir => match os {
            Os::Macos => "failed to create temp build directory in $HOME".to_owned(),
            Os::Linux => "failed to create temp build directory".to_owned(),
        },
        BuildPhase::WriteDockerfile => "failed to write Dockerfile".to_owned(),
        BuildPhase::WriteDockerFragment => "failed to write docker.fragment".to_owned(),
        BuildPhase::WriteAvfFragment => "failed to write avf.fragment".to_owned(),
        BuildPhase::BuildImage => text::cat3(tool, " build failed:\n", detail),
        BuildPhase::RunBuild => text::cat3("kernel build failed (exit code ", detail, ")"),
        BuildPhase::FindKernel => text::cat2("build completed but kernel not found at ", built),
        BuildPhase::MakeKernelDir => text::cat2("failed to create ", kernel_dir),
        _ => {
            let dest = install_path(kernel_dir);
            text::cat4("failed to copy vmlinux from ", built, " to ", dest.as_str())
        },
    }
}

} // verus!
