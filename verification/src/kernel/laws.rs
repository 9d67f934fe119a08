//! What holds of kernels and of building them, whatever is asked for.
use crate::host::{Arch, Os};
use crate::kernel;
use crate::kernel::container_build;
use crate::kernel::container_build::BuildPhase;
use crate::kernel::{
    FileId, ImageProbe, KernelPreset, Phase, Resolution, ResolveEvent, SpecView,
};
use crate::paths;
use crate::text;
use vstd::prelude::*;

verus! {

/// The two architectures and the two presets have different names.
proof fn lemma_names_differ()
    ensures
        "aarch64"@ != "x86_64"@,
        "stock"@ != "docker"@,
        "vmlinux-6.1.102"@ != "vmlinux-docker-6.1.163"@,
{
    reveal_strlit("aarch64");
    reveal_strlit("x86_64");
    reveal_strlit("stock");
    reveal_strlit("docker");
    reveal_strlit("vmlinux-6.1.102");
    reveal_strlit("vmlinux-docker-6.1.163");
    assert("aarch64"@.len() != "x86_64"@.len());
    assert("stock"@.len() != "docker"@.len());
    assert("vmlinux-6.1.102"@.len() != "vmlinux-docker-6.1.163"@.len());
}

/// Only the stock kernel can be downloaded. It is stored under the name that it has
/// there, each architecture has a kernel of its own, and no two presets share a file.
pub proof fn law_downloads(p: KernelPreset, arch: Arch)
    ensures
        p.url_text(arch) is Some <==> p == KernelPreset::Stock,
        p.url_text(arch) matches Some(u) ==> "https://"@.is_prefix_of(u) && ("/"@ + arch.text()
            + "/"@ + p.file_text()).is_suffix_of(u),
        KernelPreset::Stock.file_text() != KernelPreset::Docker.file_text(),
        KernelPreset::Stock.url_text(Arch::Aarch64) != KernelPreset::Stock.url_text(Arch::X86_64),
{
    lemma_names_differ();
    reveal_strlit("https://");
    reveal_strlit("/");
    reveal_strlit("https://s3.amazonaws.com/spec.ccfc.min/firecracker-ci/v1.11/");
    reveal_strlit("/vmlinux-6.1.102");
    reveal_strlit("vmlinux-6.1.102");
    reveal_strlit("aarch64");
    reveal_strlit("x86_64");
    let h = "https://s3.amazonaws.com/spec.ccfc.min/firecracker-ci/v1.11/"@;
    let u = h + arch.text() + "/vmlinux-6.1.102"@;
    let t = "/"@ + arch.text() + "/"@ + "vmlinux-6.1.102"@;
    assert(u.skip(u.len() - t.len()) =~= t);
    assert(u.take(8) =~= "https://"@);
    let a = h + "aarch64"@ + "/vmlinux-6.1.102"@;
    let b = h + "x86_64"@ + "/vmlinux-6.1.102"@;
    assert(a.len() != b.len());
}

/// The name of a preset is never read as a path, in whatever case it is written; any
/// other text is a path, and stays as it is.
pub proof fn law_preset_or_path(s: Seq<char>, t: Seq<char>, os: Os)
    ensures
        text::lowercase(s) == "stock"@ ==> kernel::spec_named(s, Os::Linux) == Ok::<
            SpecView,
            Seq<char>,
        >(SpecView::Preset(KernelPreset::Stock)) && kernel::spec_named(s, Os::Macos) is Err,
        text::lowercase(s) == "docker"@ ==> kernel::spec_named(s, os) == Ok::<SpecView, Seq<char>>(
            SpecView::Preset(KernelPreset::Docker),
        ),
        text::lowercase(s) != "stock"@ && text::lowercase(s) != "docker"@ ==> kernel::spec_named(
            s,
            os,
        ) == Ok::<SpecView, Seq<char>>(SpecView::Path(s)) && KernelPreset::named(s, os) is Err,
        kernel::is_preset_name(s) && text::lowercase(s) == text::lowercase(t) ==> kernel::spec_named(
            s,
            os,
        ) == kernel::spec_named(t, os),
{
    lemma_names_differ();
}

/// A file is taken for a kernel exactly where it is not empty and starts with the
/// mark of an ELF file, or has that of an arm64 boot image where such an image has it.
pub proof fn law_kernels_are_known_by_their_mark(size: u64, header: Vec<u8>)
    ensures
        kernel::bootable(ImageProbe::Read { size, header }) <==> size > 0 && (header@.len() >= 4
            && header@.take(4) == seq![0x7fu8, 'E' as u8, 'L' as u8, 'F' as u8] || header@.len()
            >= 60 && header@.subrange(56, 60) == seq!['A' as u8, 'R' as u8, 'M' as u8, 'd' as u8]),
{
    let h = header@;
    assert('E' as u8 == 0x45 && 'L' as u8 == 0x4c && 'F' as u8 == 0x46);
    assert('A' as u8 == 0x41 && 'R' as u8 == 0x52 && 'M' as u8 == 0x4d && 'd' as u8 == 0x64);
    let elf = seq![0x7fu8, 0x45u8, 0x4cu8, 0x46u8];
    let arm = seq![0x41u8, 0x52u8, 0x4du8, 0x64u8];
    if h.len() >= 4 {
        if kernel::is_elf(h) {
            assert(h.take(4) =~= elf);
        }
        if h.take(4) == elf {
            assert(h.take(4)[0] == 0x7f && h.take(4)[1] == 0x45 && h.take(4)[2] == 0x4c && h.take(
                4,
            )[3] == 0x46);
        }
    }
    if h.len() >= 60 {
        let m = h.subrange(56, 60);
        if kernel::is_arm64_image(h) {
            assert(m =~= arm);
        }
        if m == arm {
            assert(m[0] == 0x41 && m[1] == 0x52 && m[2] == 0x4d && m[3] == 0x64);
        }
    }
}

/// A file that cannot be read is no kernel.
pub proof fn law_unreadable_is_no_kernel(why: String)
    ensures
        !kernel::bootable(ImageProbe::Unreadable(why)),
{
}

/// That two paths name the same file does not hang on their order; a path that is
/// found names the same file as itself, and one of which nothing is known names the
/// same file as no other.
pub proof fn law_same_file(a: FileId, b: FileId)
    ensures
        kernel::same_file(a, b) == kernel::same_file(b, a),
        a.canonical is Some || a.inode is Some ==> kernel::same_file(a, a),
        a.canonical is None && a.inode is None ==> !kernel::same_file(a, b),
        a.inode is Some && a.inode == b.inode ==> kernel::same_file(a, b),
{
}

/// A kernel that was given by its path ends in its place only where it was there
/// already or was copied there, and each of that is done only after what it needs.
pub proof fn law_given_kernel_comes_into_place(news: Seq<bool>, downloadable: bool)
    ensures
        ({
            let p = Phase::Canonicalize;
            let end = kernel::settled(p, news, downloadable);
            &&& end == Phase::InPlace ==> kernel::heard(p, news, downloadable, Phase::Compare, true)
                && kernel::heard(p, news, downloadable, Phase::ProbeInPlace, true)
            &&& end == Phase::Copied ==> kernel::heard(p, news, downloadable, Phase::Compare, false)
                && kernel::heard(p, news, downloadable, Phase::ProbeSource, true) && kernel::heard(
                p,
                news,
                downloadable,
                Phase::Copy,
                true,
            ) && kernel::heard(p, news, downloadable, Phase::ProbeCopy, true)
            &&& end != Phase::Cached && end != Phase::Downloaded
            &&& end == Phase::Failed <==> kernel::heard(
                p,
                news,
                downloadable,
                Phase::Canonicalize,
                false,
            ) || kernel::heard(p, news, downloadable, Phase::ProbeInPlace, false) || kernel::heard(
                p,
                news,
                downloadable,
                Phase::ProbeSource,
                false,
            ) || kernel::heard(p, news, downloadable, Phase::Copy, false) || kernel::heard(
                p,
                news,
                downloadable,
                Phase::ProbeCopy,
                false,
            )
        }),
{
    reveal_with_fuel(kernel::heard, 7);
    reveal_with_fuel(kernel::settled, 7);
}

/// A preset is taken from where it is stored, or downloaded, looked at and only then
/// moved there. What is missing and cannot be downloaded is a failure.
pub proof fn law_preset_comes_into_place(news: Seq<bool>, downloadable: bool)
    ensures
        ({
            let p = Phase::LookUp;
            let end = kernel::settled(p, news, downloadable);
            &&& end == Phase::Cached ==> kernel::heard(p, news, downloadable, Phase::LookUp, true)
                && kernel::heard(p, news, downloadable, Phase::ProbeCached, true)
            &&& end == Phase::Downloaded ==> downloadable && kernel::heard(
                p,
                news,
                downloadable,
                Phase::LookUp,
                false,
            ) && kernel::heard(p, news, downloadable, Phase::Download, true) && kernel::heard(
                p,
                news,
                downloadable,
                Phase::ProbePartial,
                true,
            ) && kernel::heard(p, news, downloadable, Phase::Install, true)
            &&& end != Phase::InPlace && end != Phase::Copied
            &&& kernel::did(p, news, downloadable, Phase::Install) ==> kernel::heard(
                p,
                news,
                downloadable,
                Phase::ProbePartial,
                true,
            )
            &&& kernel::did(p, news, downloadable, Phase::ProbePartial) ==> kernel::heard(
                p,
                news,
                downloadable,
                Phase::Download,
                true,
            )
            &&& end == Phase::Failed || end == Phase::RemovePartial <==> kernel::heard(
                p,
                news,
                downloadable,
                Phase::ProbeCached,
                false,
            ) || kernel::heard(p, news, downloadable, Phase::Download, false) || kernel::heard(
                p,
                news,
                downloadable,
                Phase::ProbePartial,
                false,
            ) || kernel::heard(p, news, downloadable, Phase::Install, false) || !downloadable
                && kernel::heard(p, news, downloadable, Phase::LookUp, false)
        }),
{
    reveal_with_fuel(kernel::heard, 7);
    reveal_with_fuel(kernel::settled, 7);
}

/// Where a build gets to from a phase, given whether each of its phases goes well.
pub open spec fn built(p: BuildPhase, news: Seq<bool>) -> BuildPhase
    decreases news.len(),
{
    if news.len() == 0 {
        p
    } else {
        built(container_build::next_build_phase(p, news[0]), news.skip(1))
    }
}

/// Whether a build comes to the phase `q` and manages it.
pub open spec fn managed(p: BuildPhase, news: Seq<bool>, q: BuildPhase) -> bool
    decreases news.len(),
{
    news.len() > 0 && (p == q && news[0] || managed(
        container_build::next_build_phase(p, news[0]),
        news.skip(1),
        q,
    ))
}

/// Where the only way into some phases is to manage `q`, a build that gets there
/// from outside manages it.
proof fn lemma_way_in(p: BuildPhase, news: Seq<bool>, inside: spec_fn(BuildPhase) -> bool, q: BuildPhase)
    requires
        !inside(p),
        forall|x: BuildPhase, g: bool|
            !inside(x) && inside(#[trigger] container_build::next_build_phase(x, g)) ==> x == q && g,
    ensures
        inside(built(p, news)) ==> managed(p, news, q),
        forall|t: BuildPhase| inside(t) && #[trigger] managed(p, news, t) ==> managed(p, news, q),
    decreases news.len(),
{
    if news.len() > 0 {
        let n = container_build::next_build_phase(p, news[0]);
        if !inside(n) {
            lemma_way_in(n, news.skip(1), inside, q);
        }
        assert forall|t: BuildPhase| inside(t) && #[trigger] managed(p, news, t) implies managed(
            p,
            news,
            q,
        ) by {
            if !inside(n) {
                assert(managed(n, news.skip(1), t));
            }
        }
    }
}

/// What is over stays over.
proof fn lemma_over(p: BuildPhase, news: Seq<bool>)
    requires
        p == BuildPhase::Installed || p == BuildPhase::Failed,
    ensures
        built(p, news) == p,
    decreases news.len(),
{
    if news.len() > 0 {
        lemma_over(p, news.skip(1));
    }
}

/// A kernel is installed only after all that it takes was managed, each after the
/// one before it: the directory and the three files in it, the image of the builder,
/// the build, what it left, the kernels directory and the copy.
pub proof fn law_installed_kernel_was_built(news: Seq<bool>)
    ensures
        ({
            let p = BuildPhase::MakeWorkDir;
            let done = built(p, news) == BuildPhase::Installed;
            &&& done || managed(p, news, BuildPhase::WriteDockerfile)
                ==> managed(p, news, BuildPhase::MakeWorkDir)
            &&& done || managed(p, news, BuildPhase::WriteDockerFragment)
                ==> managed(p, news, BuildPhase::WriteDockerfile)
            &&& done || managed(p, news, BuildPhase::WriteAvfFragment)
                ==> managed(p, news, BuildPhase::WriteDockerFragment)
            &&& done || managed(p, news, BuildPhase::BuildImage)
                ==> managed(p, news, BuildPhase::WriteAvfFragment)
            &&& done || managed(p, news, BuildPhase::RunBuild)
                ==> managed(p, news, BuildPhase::BuildImage)
            &&& done || managed(p, news, BuildPhase::FindKernel)
                ==> managed(p, news, BuildPhase::RunBuild)
            &&& done || managed(p, news, BuildPhase::MakeKernelDir)
                ==> managed(p, news, BuildPhase::FindKernel)
            &&& done || managed(p, news, BuildPhase::CopyKernel)
                ==> managed(p, news, BuildPhase::MakeKernelDir)
            &&& done ==> managed(p, news, BuildPhase::CopyKernel)
        }),
{
    let p = BuildPhase::MakeWorkDir;
    lemma_way_in(
        p,
        news,
        |x: BuildPhase|
            x != BuildPhase::MakeWorkDir && x != BuildPhase::Failed,
        BuildPhase::MakeWorkDir,
    );
    lemma_way_in(
        p,
        news,
        |x: BuildPhase|
            x != BuildPhase::MakeWorkDir && x != BuildPhase::WriteDockerfile
                && x != BuildPhase::Failed,
        BuildPhase::WriteDockerfile,
    );
    lemma_way_in(
        p,
        news,
        |x: BuildPhase|
            x != BuildPhase::MakeWorkDir && x != BuildPhase::WriteDockerfile
                && x != BuildPhase::WriteDockerFragment && x != BuildPhase::Failed,
        BuildPhase::WriteDockerFragment,
    );
    lemma_way_in(
        p,
        news,
        |x: BuildPhase|
            x != BuildPhase::MakeWorkDir && x != BuildPhase::WriteDockerfile
                && x != BuildPhase::WriteDockerFragment && x != BuildPhase::WriteAvfFragment
                && x != BuildPhase::Failed,
        BuildPhase::WriteAvfFragment,
    );
    lemma_way_in(
        p,
        news,
        |x: BuildPhase|
            x == BuildPhase::RunBuild || x == BuildPhase::FindKernel
                || x == BuildPhase::MakeKernelDir || x == BuildPhase::CopyKernel
                || x == BuildPhase::Installed,
        BuildPhase::BuildImage,
    );
    lemma_way_in(
        p,
        news,
        |x: BuildPhase|
            x == BuildPhase::FindKernel || x == BuildPhase::MakeKernelDir
                || x == BuildPhase::CopyKernel || x == BuildPhase::Installed,
        BuildPhase::RunBuild,
    );
    lemma_way_in(
        p,
        news,
        |x: BuildPhase|
            x == BuildPhase::MakeKernelDir || x == BuildPhase::CopyKernel
                || x == BuildPhase::Installed,
        BuildPhase::FindKernel,
    );
    lemma_way_in(
        p,
        news,
        |x: BuildPhase|
            x == BuildPhase::CopyKernel || x == BuildPhase::Installed,
        BuildPhase::MakeKernelDir,
    );
    lemma_way_in(
        p,
        news,
        |x: BuildPhase|
            x == BuildPhase::Installed,
        BuildPhase::CopyKernel,
    );
}

/// A build fails where a phase fails that comes before the end, and where none does
/// it installs the kernel.
pub proof fn law_build_fails_where_a_phase_does(news: Seq<bool>, k: int)
    requires
        0 <= k < 9,
        news.len() > k,
        forall|i: int| 0 <= i < k ==> #[trigger] news[i],
    ensures
        !news[k] ==> built(BuildPhase::MakeWorkDir, news) == BuildPhase::Failed,
        k == 8 && news[k] ==> built(BuildPhase::MakeWorkDir, news) == BuildPhase::Installed,
{
    lemma_all_but_last(news, k);
    let n = news.skip(k);
    let p = built(BuildPhase::MakeWorkDir, news.take(k));
    lemma_built_append(BuildPhase::MakeWorkDir, news.take(k), n);
    assert(news.take(k) + n =~= news);
    let q = container_build::next_build_phase(p, n[0]);
    if !news[k] || k == 8 {
        lemma_over(q, n.skip(1));
    }
}

proof fn lemma_built_append(p: BuildPhase, a: Seq<bool>, b: Seq<bool>)
    ensures
        built(p, a + b) == built(built(p, a), b),
    decreases a.len(),
{
    if a.len() == 0 {
        assert(a + b =~= b);
    } else {
        assert((a + b).skip(1) =~= a.skip(1) + b);
        lemma_built_append(container_build::next_build_phase(p, a[0]), a.skip(1), b);
    }
}

proof fn lemma_all_but_last(news: Seq<bool>, k: int)
    requires
        0 <= k < 9,
        news.len() > k,
        forall|i: int| 0 <= i < k ==> #[trigger] news[i],
    ensures
        ({
            let p = built(BuildPhase::MakeWorkDir, news.take(k));
            &&& p != BuildPhase::Failed && p != BuildPhase::Installed
            &&& container_build::phase_number(p) == k
            &&& k == 8 ==> p == BuildPhase::CopyKernel
        }),
    decreases k,
{
    if k > 0 {
        lemma_all_but_last(news, k - 1);
        let a = news.take(k - 1);
        let b = seq![true];
        assert(news[k - 1]);
        assert(news.take(k) =~= a + b);
        lemma_built_append(BuildPhase::MakeWorkDir, a, b);
        reveal_with_fuel(built, 2);
        let p = built(BuildPhase::MakeWorkDir, a);
        assert(built(p, b) == container_build::next_build_phase(p, true));
    } else {
        assert(news.take(0).len() == 0);
    }
}

/// The script that builds a kernel takes the base configuration of the architecture
/// it is for, and compiles with as many jobs as it is told.
pub proof fn law_build_script(arch: Arch, jobs: nat)
    ensures
        text::contains_text(
            container_build::script_text(arch, jobs),
            "base.config '"@ + container_build::config_url_text(arch),
        ),
        text::contains_text(
            container_build::script_text(arch, jobs),
            "make -j"@ + text::dec(jobs) + " vmlinux Image"@,
        ),
        text::contains_text(container_build::config_url_text(arch), "-ci-"@ + arch.text() + "-"@),
        container_build::config_url_text(Arch::Aarch64) != container_build::config_url_text(
            Arch::X86_64,
        ),
        container_build::subpath_text(Arch::Aarch64) != container_build::subpath_text(Arch::X86_64),
{
    lemma_config_urls();
    match arch {
        Arch::Aarch64 => {},
        Arch::X86_64 => {},
    }
    lemma_script_parts(arch, jobs);
}

proof fn lemma_config_urls()
    ensures
        text::contains_text(
            container_build::config_url_text(Arch::Aarch64),
            "-ci-"@ + "aarch64"@ + "-"@,
        ),
        text::contains_text(
            container_build::config_url_text(Arch::X86_64),
            "-ci-"@ + "x86_64"@ + "-"@,
        ),
        container_build::config_url_text(Arch::Aarch64) != container_build::config_url_text(
            Arch::X86_64,
        ),
        container_build::subpath_text(Arch::Aarch64) != container_build::subpath_text(Arch::X86_64),
{
    reveal_strlit("https://raw.githubusercontent.com/firecracker-microvm/firecracker/main/resources/guest_configs/microvm-kernel-ci-aarch64-6.1.config");
    reveal_strlit("https://raw.githubusercontent.com/firecracker-microvm/firecracker/main/resources/guest_configs/microvm-kernel-ci-x86_64-6.1.config");
    reveal_strlit("linux/arch/arm64/boot/Image");
    reveal_strlit("linux/vmlinux");
    reveal_strlit("-ci-");
    reveal_strlit("-");
    reveal_strlit("aarch64");
    reveal_strlit("x86_64");
    let a = container_build::config_url_text(Arch::Aarch64);
    let b = container_build::config_url_text(Arch::X86_64);
    let m = "-ci-"@ + "aarch64"@ + "-"@;
    let n = "-ci-"@ + "x86_64"@ + "-"@;
    let i = a.len() - m.len() - 10;
    let j = b.len() - n.len() - 10;
    assert(a.subrange(i, i + m.len()) =~= m);
    assert(text::occurs_at(a, m, i));
    assert(b.subrange(j, j + n.len()) =~= n);
    assert(text::occurs_at(b, n, j));
    assert(a.len() != b.len());
    assert("linux/arch/arm64/boot/Image"@.len() != "linux/vmlinux"@.len());
}

proof fn lemma_script_parts(arch: Arch, jobs: nat)
    ensures
        text::contains_text(
            container_build::script_text(arch, jobs),
            "base.config '"@ + container_build::config_url_text(arch),
        ),
        text::contains_text(
            container_build::script_text(arch, jobs),
            "make -j"@ + text::dec(jobs) + " vmlinux Image"@,
        ),
{
    let head = "set -e\necho '==> Downloading Firecracker CI kernel config...'\ncurl -fSL -o base.config '"@;
    let mid = "'\necho '==> Cloning kernel source (shallow, tag microvm-kernel-6.1.163-20.299.amzn2023)...'\ngit clone --depth 1 --branch 'microvm-kernel-6.1.163-20.299.amzn2023' 'https://github.com/amazonlinux/linux.git' linux\necho '==> Merging base config + fragments...'\ncd linux\nKCONFIG_CONFIG=.config scripts/kconfig/merge_config.sh -m ../base.config ../docker.fragment ../avf.fragment\nsed -i 's/^CONFIG_BUILD_SALT=.*/CONFIG_BUILD_SALT=\"\"/' .config\nmake olddefconfig\necho '==> Building kernel ("@;
    let jobs_made = " jobs)...'\nmake -j"@;
    let end = " vmlinux Image\necho '==> Done.'"@;
    let u = container_build::config_url_text(arch);
    let j = text::dec(jobs);
    let s = container_build::script_text(arch, jobs);
    assert(s =~= head + u + mid + j + jobs_made + j + end);
    assert(text::contains_text(s, "base.config '"@ + u)) by {
        reveal_strlit("set -e\necho '==> Downloading Firecracker CI kernel config...'\ncurl -fSL -o base.config '");
        reveal_strlit("base.config '");
        let m = "base.config '"@ + u;
        let i = head.len() - 13;
        assert(s.subrange(i, i + m.len()) =~= m);
        assert(text::occurs_at(s, m, i));
    }
    assert(text::contains_text(s, "make -j"@ + j + " vmlinux Image"@)) by {
        reveal_strlit(" jobs)...'\nmake -j");
        reveal_strlit(" vmlinux Image\necho '==> Done.'");
        reveal_strlit("make -j");
        reveal_strlit(" vmlinux Image");
        let before = head + u + mid + j;
        let m = "make -j"@ + j + " vmlinux Image"@;
        let i = before.len() + jobs_made.len() - 7;
        assert(s =~= before + (jobs_made + j + end));
        assert(s.subrange(i, i + m.len()) =~= m);
        assert(text::occurs_at(s, m, i));
    }
}

/// Whatever phase looks at a file, a file that is empty, cannot be read or has no
/// mark of a kernel ends the resolution there, and one that has such a mark does not.
pub proof fn law_only_kernels_are_taken(p: Phase, probe: ImageProbe, downloadable: bool)
    requires
        p == Phase::ProbeInPlace || p == Phase::ProbeSource || p == Phase::ProbeCopy || p
            == Phase::ProbeCached || p == Phase::ProbePartial,
    ensures
        ({
            let n = kernel::next_phase(
                p,
                kernel::good_news(ResolveEvent::Probed(probe)),
                downloadable,
            );
            &&& n == Phase::Failed || n == Phase::RemovePartial <==> !kernel::bootable(probe)
            &&& n == Phase::RemovePartial ==> p == Phase::ProbePartial
        }),
{
}

/// What came of the other phases is good news where it is what was hoped for: a path
/// that resolves and names a file, two files that are the same, work that was done,
/// a file that is there.
pub proof fn law_good_news(
    path: String,
    why: String,
    a: FileId,
    b: FileId,
    there: bool,
)
    ensures
        kernel::good_news(ResolveEvent::Canonical(Ok(path))) <==> paths::last_name(path@) is Some,
        !kernel::good_news(ResolveEvent::Canonical(Err(why))),
        kernel::good_news(ResolveEvent::Identified(a, b)) <==> kernel::same_file(a, b),
        kernel::good_news(ResolveEvent::Finished(Ok(()))),
        !kernel::good_news(ResolveEvent::Finished(Err(why))),
        kernel::good_news(ResolveEvent::Found(there)) <==> there,
{
}

/// A download goes to a file beside the kernel, never to the kernel itself, and it is
/// that file which is looked at before it is moved.
pub proof fn law_download_is_looked_at(r: Resolution)
    ensures
        r.partial_text() != r.dest@,
        r.dest@.is_prefix_of(r.partial_text()),
        r.phase == Phase::ProbePartial ==> r.probed_text() == r.partial_text(),
        r.phase == Phase::ProbeSource ==> r.probed_text() == r.src@,
        r.phase == Phase::ProbeCopy || r.phase == Phase::ProbeInPlace || r.phase == Phase::ProbeCached
            ==> r.probed_text() == r.dest@,
{
    reveal_strlit(".partial");
    assert(r.partial_text().len() == r.dest@.len() + 8);
    assert(r.partial_text().take(r.dest@.len() as int) =~= r.dest@);
}

/// What is read of a kernel is enough to tell it by: the marks of both kinds of image
/// lie in it, and nothing behind it makes a difference.
pub proof fn law_header_is_enough(h: Seq<u8>)
    ensures
        h.len() >= kernel::KERNEL_HEADER_LEN ==> kernel::is_elf(h) == kernel::is_elf(
            h.take(kernel::KERNEL_HEADER_LEN as int),
        ) && kernel::is_arm64_image(h) == kernel::is_arm64_image(
            h.take(kernel::KERNEL_HEADER_LEN as int),
        ),
{
}

} // verus!
