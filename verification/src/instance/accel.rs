//! Choosing the emulator and the accelerator that an Instance is launched with.

use vstd::prelude::*;

use crate::config;
use crate::instance::hardware_spec::{Accel, AccelMode};
use crate::text;

verus! {

/// The outcome of resolving the requested accelerator to a concrete one.
#[derive(Debug, Clone, PartialEq, Eq)]
pub struct AccelResolution {
    /// The accelerator QEMU will be launched with.
    pub accel: Accel,
    /// The mode that was requested.
    pub requested: AccelMode,
    /// Human-readable reason for the choice.
    pub reason: String,
}

/// Raised when KVM is required but not accessible.
#[derive(Debug, Clone, PartialEq, Eq)]
pub struct AccelError(pub String);

/// Why TCG is used when it was asked for.
pub const TCG_REQUESTED: &'static str = "accel=tcg requested; using TCG software emulation.";

/// Why KVM is used when it was asked for.
pub const KVM_REQUESTED: &'static str = "accel=kvm requested; /dev/kvm is accessible.";

/// Why KVM is chosen automatically.
pub const AUTO_KVM: &'static str = "accel=auto: /dev/kvm is accessible, using KVM.";

/// Why TCG is chosen automatically.
pub const AUTO_TCG: &'static str =
    "accel=auto: /dev/kvm is not accessible, falling back to TCG.";

/// Why KVM is refused.
pub const KVM_MISSING: &'static str =
    "accel=kvm was requested but /dev/kvm is not accessible. Grant the container/user access to /dev/kvm (add it as a device and join the kvm group), or use accel=auto or accel=tcg.";

/// The accelerator and the reason for it, given whether KVM is accessible; or the refusal.
pub open spec fn choice(requested: AccelMode, kvm: bool) -> Result<(Accel, Seq<char>), Seq<char>> {
    match requested {
        AccelMode::Tcg => Ok((Accel::Tcg, TCG_REQUESTED@)),
        AccelMode::Kvm => if kvm {
            Ok((Accel::Kvm, KVM_REQUESTED@))
        } else {
            Err(KVM_MISSING@)
        },
        AccelMode::Auto => if kvm {
            Ok((Accel::Kvm, AUTO_KVM@))
        } else {
            Ok((Accel::Tcg, AUTO_TCG@))
        },
    }
}

/// A resolution, or a refusal, is what the specification gives.
pub open spec fn agrees(
    r: Result<AccelResolution, AccelError>,
    requested: AccelMode,
    s: Result<(Accel, Seq<char>), Seq<char>>,
) -> bool {
    match (r, s) {
        (Ok(a), Ok(c)) => a.accel == c.0 && a.requested == requested && a.reason@ == c.1,
        (Err(e), Err(m)) => e.0@ == m,
        _ => false,
    }
}

/// Resolve the requested accelerator mode to a concrete accelerator, reporting which was
/// chosen and why. `kvm_available` says whether KVM is accessible; it is not asked when TCG
/// was requested.
pub fn resolve_accel<F: Fn() -> bool>(requested: AccelMode, kvm_available: F) -> (r: Result<
    AccelResolution,
    AccelError,
>)
    requires
        call_requires(kvm_available, ()),
    ensures
        if requested == AccelMode::Tcg {
            agrees(r, requested, choice(requested, false))
        } else {
            exists|kvm: bool| #[trigger]
                call_ensures(kvm_available, (), kvm) && agrees(r, requested, choice(requested, kvm))
        },
{
    match requested {
        AccelMode::Tcg => Ok(
            AccelResolution { accel: Accel::Tcg, requested, reason: TCG_REQUESTED.to_string() },
        ),
        AccelMode::Kvm => {
            let kvm = kvm_available();
            assert(call_ensures(kvm_available, (), kvm));
            if !kvm {
                return Err(AccelError(KVM_MISSING.to_string()));
            }
            Ok(AccelResolution { accel: Accel::Kvm, requested, reason: KVM_REQUESTED.to_string() })
        },
        AccelMode::Auto => {
            let kvm = kvm_available();
            assert(call_ensures(kvm_available, (), kvm));
            if kvm {
                Ok(AccelResolution { accel: Accel::Kvm, requested, reason: AUTO_KVM.to_string() })
            } else {
                Ok(AccelResolution { accel: Accel::Tcg, requested, reason: AUTO_TCG.to_string() })
            }
        },
    }
}

// ---------------------------------------------------------------------------
// Emulators
// ---------------------------------------------------------------------------

/// The emulator of the ARM boards.
pub const ARM_QEMU_BINARY: &'static str = "qemu-system-aarch64";

/// The machine is an ARM board: `virt` or one of the `raspi` boards.
pub open spec fn is_arm_machine(machine: Seq<char>) -> bool {
    text::has_prefix(machine, "virt"@) || text::has_prefix(machine, "raspi"@)
}

/// The emulator that a machine needs.
pub open spec fn emulator(machine: Seq<char>) -> Seq<char> {
    if is_arm_machine(machine) {
        ARM_QEMU_BINARY@
    } else {
        config::DEFAULT_QEMU_BINARY@
    }
}

/// The `qemu-system-*` binary that a machine needs.
pub fn qemu_binary_for_machine(machine: &str) -> (r: String)
    ensures
        r@ == emulator(machine@),
{
    if text::starts_with(machine, "virt") || text::starts_with(machine, "raspi") {
        ARM_QEMU_BINARY.to_string()
    } else {
        config::DEFAULT_QEMU_BINARY.to_string()
    }
}

/// What follows the last slash of a path.
pub open spec fn file_name(path: Seq<char>) -> Seq<char>
    decreases path.len(),
{
    if path.contains('/') && path.len() > 0 {
        file_name(path.skip(1))
    } else {
        path
    }
}

/// The architecture that an emulator binary emulates: what follows `qemu-system-` in its
/// file name, or the whole file name where it has another form.
pub open spec fn arch_of(binary: Seq<char>) -> Seq<char> {
    let name = file_name(binary);
    if text::has_prefix(name, "qemu-system-"@) {
        name.skip("qemu-system-"@.len() as int)
    } else {
        name
    }
}

/// What follows the last slash of `path`.
pub fn base_name(path: &str) -> (r: String)
    ensures
        r@ == file_name(path@),
{
    let x = text::to_chars(path);
    let mut from: usize = 0;
    let mut i: usize = 0;
    assert(x@.skip(0) =~= x@);
    while i < x.len()
        invariant
            from <= i <= x.len(),
            x@ == path@,
            forall|j: int| from <= j < i ==> x@[j] != '/',
            file_name(x@.skip(from as int)) == file_name(x@),
        decreases x.len() - i,
    {
        if x[i] == '/' {
            proof {
                lemma_file_name_skip(x@, from as int, i as int);
            }
            from = i + 1;
        }
        i = i + 1;
    }
    assert(!x@.skip(from as int).contains('/'));
    let out = text::from_chars(&x, from, x.len());
    assert(out@ =~= x@.skip(from as int));
    out
}

proof fn lemma_file_name_skip(s: Seq<char>, from: int, i: int)
    requires
        0 <= from <= i < s.len(),
        s[i] == '/',
    ensures
        file_name(s.skip(from)) == file_name(s.skip(i + 1)),
    decreases i - from,
{
    assert(s.skip(from)[i - from] == '/');
    assert(s.skip(from).skip(1) =~= s.skip(from + 1));
    if from < i {
        lemma_file_name_skip(s, from + 1, i);
    }
}

/// The architecture that an emulator binary emulates.
pub fn qemu_arch_of_binary(binary: &str) -> (r: String)
    ensures
        r@ == arch_of(binary@),
{
    let name = base_name(binary);
    match text::strip_prefix(name.as_str(), "qemu-system-") {
        Some(arch) => arch,
        None => name,
    }
}

/// The accelerator for a guest, given the architectures of the emulator and of the host, the
/// machine, and whether KVM is accessible. An automatic choice takes KVM only for a guest of
/// the host's own architecture, and never for a `raspi` board.
pub open spec fn guest_choice(
    requested: AccelMode,
    guest_arch: Seq<char>,
    host_arch: Seq<char>,
    machine: Seq<char>,
    kvm: bool,
) -> Result<(Accel, Seq<char>), Seq<char>> {
    if requested == AccelMode::Auto && guest_arch != host_arch {
        Ok(
            (
                Accel::Tcg,
                "accel=auto: guest arch "@ + guest_arch + " does not match host arch "@ + host_arch
                    + ", falling back to TCG."@,
            ),
        )
    } else if requested == AccelMode::Auto && text::has_prefix(machine, "raspi"@) {
        Ok(
            (
                Accel::Tcg,
                "accel=auto: machine "@ + machine + " cannot use KVM, falling back to TCG."@,
            ),
        )
    } else {
        choice(requested, kvm)
    }
}

/// Resolve the accelerator for a guest on this host, given whether KVM is accessible.
pub fn resolve_guest_accel(
    requested: AccelMode,
    guest_arch: &str,
    host_arch: &str,
    machine: &str,
    kvm_available: bool,
) -> (r: Result<AccelResolution, AccelError>)
    ensures
        agrees(
            r,
            requested,
            guest_choice(requested, guest_arch@, host_arch@, machine@, kvm_available),
        ),
{
    if requested == AccelMode::Auto && !text::str_eq(guest_arch, host_arch) {
        let reason = text::cat5(
            "accel=auto: guest arch ",
            guest_arch,
            " does not match host arch ",
            host_arch,
            ", falling back to TCG.",
        );
        return Ok(AccelResolution { accel: Accel::Tcg, requested, reason });
    }
    if requested == AccelMode::Auto && text::starts_with(machine, "raspi") {
        let reason = text::cat3(
            "accel=auto: machine ",
            machine,
            " cannot use KVM, falling back to TCG.",
        );
        return Ok(AccelResolution { accel: Accel::Tcg, requested, reason });
    }
    let probe = || -> (kvm: bool)
        ensures
            kvm == kvm_available,
        { kvm_available };
    resolve_accel(requested, probe)
}

/// KVM is never used for a guest of another architecture unless it was asked for.
pub proof fn auto_never_crosses_architectures(
    guest_arch: Seq<char>,
    host_arch: Seq<char>,
    machine: Seq<char>,
    kvm: bool,
)
    requires
        guest_arch != host_arch,
    ensures
        guest_choice(AccelMode::Auto, guest_arch, host_arch, machine, kvm) matches Ok(c) && c.0
            == Accel::Tcg,
{
}

/// KVM is used exactly where it is accessible and either asked for, or chosen automatically for
/// a guest of the host's architecture that is no `raspi` board. Only a request for KVM can be
/// refused, and only where it is not accessible.
pub proof fn kvm_is_used_where_it_can_be(
    requested: AccelMode,
    guest_arch: Seq<char>,
    host_arch: Seq<char>,
    machine: Seq<char>,
    kvm: bool,
)
    ensures
        ({
            let r = guest_choice(requested, guest_arch, host_arch, machine, kvm);
            &&& r is Err <==> requested == AccelMode::Kvm && !kvm
            &&& r is Ok ==> (r->Ok_0.0 == Accel::Kvm <==> kvm && (requested == AccelMode::Kvm || (
            requested == AccelMode::Auto && guest_arch == host_arch && !text::has_prefix(
                machine,
                "raspi"@,
            ))))
        }),
        ({
            let r = choice(requested, kvm);
            &&& r is Err <==> requested == AccelMode::Kvm && !kvm
            &&& r is Ok ==> (r->Ok_0.0 == Accel::Kvm <==> kvm && requested != AccelMode::Tcg)
        }),
{
}

/// The reasons differ from one another, so that each tells what led to the choice.
pub proof fn reasons_tell_the_choices_apart(a: AccelMode, b: AccelMode, k: bool, l: bool)
    requires
        choice(a, k) is Ok,
        choice(b, l) is Ok,
        choice(a, k)->Ok_0.1 == choice(b, l)->Ok_0.1,
    ensures
        a == b,
        a == AccelMode::Tcg || k == l,
{
    reveal_strlit("accel=tcg requested; using TCG software emulation.");
    reveal_strlit("accel=kvm requested; /dev/kvm is accessible.");
    reveal_strlit("accel=auto: /dev/kvm is accessible, using KVM.");
    reveal_strlit("accel=auto: /dev/kvm is not accessible, falling back to TCG.");
    assert(TCG_REQUESTED@[6] == 't' && KVM_REQUESTED@[6] == 'k' && AUTO_KVM@[6] == 'a' && AUTO_TCG@[6]
        == 'a');
    assert(AUTO_KVM@.len() != AUTO_TCG@.len());
}

/// The ARM boards, those whose names begin with `virt` or `raspi`, get the ARM emulator, and
/// all others the default one.
pub proof fn boards_get_their_emulator(rest: Seq<char>, machine: Seq<char>)
    ensures
        emulator("virt"@ + rest) == ARM_QEMU_BINARY@,
        emulator("raspi"@ + rest) == ARM_QEMU_BINARY@,
        !text::has_prefix(machine, "virt"@) && !text::has_prefix(machine, "raspi"@) ==> emulator(
            machine,
        ) == config::DEFAULT_QEMU_BINARY@,
{
    text::parts_are_found(Seq::empty(), "virt"@, rest, machine);
    text::parts_are_found(Seq::empty(), "raspi"@, rest, machine);
}

/// The file name of a path is what follows its last slash, and the architecture of an emulator
/// is what follows `qemu-system-` in its file name, wherever the binary lies.
pub proof fn architectures_are_read_off_the_binary(dir: Seq<char>, name: Seq<char>, arch: Seq<char>)
    requires
        !name.contains('/'),
        !arch.contains('/'),
    ensures
        file_name(name) == name,
        file_name(dir + seq!['/'] + name) == name,
        arch_of("qemu-system-"@ + arch) == arch,
        arch_of(dir + seq!['/'] + ("qemu-system-"@ + arch)) == arch,
        !text::has_prefix(name, "qemu-system-"@) ==> arch_of(name) == name,
{
    let binary = "qemu-system-"@ + arch;
    reveal_strlit("qemu-system-");
    assert(!binary.contains('/')) by {
        if binary.contains('/') {
            let i = binary.index_of('/');
            if i >= "qemu-system-"@.len() {
                assert(arch[i - "qemu-system-"@.len()] == '/');
            }
        }
    }
    text::parts_are_found(Seq::empty(), "qemu-system-"@, arch, binary);
    assert(binary.skip("qemu-system-"@.len() as int) =~= arch);
    let a = dir + seq!['/'] + name;
    assert(a[dir.len() as int] == '/');
    lemma_file_name_skip(a, 0, dir.len() as int);
    assert(a.skip(0) =~= a);
    assert(a.skip(dir.len() as int + 1) =~= name);
    let b = dir + seq!['/'] + binary;
    assert(b[dir.len() as int] == '/');
    lemma_file_name_skip(b, 0, dir.len() as int);
    assert(b.skip(0) =~= b);
    assert(b.skip(dir.len() as int + 1) =~= binary);
}

/// What is said of a resolution is all that it holds: the accelerator, the mode that was asked for
/// and the reason, or the text of the error.
pub proof fn resolutions_are_seen_whole(
    r: Result<AccelResolution, AccelError>,
    requested: AccelMode,
    s: Result<(Accel, Seq<char>), Seq<char>>,
)
    ensures
        agrees(r, requested, s) <==> (r is Ok && s is Ok && r->Ok_0.accel == s->Ok_0.0
            && r->Ok_0.requested == requested && r->Ok_0.reason@ == s->Ok_0.1) || (r is Err && s
            is Err && r->Err_0.0@ == s->Err_0),
{
}

/// Automatic choice falls back where the architectures differ and says both, or where the board
/// cannot use KVM and says which; any other choice goes by whether KVM can be used.
pub proof fn fallbacks_say_why(
    requested: AccelMode,
    guest: Seq<char>,
    host: Seq<char>,
    machine: Seq<char>,
    kvm: bool,
)
    ensures
        requested == AccelMode::Auto && guest != host ==> guest_choice(
            requested,
            guest,
            host,
            machine,
            kvm,
        ) == Ok::<(Accel, Seq<char>), Seq<char>>(
            (
                Accel::Tcg,
                "accel=auto: guest arch "@ + guest + " does not match host arch "@ + host
                    + ", falling back to TCG."@,
            ),
        ),
        requested == AccelMode::Auto && guest == host && "raspi"@.is_prefix_of(machine)
            ==> guest_choice(requested, guest, host, machine, kvm) == Ok::<
            (Accel, Seq<char>),
            Seq<char>,
        >(
            (
                Accel::Tcg,
                "accel=auto: machine "@ + machine + " cannot use KVM, falling back to TCG."@,
            ),
        ),
        requested != AccelMode::Auto || (guest == host && !"raspi"@.is_prefix_of(machine))
            ==> guest_choice(requested, guest, host, machine, kvm) == choice(requested, kvm),
        choice(AccelMode::Tcg, kvm) == Ok::<(Accel, Seq<char>), Seq<char>>(
            (Accel::Tcg, TCG_REQUESTED@),
        ),
        choice(AccelMode::Kvm, true) == Ok::<(Accel, Seq<char>), Seq<char>>(
            (Accel::Kvm, KVM_REQUESTED@),
        ),
        choice(AccelMode::Kvm, false) == Err::<(Accel, Seq<char>), Seq<char>>(KVM_MISSING@),
        choice(AccelMode::Auto, true) == Ok::<(Accel, Seq<char>), Seq<char>>(
            (Accel::Kvm, AUTO_KVM@),
        ),
        choice(AccelMode::Auto, false) == Ok::<(Accel, Seq<char>), Seq<char>>(
            (Accel::Tcg, AUTO_TCG@),
        ),
{
    let p = "raspi"@;
    if p.len() <= machine.len() {
        assert(machine.take(p.len() as int) =~= machine.subrange(0, p.len() as int));
    }
}

} // verus!
