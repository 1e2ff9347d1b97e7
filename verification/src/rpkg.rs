//! The decisions of the `rpkg` command line: which program a call is meant for, how a
//! proxied program is launched, and which package operations a set of flags asks for.
use vstd::prelude::*;

verus! {

/// Whether two byte strings are equal.
fn bytes_equal(a: &[u8], b: &[u8]) -> (r: bool)
    ensures
        r == (a@ == b@),
{
    if a.len() != b.len() {
        return false;
    }
    let mut i: usize = 0;
    while i < a.len()
        invariant
            a@.len() == b@.len(),
            i <= a@.len(),
            forall|j: int| 0 <= j < i ==> a@[j] == b@[j],
        decreases a@.len() - i,
    {
        if a[i] != b[i] {
            return false;
        }
        i = i + 1;
    }
    assert(a@ =~= b@);
    true
}

/// Whether two strings hold the same characters.
pub fn str_equals(a: &str, b: &str) -> (r: bool)
    ensures
        r == (a@ == b@),
{
    let eq = bytes_equal(a.as_bytes(), b.as_bytes());
    proof {
        vstd::utf8::encode_utf8_decode_utf8(a@);
        vstd::utf8::encode_utf8_decode_utf8(b@);
    }
    eq
}

/// Whether a program called `name` is `rpkg` itself rather than a program it stands in for.
pub open spec fn is_rpkg_binary_spec(name: Seq<char>) -> bool {
    name == "rpkg"@ || name == "rpkg-real"@ || name == "rpkg_cli"@ || name
        == "librpkg_cli.so"@
}

/// Whether the program name the process was started under is one of the names of `rpkg`
/// itself; any other name means `rpkg` runs in place of the program of that name.
pub fn is_rpkg_binary(exe_name: &str) -> (r: bool)
    ensures
        r == is_rpkg_binary_spec(exe_name@),
{
    str_equals(exe_name, "rpkg") || str_equals(exe_name, "rpkg-real") || str_equals(
        exe_name,
        "rpkg_cli",
    ) || str_equals(exe_name, "librpkg_cli.so")
}

/// The ELF class byte of a file whose first bytes are `header`: the fifth byte when the
/// header holds at least five bytes that start with the ELF magic number, else nothing.
pub open spec fn elf_class_spec(header: Seq<u8>) -> Option<u8> {
    if header.len() >= 5 && header[0] == 0x7f && header[1] == 0x45 && header[2] == 0x4c
        && header[3] == 0x46 {
        Some(header[4])
    } else {
        None
    }
}

/// The ELF class of a file, read from its first bytes (1 for 32-bit, 2 for 64-bit);
/// `None` when the file is shorter than five bytes or is not an ELF file.
pub fn elf_class_of(header: &[u8]) -> (class: Option<u8>)
    ensures
        class == elf_class_spec(header@),
{
    if header.len() < 5 {
        return None;
    }
    if header[0] != 0x7f || header[1] != 0x45 || header[2] != 0x4c || header[3] != 0x46 {
        return None;
    }
    Some(header[4])
}

/// The system linker that can load an ELF file of the given class: the 64-bit linker for
/// class 2, the 32-bit one otherwise.
pub fn linker_for_class(class: Option<u8>) -> (linker: &'static str)
    ensures
        class == Some(2u8) ==> linker@ == "/system/bin/linker64"@,
        class != Some(2u8) ==> linker@ == "/system/bin/linker"@,
{
    if class == Some(2u8) {
        "/system/bin/linker64"
    } else {
        "/system/bin/linker"
    }
}

/// One way of starting a proxied program.
#[derive(Clone, Copy, Debug, PartialEq, Eq, Structural)]
pub enum ExecStrategy {
    /// Execute the file itself.
    Direct,
    /// Hand the file to the system linker.
    Linker,
    /// Hand the file to the system shell.
    Shell,
}

/// The ways to try, in order, to start a proxied program: an ELF file directly, then
/// through the linker, then through the shell; any other file through the shell alone.
pub open spec fn exec_strategies_spec(is_elf: bool) -> Seq<ExecStrategy> {
    if is_elf {
        seq![ExecStrategy::Direct, ExecStrategy::Linker, ExecStrategy::Shell]
    } else {
        seq![ExecStrategy::Shell]
    }
}

/// The ways to try, in order, to start a proxied program, each one tried when the one
/// before failed.
pub fn exec_strategies(is_elf: bool) -> (plan: Vec<ExecStrategy>)
    ensures
        plan@ == exec_strategies_spec(is_elf),
{
    let mut plan: Vec<ExecStrategy> = Vec::new();
    if is_elf {
        plan.push(ExecStrategy::Direct);
        plan.push(ExecStrategy::Linker);
    }
    plan.push(ExecStrategy::Shell);
    assert(plan@ =~= exec_strategies_spec(is_elf));
    plan
}

/// The arguments that select the program `exe_name` inside a multi-call binary named
/// `resolved_name`: coreutils takes `--coreutils-prog=NAME`, busybox and toybox take the
/// name itself, and nothing is added when the names agree or the binary is another one.
pub open spec fn multicall_args_spec(resolved_name: Seq<char>, exe_name: Seq<char>) -> Seq<
    Seq<char>,
> {
    if resolved_name == exe_name {
        Seq::empty()
    } else if resolved_name == "coreutils"@ {
        seq!["--coreutils-prog="@ + exe_name]
    } else if resolved_name == "busybox"@ || resolved_name == "toybox"@ {
        seq![exe_name]
    } else {
        Seq::empty()
    }
}

/// The arguments to put first when the program `exe_name` is provided by the multi-call
/// binary `resolved_name`.
pub fn multicall_args(resolved_name: &str, exe_name: &str) -> (args: Vec<String>)
    ensures
        args@.map_values(|s: String| s@) == multicall_args_spec(resolved_name@, exe_name@),
{
    let mut args: Vec<String> = Vec::new();
    if !str_equals(resolved_name, exe_name) {
        if str_equals(resolved_name, "coreutils") {
            let mut arg = "--coreutils-prog=".to_owned();
            arg.append(exe_name);
            args.push(arg);
        } else if str_equals(resolved_name, "busybox") || str_equals(resolved_name, "toybox") {
            args.push(exe_name.to_owned());
        }
    }
    assert(args@.map_values(|s: String| s@) =~= multicall_args_spec(resolved_name@, exe_name@));
    args
}

/// Whether a package called `name` is among the installed packages `installed`.
pub fn is_installed(installed: &[String], name: &str) -> (r: bool)
    ensures
        r == exists|i: int| 0 <= i < installed@.len() && #[trigger] installed@[i]@ == name@,
{
    let mut i: usize = 0;
    while i < installed.len()
        invariant
            i <= installed@.len(),
            forall|j: int| 0 <= j < i ==> #[trigger] installed@[j]@ != name@,
        decreases installed@.len() - i,
    {
        if str_equals(installed[i].as_str(), name) {
            return true;
        }
        i = i + 1;
    }
    false
}

/// The operation flags of the `rpkg` command line.
#[derive(Clone, Copy, Debug, PartialEq, Eq, Structural)]
pub struct OperationFlags {
    /// `-S`: install or search packages from the repository.
    pub sync: bool,
    /// `-R`: remove packages.
    pub remove: bool,
    /// `-Q`: list the installed packages.
    pub query: bool,
    /// `-y`: refresh the package database first.
    pub refresh: bool,
    /// `-u`: upgrade the installed packages.
    pub sysupgrade: bool,
    /// `-s`: search instead of installing.
    pub search: bool,
}

/// One step of an `rpkg` run.
#[derive(Clone, Copy, Debug, PartialEq, Eq, Structural)]
pub enum Step {
    /// Refresh the package database.
    Refresh,
    /// Search the repository for each target.
    Search,
    /// Upgrade every installed package.
    Upgrade,
    /// Install the targets.
    Install,
    /// Remove the targets.
    Remove,
    /// List the installed packages.
    ListInstalled,
    /// Report that no operation was given.
    NoOperation,
}

/// The steps an `rpkg` run takes for `flags`, in order, when `has_targets` tells whether
/// package names were given. A sync refreshes first when asked; a sync search searches and
/// does nothing else; otherwise a sync upgrades when asked and then installs the targets.
/// Remove removes the targets; query lists the installed packages; without any of the three
/// the run reports that no operation was given.
pub open spec fn plan_spec(flags: OperationFlags, has_targets: bool) -> Seq<Step> {
    if flags.sync {
        let refresh: Seq<Step> = if flags.refresh {
            seq![Step::Refresh]
        } else {
            Seq::empty()
        };
        if flags.search {
            refresh.push(Step::Search)
        } else {
            let upgrade: Seq<Step> = if flags.sysupgrade {
                seq![Step::Upgrade]
            } else {
                Seq::empty()
            };
            let install: Seq<Step> = if has_targets {
                seq![Step::Install]
            } else {
                Seq::empty()
            };
            refresh + upgrade + install
        }
    } else if flags.remove {
        if has_targets {
            seq![Step::Remove]
        } else {
            Seq::empty()
        }
    } else if flags.query {
        seq![Step::ListInstalled]
    } else {
        seq![Step::NoOperation]
    }
}

/// The steps an `rpkg` run takes for `flags`, in order.
pub fn plan_operation(flags: OperationFlags, has_targets: bool) -> (plan: Vec<Step>)
    ensures
        plan@ == plan_spec(flags, has_targets),
{
    let mut plan: Vec<Step> = Vec::new();
    if flags.sync {
        if flags.refresh {
            plan.push(Step::Refresh);
        }
        if flags.search {
            plan.push(Step::Search);
            assert(plan@ =~= plan_spec(flags, has_targets));
            return plan;
        }
        if flags.sysupgrade {
            plan.push(Step::Upgrade);
        }
        if has_targets {
            plan.push(Step::Install);
        }
    } else if flags.remove {
        if has_targets {
            plan.push(Step::Remove);
        }
    } else if flags.query {
        plan.push(Step::ListInstalled);
    } else {
        plan.push(Step::NoOperation);
    }
    assert(plan@ =~= plan_spec(flags, has_targets));
    plan
}

/// Which steps an `rpkg` run takes, flag by flag: a refresh only with `-S -y`; a search
/// exactly with `-S -s` (whether or not `-y` is given), and then neither an upgrade nor an
/// install; an upgrade with `-S -u` and no `-s`; an install with `-S`, no `-s` and package
/// names; a removal with `-R` (and no `-S`) and package names; a listing with `-Q` alone among
/// the three operations; the report of a missing operation when none of `-S`, `-R`, `-Q` is
/// given. A refresh always comes first, and no step is taken twice.
pub proof fn lemma_plan_steps(flags: OperationFlags, has_targets: bool)
    ensures
        ({
            let p = plan_spec(flags, has_targets);
            &&& p.contains(Step::Refresh) == (flags.sync && flags.refresh)
            &&& p.contains(Step::Search) == (flags.sync && flags.search)
            &&& p.contains(Step::Upgrade) == (flags.sync && !flags.search && flags.sysupgrade)
            &&& p.contains(Step::Install) == (flags.sync && !flags.search && has_targets)
            &&& p.contains(Step::Remove) == (!flags.sync && flags.remove && has_targets)
            &&& p.contains(Step::ListInstalled) == (!flags.sync && !flags.remove && flags.query)
            &&& p.contains(Step::NoOperation) == (!flags.sync && !flags.remove && !flags.query)
            &&& p.contains(Step::Refresh) ==> p[0] == Step::Refresh
            &&& forall|i: int, j: int| 0 <= i < j < p.len() ==> p[i] != p[j]
        }),
{
    let p = plan_spec(flags, has_targets);
    assert(p.contains(Step::Refresh) == (flags.sync && flags.refresh)) by {
        if flags.sync && flags.refresh {
            assert(p[0] == Step::Refresh);
        }
    }
    assert(p.contains(Step::Search) == (flags.sync && flags.search)) by {
        if flags.sync && flags.search {
            assert(p[p.len() - 1] == Step::Search);
        }
    }
    assert(p.contains(Step::Upgrade) == (flags.sync && !flags.search && flags.sysupgrade)) by {
        if flags.sync && !flags.search && flags.sysupgrade {
            if flags.refresh {
                assert(p[1] == Step::Upgrade);
            } else {
                assert(p[0] == Step::Upgrade);
            }
        }
    }
    assert(p.contains(Step::Install) == (flags.sync && !flags.search && has_targets)) by {
        if flags.sync && !flags.search && has_targets {
            assert(p[p.len() - 1] == Step::Install);
        }
    }
    assert(p.contains(Step::Remove) == (!flags.sync && flags.remove && has_targets)) by {
        if !flags.sync && flags.remove && has_targets {
            assert(p[0] == Step::Remove);
        }
    }
    assert(p.contains(Step::ListInstalled) == (!flags.sync && !flags.remove && flags.query)) by {
        if !flags.sync && !flags.remove && flags.query {
            assert(p[0] == Step::ListInstalled);
        }
    }
    assert(p.contains(Step::NoOperation) == (!flags.sync && !flags.remove && !flags.query)) by {
        if !flags.sync && !flags.remove && !flags.query {
            assert(p[0] == Step::NoOperation);
        }
    }
}

} // verus!
