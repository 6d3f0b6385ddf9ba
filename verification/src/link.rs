//! The linking pipeline as data: the exact, order-sensitive command lines
//! that rebuild the per-target host runtime and invoke the platform linker.
//! Running the commands is the caller's job; what to run, with which
//! arguments in which order, is computed and pinned down here.

use vstd::prelude::*;
use vstd::string::StringExecFns;
use crate::errors::{BuildError, BuildErrVal};
use crate::target::{ArchDesc, OsDesc, TargetTriple, spec_arch_name, spec_arch_triple_name};

verus! {

/// One external-tool invocation: the program, its arguments in order, and
/// whether the inherited process environment is cleared first (it always
/// is, so no ambient variable can sway a link).
pub struct ToolCommand {
    pub program: String,
    pub args: Vec<String>,
    pub clear_env: bool,
}

/// The value of a `ToolCommand`.
pub ghost struct CmdVal {
    pub program: Seq<char>,
    pub args: Seq<Seq<char>>,
    pub clear_env: bool,
}

/// The values of a list of argument strings.
pub open spec fn strs_view(s: Seq<String>) -> Seq<Seq<char>> {
    s.map_values(|x: String| x@)
}

impl View for ToolCommand {
    type V = CmdVal;

    open spec fn view(&self) -> CmdVal {
        CmdVal { program: self.program@, args: strs_view(self.args@), clear_env: self.clear_env }
    }
}

/// The values of a command list.
pub open spec fn cmds_view(s: Seq<ToolCommand>) -> Seq<CmdVal> {
    s.map_values(|c: ToolCommand| c@)
}

/// The five fixed file names the host rebuild works with, all siblings in
/// one build directory: the mandatory low-level source, its object, the
/// optional secondary source, its object, and the merged host object.
pub struct HostPaths {
    pub c_src: String,
    pub c_obj: String,
    pub rust_src: String,
    pub rust_obj: String,
    pub host_obj: String,
}

/// The value of a `HostPaths`.
pub ghost struct HostPathsVal {
    pub c_src: Seq<char>,
    pub c_obj: Seq<char>,
    pub rust_src: Seq<char>,
    pub rust_obj: Seq<char>,
    pub host_obj: Seq<char>,
}

impl View for HostPaths {
    type V = HostPathsVal;

    open spec fn view(&self) -> HostPathsVal {
        HostPathsVal {
            c_src: self.c_src@,
            c_obj: self.c_obj@,
            rust_src: self.rust_src@,
            rust_obj: self.rust_obj@,
            host_obj: self.host_obj@,
        }
    }
}

fn concat_path(dir: &str, name: &str) -> (r: String)
    ensures
        r@ == dir@ + name@,
{
    let mut s = String::from_str(dir);
    s.append(name);
    s
}

/// Derives the host file paths from the build directory by fixed-name
/// substitution; one directory serves at most one in-flight build.
pub fn host_paths(dir: &str) -> (r: HostPaths)
    ensures
        r@ == (HostPathsVal {
            c_src: dir@ + "/host.c"@,
            c_obj: dir@ + "/c_host.o"@,
            rust_src: dir@ + "/host.rs"@,
            rust_obj: dir@ + "/rust_host.o"@,
            host_obj: dir@ + "/host.o"@,
        }),
{
    HostPaths {
        c_src: concat_path(dir, "/host.c"),
        c_obj: concat_path(dir, "/c_host.o"),
        rust_src: concat_path(dir, "/host.rs"),
        rust_obj: concat_path(dir, "/rust_host.o"),
        host_obj: concat_path(dir, "/host.o"),
    }
}

/// Compiling the mandatory host source to its object.
pub open spec fn spec_compile_c_cmd(p: HostPathsVal) -> CmdVal {
    CmdVal {
        program: "clang"@,
        args: seq!["-c"@, p.c_src, "-o"@, p.c_obj],
        clear_env: true,
    }
}

/// Compiling the optional secondary host source to its object.
pub open spec fn spec_compile_rust_cmd(p: HostPathsVal) -> CmdVal {
    CmdVal { program: "rustc"@, args: seq![p.rust_src, "-o"@, p.rust_obj], clear_env: true }
}

/// Partial-linking the two host objects into one relocatable object.
pub open spec fn spec_partial_link_cmd(p: HostPathsVal) -> CmdVal {
    CmdVal {
        program: "ld"@,
        args: seq!["-r"@, p.c_obj, p.rust_obj, "-o"@, p.host_obj],
        clear_env: true,
    }
}

/// Removing the two intermediate objects after the merge.
pub open spec fn spec_cleanup_cmd(p: HostPathsVal) -> CmdVal {
    CmdVal { program: "rm"@, args: seq!["-f"@, p.rust_obj, p.c_obj], clear_env: true }
}

/// Renaming the single compiled object to the final host-object name.
pub open spec fn spec_rename_cmd(p: HostPathsVal) -> CmdVal {
    CmdVal { program: "mv"@, args: seq![p.c_obj, p.host_obj], clear_env: true }
}

/// The host rebuild, as an ordered command list. With only the mandatory
/// source present, its compiled object is renamed to the host object and
/// nothing is merged; with the secondary source present, both sources are
/// compiled independently, partial-linked into one relocatable object,
/// and the intermediates are removed.
pub open spec fn spec_host_plan(p: HostPathsVal, has_secondary: bool) -> Seq<CmdVal> {
    if has_secondary {
        seq![
            spec_compile_c_cmd(p),
            spec_compile_rust_cmd(p),
            spec_partial_link_cmd(p),
            spec_cleanup_cmd(p),
        ]
    } else {
        seq![spec_compile_c_cmd(p), spec_rename_cmd(p)]
    }
}

fn push_arg(args: &mut Vec<String>, s: &str)
    ensures
        strs_view(final(args)@) == strs_view(old(args)@).push(s@),
{
    args.push(String::from_str(s));
    proof {
        assert(strs_view(args@) =~= strs_view(old(args)@).push(s@));
    }
}

fn push_arg_string(args: &mut Vec<String>, s: &String)
    ensures
        strs_view(final(args)@) == strs_view(old(args)@).push(s@),
{
    args.push(s.clone());
    proof {
        assert(strs_view(args@) =~= strs_view(old(args)@).push(s@));
    }
}

fn compile_c_cmd(p: &HostPaths) -> (r: ToolCommand)
    ensures
        r@ == spec_compile_c_cmd(p@),
{
    let mut args: Vec<String> = Vec::new();
    push_arg(&mut args, "-c");
    push_arg_string(&mut args, &p.c_src);
    push_arg(&mut args, "-o");
    push_arg_string(&mut args, &p.c_obj);
    proof {
        assert(strs_view(args@) =~= spec_compile_c_cmd(p@).args);
    }
    ToolCommand { program: String::from_str("clang"), args, clear_env: true }
}

fn compile_rust_cmd(p: &HostPaths) -> (r: ToolCommand)
    ensures
        r@ == spec_compile_rust_cmd(p@),
{
    let mut args: Vec<String> = Vec::new();
    push_arg_string(&mut args, &p.rust_src);
    push_arg(&mut args, "-o");
    push_arg_string(&mut args, &p.rust_obj);
    proof {
        assert(strs_view(args@) =~= spec_compile_rust_cmd(p@).args);
    }
    ToolCommand { program: String::from_str("rustc"), args, clear_env: true }
}

fn partial_link_cmd(p: &HostPaths) -> (r: ToolCommand)
    ensures
        r@ == spec_partial_link_cmd(p@),
{
    let mut args: Vec<String> = Vec::new();
    push_arg(&mut args, "-r");
    push_arg_string(&mut args, &p.c_obj);
    push_arg_string(&mut args, &p.rust_obj);
    push_arg(&mut args, "-o");
    push_arg_string(&mut args, &p.host_obj);
    proof {
        assert(strs_view(args@) =~= spec_partial_link_cmd(p@).args);
    }
    ToolCommand { program: String::from_str("ld"), args, clear_env: true }
}

fn cleanup_cmd(p: &HostPaths) -> (r: ToolCommand)
    ensures
        r@ == spec_cleanup_cmd(p@),
{
    let mut args: Vec<String> = Vec::new();
    push_arg(&mut args, "-f");
    push_arg_string(&mut args, &p.rust_obj);
    push_arg_string(&mut args, &p.c_obj);
    proof {
        assert(strs_view(args@) =~= spec_cleanup_cmd(p@).args);
    }
    ToolCommand { program: String::from_str("rm"), args, clear_env: true }
}

fn rename_cmd(p: &HostPaths) -> (r: ToolCommand)
    ensures
        r@ == spec_rename_cmd(p@),
{
    let mut args: Vec<String> = Vec::new();
    push_arg_string(&mut args, &p.c_obj);
    push_arg_string(&mut args, &p.host_obj);
    proof {
        assert(strs_view(args@) =~= spec_rename_cmd(p@).args);
    }
    ToolCommand { program: String::from_str("mv"), args, clear_env: true }
}

/// The ordered host-rebuild command list for one build directory;
/// `has_secondary` says whether the optional secondary host source is
/// present beside the mandatory one.
pub fn host_rebuild_plan(p: &HostPaths, has_secondary: bool) -> (r: Vec<ToolCommand>)
    ensures
        cmds_view(r@) == spec_host_plan(p@, has_secondary),
{
    let mut r: Vec<ToolCommand> = Vec::new();
    r.push(compile_c_cmd(p));
    if has_secondary {
        r.push(compile_rust_cmd(p));
        r.push(partial_link_cmd(p));
        r.push(cleanup_cmd(p));
    } else {
        r.push(rename_cmd(p));
    }
    proof {
        assert(cmds_view(r@) =~= spec_host_plan(p@, has_secondary));
    }
    r
}

/// Whether a link recipe exists for the descriptor.
pub open spec fn link_supported(t: TargetTriple) -> bool {
    t.arch == ArchDesc::X86_64 && (t.os == OsDesc::Linux || t.os == OsDesc::Darwin)
}

/// The fixed arguments a Linux link starts with: the architecture flag,
/// the three C-runtime startup objects, and the dynamic-linker path.
pub open spec fn linux_prefix(arch_name: Seq<char>) -> Seq<Seq<char>> {
    seq![
        "-arch"@,
        arch_name,
        "/usr/lib/x86_64-linux-gnu/crti.o"@,
        "/usr/lib/x86_64-linux-gnu/crtn.o"@,
        "/usr/lib/x86_64-linux-gnu/Scrt1.o"@,
        "-dynamic-linker"@,
        "/lib64/ld-linux-x86-64.so.2"@,
    ]
}

/// The ordered Linux system-library flags, all after the object inputs.
pub open spec fn linux_libs() -> Seq<Seq<char>> {
    seq![
        "-lc"@,
        "-lm"@,
        "-lpthread"@,
        "-ldl"@,
        "-lrt"@,
        "-lutil"@,
        "-lc_nonshared"@,
        "-lc++"@,
        "-lunwind"@,
    ]
}

/// The fixed arguments a macOS link starts with (the system start files
/// are implicit there); the architecture is named in its target-triple
/// form, the one the macOS linker accepts.
pub open spec fn macos_prefix(arch_name: Seq<char>) -> Seq<Seq<char>> {
    seq!["-arch"@, arch_name]
}

/// The ordered, shorter macOS system-library flags.
pub open spec fn macos_libs() -> Seq<Seq<char>> {
    seq!["-lSystem"@, "-lresolv"@, "-lpthread"@, "-lc++"@]
}

/// Every link argument list has this shape: fixed prefix, then the host
/// object, then the generated object, then the library flags, then the
/// output. The linker scans inputs left to right, so the objects must
/// precede the libraries and the host object the generated one.
pub open spec fn link_args_shape(
    prefix: Seq<Seq<char>>,
    host: Seq<char>,
    app: Seq<char>,
    libs: Seq<Seq<char>>,
    out: Seq<char>,
) -> Seq<Seq<char>> {
    prefix + seq![host, app] + libs + seq!["-o"@, out]
}

/// The final link invocation for a supported descriptor.
pub open spec fn spec_link_cmd(
    t: TargetTriple,
    binary: Seq<char>,
    host: Seq<char>,
    app: Seq<char>,
) -> CmdVal {
    if t.os == OsDesc::Linux {
        CmdVal {
            program: "ld"@,
            args: link_args_shape(
                linux_prefix(spec_arch_name(t.arch)),
                host,
                app,
                linux_libs(),
                binary,
            ),
            clear_env: true,
        }
    } else {
        CmdVal {
            program: "ld"@,
            args: link_args_shape(
                macos_prefix(spec_arch_triple_name(t.arch)),
                host,
                app,
                macos_libs(),
                binary,
            ),
            clear_env: true,
        }
    }
}

fn linux_link_cmd(t: &TargetTriple, binary: &str, host: &str, app: &str) -> (r: ToolCommand)
    requires
        t.os == OsDesc::Linux,
    ensures
        r@ == spec_link_cmd(*t, binary@, host@, app@),
{
    let mut args: Vec<String> = Vec::new();
    push_arg(&mut args, "-arch");
    push_arg(&mut args, t.arch.name());
    push_arg(&mut args, "/usr/lib/x86_64-linux-gnu/crti.o");
    push_arg(&mut args, "/usr/lib/x86_64-linux-gnu/crtn.o");
    push_arg(&mut args, "/usr/lib/x86_64-linux-gnu/Scrt1.o");
    push_arg(&mut args, "-dynamic-linker");
    push_arg(&mut args, "/lib64/ld-linux-x86-64.so.2");
    push_arg(&mut args, host);
    push_arg(&mut args, app);
    push_arg(&mut args, "-lc");
    push_arg(&mut args, "-lm");
    push_arg(&mut args, "-lpthread");
    push_arg(&mut args, "-ldl");
    push_arg(&mut args, "-lrt");
    push_arg(&mut args, "-lutil");
    push_arg(&mut args, "-lc_nonshared");
    push_arg(&mut args, "-lc++");
    push_arg(&mut args, "-lunwind");
    push_arg(&mut args, "-o");
    push_arg(&mut args, binary);
    proof {
        assert(strs_view(args@) =~= spec_link_cmd(*t, binary@, host@, app@).args);
    }
    ToolCommand { program: String::from_str("ld"), args, clear_env: true }
}

fn macos_link_cmd(t: &TargetTriple, binary: &str, host: &str, app: &str) -> (r: ToolCommand)
    requires
        t.os == OsDesc::Darwin,
    ensures
        r@ == spec_link_cmd(*t, binary@, host@, app@),
{
    let mut args: Vec<String> = Vec::new();
    push_arg(&mut args, "-arch");
    push_arg(&mut args, t.arch.triple_name());
    push_arg(&mut args, host);
    push_arg(&mut args, app);
    push_arg(&mut args, "-lSystem");
    push_arg(&mut args, "-lresolv");
    push_arg(&mut args, "-lpthread");
    push_arg(&mut args, "-lc++");
    push_arg(&mut args, "-o");
    push_arg(&mut args, binary);
    proof {
        assert(strs_view(args@) =~= spec_link_cmd(*t, binary@, host@, app@).args);
    }
    ToolCommand { program: String::from_str("ld"), args, clear_env: true }
}

/// The final link invocation for the descriptor, or an error naming it as
/// unsupported; no recipe is ever defaulted.
pub fn link_command(target: &TargetTriple, binary_path: &str, host_obj: &str, app_obj: &str) -> (r:
    Result<ToolCommand, BuildError>)
    ensures
        r is Ok <==> link_supported(*target),
        link_supported(*target) ==> r->Ok_0@ == spec_link_cmd(
            *target,
            binary_path@,
            host_obj@,
            app_obj@,
        ),
        !link_supported(*target) ==> r->Err_0@ == (BuildErrVal::UnsupportedTarget {
            target: *target,
        }),
{
    match (target.arch, target.os) {
        (ArchDesc::X86_64, OsDesc::Linux) => Ok(
            linux_link_cmd(target, binary_path, host_obj, app_obj),
        ),
        (ArchDesc::X86_64, OsDesc::Darwin) => Ok(
            macos_link_cmd(target, binary_path, host_obj, app_obj),
        ),
        _ => Err(BuildError::UnsupportedTarget { target: *target }),
    }
}

/// The whole link step as data: the host rebuild to run first,
/// synchronously and in order, and the final link invocation to spawn
/// afterwards (it alone may run asynchronously).
pub struct LinkPlan {
    pub host_plan: Vec<ToolCommand>,
    pub link: ToolCommand,
}

/// Computes everything the link step will execute: the host-rebuild
/// commands for the build directory and the final link line, with the
/// host object placed before the generated object.
pub fn link_plan(
    target: &TargetTriple,
    binary_path: &str,
    host_dir: &str,
    app_obj: &str,
    has_secondary: bool,
) -> (r: Result<LinkPlan, BuildError>)
    ensures
        r is Ok <==> link_supported(*target),
        link_supported(*target) ==> {
            let p = (HostPathsVal {
                c_src: host_dir@ + "/host.c"@,
                c_obj: host_dir@ + "/c_host.o"@,
                rust_src: host_dir@ + "/host.rs"@,
                rust_obj: host_dir@ + "/rust_host.o"@,
                host_obj: host_dir@ + "/host.o"@,
            });
            &&& cmds_view(r->Ok_0.host_plan@) == spec_host_plan(p, has_secondary)
            &&& r->Ok_0.link@ == spec_link_cmd(*target, binary_path@, p.host_obj, app_obj@)
        },
        !link_supported(*target) ==> r->Err_0@ == (BuildErrVal::UnsupportedTarget {
            target: *target,
        }),
{
    let paths = host_paths(host_dir);
    match link_command(target, binary_path, paths.host_obj.as_str(), app_obj) {
        Ok(link) => Ok(LinkPlan { host_plan: host_rebuild_plan(&paths, has_secondary), link }),
        Err(e) => Err(e),
    }
}

/// Link argument ordering: for every supported descriptor the host object
/// stands right after the fixed prefix, the generated object right after
/// it, every library flag after both objects, and the output last.
pub proof fn lemma_link_argument_order(
    t: TargetTriple,
    binary: Seq<char>,
    host: Seq<char>,
    app: Seq<char>,
)
    requires
        link_supported(t),
    ensures
        ({
            let args = spec_link_cmd(t, binary, host, app).args;
            let prefix = if t.os == OsDesc::Linux {
                linux_prefix(spec_arch_name(t.arch))
            } else {
                macos_prefix(spec_arch_triple_name(t.arch))
            };
            let libs = if t.os == OsDesc::Linux {
                linux_libs()
            } else {
                macos_libs()
            };
            &&& args.len() == prefix.len() + 2 + libs.len() + 2
            &&& args[prefix.len() as int] == host
            &&& args[prefix.len() as int + 1] == app
            &&& forall|x: int|
                0 <= x < libs.len() ==> #[trigger] args[prefix.len() as int + 2 + x] == libs[x]
            &&& args[args.len() as int - 2] == "-o"@
            &&& args[args.len() as int - 1] == binary
        }),
{
}

} // verus!
