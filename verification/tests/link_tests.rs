use object_backend::errors::BuildError;
use object_backend::link::{host_paths, host_rebuild_plan, link_command, link_plan};
use object_backend::target::{ArchDesc, FormatDesc, OsDesc, TargetTriple};

fn linux_x64() -> TargetTriple {
    TargetTriple { arch: ArchDesc::X86_64, os: OsDesc::Linux, format: FormatDesc::Elf }
}

fn darwin_x64() -> TargetTriple {
    TargetTriple { arch: ArchDesc::X86_64, os: OsDesc::Darwin, format: FormatDesc::Macho }
}

#[test]
fn host_paths_are_siblings_of_the_build_directory() {
    let p = host_paths("/tmp/build");
    assert_eq!(p.c_src, "/tmp/build/host.c");
    assert_eq!(p.c_obj, "/tmp/build/c_host.o");
    assert_eq!(p.rust_src, "/tmp/build/host.rs");
    assert_eq!(p.rust_obj, "/tmp/build/rust_host.o");
    assert_eq!(p.host_obj, "/tmp/build/host.o");
}

#[test]
fn host_plan_without_secondary_source_renames_only() {
    let p = host_paths("/b");
    let plan = host_rebuild_plan(&p, false);
    assert_eq!(plan.len(), 2);
    assert_eq!(plan[0].program, "clang");
    assert_eq!(plan[0].args, vec!["-c", "/b/host.c", "-o", "/b/c_host.o"]);
    assert_eq!(plan[1].program, "mv");
    assert_eq!(plan[1].args, vec!["/b/c_host.o", "/b/host.o"]);
    assert!(plan.iter().all(|c| c.clear_env));
}

#[test]
fn host_plan_with_secondary_source_merges_and_cleans_up() {
    let p = host_paths("/b");
    let plan = host_rebuild_plan(&p, true);
    assert_eq!(plan.len(), 4);
    assert_eq!(plan[0].program, "clang");
    assert_eq!(plan[1].program, "rustc");
    assert_eq!(plan[1].args, vec!["/b/host.rs", "-o", "/b/rust_host.o"]);
    assert_eq!(plan[2].program, "ld");
    assert_eq!(plan[2].args, vec!["-r", "/b/c_host.o", "/b/rust_host.o", "-o", "/b/host.o"]);
    assert_eq!(plan[3].program, "rm");
    assert_eq!(plan[3].args, vec!["-f", "/b/rust_host.o", "/b/c_host.o"]);
    assert!(plan.iter().all(|c| c.clear_env));
}

#[test]
fn linux_link_arguments_in_exact_order() {
    let cmd = link_command(&linux_x64(), "/out/app", "/b/host.o", "/b/app.o").unwrap();
    assert_eq!(cmd.program, "ld");
    assert!(cmd.clear_env);
    assert_eq!(
        cmd.args,
        vec![
            "-arch",
            "x86-64",
            "/usr/lib/x86_64-linux-gnu/crti.o",
            "/usr/lib/x86_64-linux-gnu/crtn.o",
            "/usr/lib/x86_64-linux-gnu/Scrt1.o",
            "-dynamic-linker",
            "/lib64/ld-linux-x86-64.so.2",
            "/b/host.o",
            "/b/app.o",
            "-lc",
            "-lm",
            "-lpthread",
            "-ldl",
            "-lrt",
            "-lutil",
            "-lc_nonshared",
            "-lc++",
            "-lunwind",
            "-o",
            "/out/app",
        ]
    );
}

#[test]
fn darwin_link_arguments_in_exact_order() {
    let cmd = link_command(&darwin_x64(), "/out/app", "/b/host.o", "/b/app.o").unwrap();
    assert_eq!(cmd.program, "ld");
    assert_eq!(
        cmd.args,
        vec![
            "-arch",
            "x86_64",
            "/b/host.o",
            "/b/app.o",
            "-lSystem",
            "-lresolv",
            "-lpthread",
            "-lc++",
            "-o",
            "/out/app",
        ]
    );
}

#[test]
fn objects_precede_every_library_flag() {
    for t in [linux_x64(), darwin_x64()] {
        let cmd = link_command(&t, "/out/app", "/b/host.o", "/b/app.o").unwrap();
        let host = cmd.args.iter().position(|a| a == "/b/host.o").unwrap();
        let app = cmd.args.iter().position(|a| a == "/b/app.o").unwrap();
        assert!(host < app);
        for (i, a) in cmd.args.iter().enumerate() {
            if a.starts_with("-l") && a != "-lib" {
                assert!(i > app, "library flag {} before the objects", a);
            }
        }
    }
}

#[test]
fn link_refuses_targets_without_a_recipe() {
    let bad = TargetTriple { arch: ArchDesc::Aarch64, os: OsDesc::Linux, format: FormatDesc::Elf };
    match link_command(&bad, "/out/app", "/b/host.o", "/b/app.o") {
        Err(BuildError::UnsupportedTarget { target }) => assert_eq!(target, bad),
        _ => panic!("expected an unsupported-target error"),
    }
    let other = TargetTriple { arch: ArchDesc::X86_64, os: OsDesc::OtherOs, format: FormatDesc::Elf };
    assert!(link_command(&other, "/out/app", "/b/host.o", "/b/app.o").is_err());
}

#[test]
fn link_plan_builds_host_before_linking_it() {
    let plan = link_plan(&linux_x64(), "/out/app", "/b", "/b/app.o", true).unwrap();
    assert_eq!(plan.host_plan.len(), 4);
    assert_eq!(plan.link.program, "ld");
    assert!(plan.link.args.contains(&"/b/host.o".to_string()));
    assert!(plan.link.args.contains(&"/b/app.o".to_string()));
}
