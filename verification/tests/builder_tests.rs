use object::read::{Object as _, ObjectSection as _, ObjectSymbol as _};
use object::{RelocationKind, RelocationTarget, SymbolKind, SymbolScope};
use object_backend::builder::{build_module, build_object, BuiltObject};
use object_backend::errors::BuildError;
use object_backend::ir::{Proc, Relocation};
use object_backend::objfile::{ArchKind, RelocKind};
use object_backend::target::{ArchDesc, FormatDesc, OsDesc, TargetTriple};

fn main_and_helper() -> Vec<Proc> {
    vec![
        Proc {
            sym: 1,
            layout: 0,
            name: b"main".to_vec(),
            bytes: vec![0x90, 0x90, 0xe8, 0, 0, 0, 0],
            relocs: vec![Relocation::LinkedFunction { offset: 3, name: b"helper".to_vec() }],
        },
        Proc {
            sym: 2,
            layout: 0,
            name: b"helper".to_vec(),
            bytes: vec![0xc3],
            relocs: vec![],
        },
    ]
}

fn build_bytes(procs: &Vec<Proc>, exposed: &Vec<u64>, inlined: &Vec<u64>) -> Vec<u8> {
    let built = build_object(
        ArchKind::X86_64,
        procs,
        exposed,
        inlined,
        &b"test backend build".to_vec(),
    )
    .expect("build should succeed");
    built.emit().expect("emit should succeed")
}

#[test]
fn end_to_end_main_and_helper() {
    let procs = main_and_helper();
    let bytes = build_bytes(&procs, &vec![1], &vec![]);
    let file = object::File::parse(bytes.as_slice()).expect("parses as an object file");

    let mut text_syms = Vec::new();
    for sym in file.symbols() {
        if sym.kind() == SymbolKind::Text {
            text_syms.push((sym.name().unwrap().to_string(), sym.scope(), sym.index()));
        }
    }
    assert_eq!(text_syms.len(), 2);
    assert_eq!(text_syms[0].0, "main");
    assert_eq!(text_syms[0].1, SymbolScope::Dynamic);
    assert_eq!(text_syms[1].0, "helper");
    assert_eq!(text_syms[1].1, SymbolScope::Linkage);

    let text = file.section_by_name(".text").expect("has a .text section");
    let relocs: Vec<_> = text.relocations().collect();
    assert_eq!(relocs.len(), 1);
    let (off, rel) = &relocs[0];
    assert_eq!(*off, 3);
    assert_eq!(rel.kind(), RelocationKind::PltRelative);
    assert_eq!(rel.addend(), -4);
    match rel.target() {
        RelocationTarget::Symbol(idx) => {
            assert_eq!(idx, text_syms[1].2);
            let s = file.symbol_by_index(idx).unwrap();
            assert_eq!(s.name().unwrap(), "helper");
        }
        other => panic!("unexpected relocation target {:?}", other),
    }
}

#[test]
fn building_twice_is_byte_identical() {
    let procs = main_and_helper();
    let a = build_bytes(&procs, &vec![1], &vec![]);
    let b = build_bytes(&procs, &vec![1], &vec![]);
    assert_eq!(a, b);
}

#[test]
fn unresolved_symbol_is_reported_by_name() {
    let procs = vec![Proc {
        sym: 1,
        layout: 0,
        name: b"main".to_vec(),
        bytes: vec![0x90],
        relocs: vec![Relocation::LinkedData { offset: 0, name: b"missing_global".to_vec() }],
    }];
    let r = build_object(ArchKind::X86_64, &procs, &vec![1], &vec![], &b"id".to_vec());
    match r {
        Err(BuildError::UnresolvedSymbol { name }) => assert_eq!(name, b"missing_global".to_vec()),
        other => panic!("expected an unresolved-symbol error, got {:?}", describe(&other)),
    }
}

#[test]
fn inlined_procedure_gets_no_symbol() {
    let mut procs = main_and_helper();
    procs[0].relocs.clear();
    let bytes = build_bytes(&procs, &vec![1], &vec![2]);
    let file = object::File::parse(bytes.as_slice()).unwrap();
    let names: Vec<String> = file
        .symbols()
        .filter(|s| s.kind() == SymbolKind::Text)
        .map(|s| s.name().unwrap().to_string())
        .collect();
    assert_eq!(names, vec!["main".to_string()]);
}

#[test]
fn local_data_gets_private_symbol_and_relative_reloc() {
    let procs = vec![Proc {
        sym: 1,
        layout: 0,
        name: b"main".to_vec(),
        bytes: vec![0x8b, 0x05, 0, 0, 0, 0],
        relocs: vec![Relocation::LocalData { offset: 2, data: vec![7, 8, 9] }],
    }];
    let bytes = build_bytes(&procs, &vec![1], &vec![]);
    let file = object::File::parse(bytes.as_slice()).unwrap();

    let dsym = file
        .symbols()
        .find(|s| s.name().unwrap() == "main.data0")
        .expect("anonymous data symbol exists");
    assert_eq!(dsym.kind(), SymbolKind::Data);
    assert_eq!(dsym.scope(), SymbolScope::Compilation);
    assert_eq!(dsym.address(), 0);
    assert_eq!(dsym.size(), 3);

    let data = file.section_by_name(".data").unwrap();
    assert_eq!(data.data().unwrap(), &[7, 8, 9]);

    let text = file.section_by_name(".text").unwrap();
    let relocs: Vec<_> = text.relocations().collect();
    assert_eq!(relocs.len(), 1);
    let (off, rel) = &relocs[0];
    assert_eq!(*off, 2);
    assert_eq!(rel.kind(), RelocationKind::Relative);
    assert_eq!(rel.addend(), -4);
}

#[test]
fn second_procedure_starts_at_sixteen_byte_alignment() {
    let procs = vec![
        Proc { sym: 1, layout: 0, name: b"a".to_vec(), bytes: vec![0x90; 3], relocs: vec![] },
        Proc { sym: 2, layout: 0, name: b"b".to_vec(), bytes: vec![0xc3], relocs: vec![] },
    ];
    let bytes = build_bytes(&procs, &vec![], &vec![]);
    let file = object::File::parse(bytes.as_slice()).unwrap();
    let a = file.symbols().find(|s| s.name().unwrap() == "a").unwrap();
    assert_eq!(a.address(), 0);
    assert_eq!(a.size(), 3);
    let b = file.symbols().find(|s| s.name().unwrap() == "b").unwrap();
    assert_eq!(b.address(), 16);
    assert_eq!(b.size(), 1);
    let text = file.section_by_name(".text").unwrap();
    assert_eq!(text.data().unwrap().len(), 17);
}

#[test]
fn comment_section_carries_build_identifier() {
    let procs = main_and_helper();
    let built = build_object(
        ArchKind::X86_64,
        &procs,
        &vec![1],
        &vec![],
        &b"\0backend build id\0".to_vec(),
    )
    .unwrap();
    let bytes = built.emit().unwrap();
    let file = object::File::parse(bytes.as_slice()).unwrap();
    let comment = file.section_by_name("comment").expect("has a comment section");
    assert_eq!(comment.data().unwrap(), b"\0backend build id\0");
}

#[test]
fn aarch64_elf_builds_without_linked_relocations() {
    let procs = vec![Proc {
        sym: 1,
        layout: 0,
        name: b"main".to_vec(),
        bytes: vec![0xc0, 0x03, 0x5f, 0xd6],
        relocs: vec![Relocation::LocalData { offset: 0, data: vec![1, 2] }],
    }];
    let built =
        build_object(ArchKind::Aarch64, &procs, &vec![1], &vec![], &b"id".to_vec()).unwrap();
    let bytes = built.emit().unwrap();
    let file = object::File::parse(bytes.as_slice()).unwrap();
    assert!(file.symbols().any(|s| s.name().unwrap() == "main"));
}

#[test]
fn aarch64_refuses_generic_function_relocation() {
    let procs = main_and_helper();
    let r = build_object(ArchKind::Aarch64, &procs, &vec![1], &vec![], &b"id".to_vec());
    match r {
        Err(BuildError::UnsupportedRelocation { kind }) => {
            assert_eq!(kind, RelocKind::PltRelative)
        }
        other => panic!("expected an unsupported-relocation error, got {:?}", describe(&other)),
    }
}

#[test]
fn build_module_accepts_exactly_the_supported_matrix() {
    let procs = main_and_helper();
    let exposed = vec![1];
    let inlined = vec![];
    let id = b"id".to_vec();
    for arch in [ArchDesc::X86_64, ArchDesc::Aarch64, ArchDesc::OtherArch] {
        for format in [FormatDesc::Elf, FormatDesc::Macho, FormatDesc::Coff] {
            let t = TargetTriple { arch, os: OsDesc::Linux, format };
            let r = build_module(&t, &procs, &exposed, &inlined, &id);
            let supported = (arch == ArchDesc::X86_64 || arch == ArchDesc::Aarch64)
                && format == FormatDesc::Elf;
            if !supported {
                match r {
                    Err(BuildError::UnsupportedTarget { target }) => assert_eq!(target, t),
                    other => panic!("expected unsupported target, got {:?}", describe(&other)),
                }
            } else if arch == ArchDesc::X86_64 {
                assert!(r.is_ok());
            }
        }
    }
}

#[test]
fn layout_specializations_get_distinct_mangled_names() {
    let procs = vec![
        Proc { sym: 1, layout: 10, name: b"f".to_vec(), bytes: vec![0x90], relocs: vec![] },
        Proc { sym: 1, layout: 20, name: b"f".to_vec(), bytes: vec![0x90], relocs: vec![] },
        Proc { sym: 1, layout: 30, name: b"f".to_vec(), bytes: vec![0x90], relocs: vec![] },
    ];
    let bytes = build_bytes(&procs, &vec![], &vec![]);
    let file = object::File::parse(bytes.as_slice()).unwrap();
    let names: Vec<String> = file
        .symbols()
        .filter(|s| s.kind() == SymbolKind::Text)
        .map(|s| s.name().unwrap().to_string())
        .collect();
    assert_eq!(names, vec!["f".to_string(), "f.1".to_string(), "f.2".to_string()]);
}

fn describe(r: &Result<BuiltObject, BuildError>) -> String {
    match r {
        Ok(_) => "an object".to_string(),
        Err(BuildError::UnsupportedTarget { .. }) => "unsupported target".to_string(),
        Err(BuildError::UnresolvedSymbol { .. }) => "unresolved symbol".to_string(),
        Err(BuildError::UnsupportedRelocation { .. }) => "unsupported relocation".to_string(),
        Err(BuildError::ToolSpawnFailure { .. }) => "tool spawn failure".to_string(),
        Err(BuildError::ToolExitFailure { .. }) => "tool exit failure".to_string(),
    }
}

#[test]
fn empty_procedure_list_builds_an_empty_object() {
    let procs: Vec<Proc> = Vec::new();
    let bytes = build_bytes(&procs, &vec![], &vec![]);
    let file = object::File::parse(bytes.as_slice()).unwrap();
    assert_eq!(file.symbols().filter(|s| s.kind() == SymbolKind::Text).count(), 0);
    let text = file.section_by_name(".text").unwrap();
    assert_eq!(text.data().unwrap().len(), 0);
}

#[test]
fn empty_procedure_body_still_gets_its_symbol() {
    let procs = vec![Proc {
        sym: 1,
        layout: 0,
        name: b"stub".to_vec(),
        bytes: vec![],
        relocs: vec![],
    }];
    let bytes = build_bytes(&procs, &vec![], &vec![]);
    let file = object::File::parse(bytes.as_slice()).unwrap();
    let s = file.symbols().find(|s| s.name().unwrap() == "stub").unwrap();
    assert_eq!(s.kind(), SymbolKind::Text);
    assert_eq!(s.scope(), SymbolScope::Linkage);
}
