use hot_reload_core::imports::{read_imports, sniff_format, BinaryFormat};
use hot_reload_core::orchestrator::{BuildTrigger, OrchestratorAction, OrchestratorState};
use hot_reload_core::resolver::{FileEntry, FileStore, HashedFileRecord, ResolveError};
use hot_reload_core::target::Target;

fn push_u16(v: &mut Vec<u8>, x: u16) {
    v.extend_from_slice(&x.to_le_bytes());
}

fn push_u32(v: &mut Vec<u8>, x: u32) {
    v.extend_from_slice(&x.to_le_bytes());
}

fn push_u64(v: &mut Vec<u8>, x: u64) {
    v.extend_from_slice(&x.to_le_bytes());
}

/// A minimal 64-bit little-endian ELF shared object whose dynamic section
/// names the given libraries as needed.
fn minimal_elf(needed: &[&str]) -> Vec<u8> {
    let mut strtab: Vec<u8> = vec![0];
    let mut needed_offsets = Vec::new();
    for name in needed {
        needed_offsets.push(strtab.len() as u64);
        strtab.extend_from_slice(name.as_bytes());
        strtab.push(0);
    }
    let dyn_count = needed.len() + 3;
    let dyn_off = 64u64 + 2 * 56;
    let dyn_size = (dyn_count * 16) as u64;
    let strtab_off = dyn_off + dyn_size;
    let total = strtab_off + strtab.len() as u64;

    let mut b: Vec<u8> = Vec::new();
    // ELF header
    b.extend_from_slice(&[0x7f, b'E', b'L', b'F', 2, 1, 1, 0, 0, 0, 0, 0, 0, 0, 0, 0]);
    push_u16(&mut b, 3); // ET_DYN
    push_u16(&mut b, 62); // x86-64
    push_u32(&mut b, 1);
    push_u64(&mut b, 0); // entry
    push_u64(&mut b, 64); // phoff
    push_u64(&mut b, 0); // shoff
    push_u32(&mut b, 0); // flags
    push_u16(&mut b, 64); // ehsize
    push_u16(&mut b, 56); // phentsize
    push_u16(&mut b, 2); // phnum
    push_u16(&mut b, 64); // shentsize
    push_u16(&mut b, 0); // shnum
    push_u16(&mut b, 0); // shstrndx
    // PT_LOAD covering the whole file
    push_u32(&mut b, 1);
    push_u32(&mut b, 5);
    push_u64(&mut b, 0);
    push_u64(&mut b, 0);
    push_u64(&mut b, 0);
    push_u64(&mut b, total);
    push_u64(&mut b, total);
    push_u64(&mut b, 0x1000);
    // PT_DYNAMIC
    push_u32(&mut b, 2);
    push_u32(&mut b, 4);
    push_u64(&mut b, dyn_off);
    push_u64(&mut b, dyn_off);
    push_u64(&mut b, dyn_off);
    push_u64(&mut b, dyn_size);
    push_u64(&mut b, dyn_size);
    push_u64(&mut b, 8);
    // dynamic section
    for off in &needed_offsets {
        push_u64(&mut b, 1); // DT_NEEDED
        push_u64(&mut b, *off);
    }
    push_u64(&mut b, 5); // DT_STRTAB
    push_u64(&mut b, strtab_off);
    push_u64(&mut b, 10); // DT_STRSZ
    push_u64(&mut b, strtab.len() as u64);
    push_u64(&mut b, 0); // DT_NULL
    push_u64(&mut b, 0);
    // string table
    b.extend_from_slice(&strtab);
    assert_eq!(b.len() as u64, total);
    b
}

fn store_of(entries: Vec<(&str, &str, Vec<u8>)>) -> FileStore {
    FileStore {
        entries: entries
            .into_iter()
            .map(|(name, path, bytes)| FileEntry {
                name: name.to_string(),
                local_path: path.to_string(),
                bytes,
            })
            .collect(),
    }
}

#[test]
fn sniff_tells_formats_apart() {
    assert_eq!(sniff_format(&minimal_elf(&[])), BinaryFormat::Elf);
    assert_eq!(sniff_format(&vec![0x4d, 0x5a, 0, 0]), BinaryFormat::Pe);
    assert_eq!(sniff_format(&vec![0xfe, 0xed, 0xfa, 0xcf, 0]), BinaryFormat::MachO);
    assert_eq!(sniff_format(&vec![0xca, 0xfe, 0xba, 0xbe]), BinaryFormat::MachO);
    assert_eq!(sniff_format(&b"hello there".to_vec()), BinaryFormat::Unknown);
    assert_eq!(sniff_format(&Vec::new()), BinaryFormat::Unknown);
}

#[test]
fn elf_imports_are_read_from_the_dynamic_section() {
    let elf = minimal_elf(&["libfoo.so", "libm.so.6"]);
    let imports = read_imports(&elf).expect("well-formed ELF must parse");
    assert_eq!(imports, vec!["libfoo.so".to_string(), "libm.so.6".to_string()]);
}

#[test]
fn unrecognized_bytes_import_nothing() {
    let imports = read_imports(&b"just some text".to_vec()).expect("unknown format is no error");
    assert!(imports.is_empty());
}

#[test]
fn malformed_elf_is_an_error() {
    // the ELF magic with garbage behind it announces a format it is not
    let bad = vec![0x7f, b'E', b'L', b'F', 9, 9, 9];
    assert!(read_imports(&bad).is_err());
}

#[test]
fn malformed_pe_and_mach_headers_are_errors() {
    let bad_pe = vec![0x4d, 0x5a, 1, 2, 3];
    assert!(read_imports(&bad_pe).is_err());
    let bad_mach = vec![0xfe, 0xed, 0xfa, 0xcf, 1, 2, 3];
    assert!(read_imports(&bad_mach).is_err());
}

/// The first build of a minimal library-only package: the orchestrator
/// assigns identifier 1, the root library follows the target's naming
/// convention for the package, and the closure holds only the root itself.
#[test]
fn first_build_of_a_minimal_package() {
    let mut slot = OrchestratorState::new();
    let actions = slot.step(&BuildTrigger::RequestBuild);
    let id = match actions.as_slice() {
        [OrchestratorAction::StartBuild { id }] => *id,
        _ => panic!("exactly one build must start"),
    };
    assert_eq!(id, 1);
    let target = Target::LinuxX64;
    let root_library = target.dynamic_lib_name("test_lib");
    let store = store_of(vec![(
        root_library.as_str(),
        "/out/libtest_lib.so",
        minimal_elf(&[]),
    )]);
    let records = store.resolve(&vec![root_library.clone()]).expect("resolves");
    assert_eq!(records.len(), 1);
    assert_eq!(records[0].name, root_library);
    assert!(records[0].dependencies.is_empty());
}

#[test]
fn single_root_without_dependencies_resolves_to_itself() {
    let target = Target::LinuxX64;
    let root = target.dynamic_lib_name("test_lib");
    assert_eq!(root, "libtest_lib.so");
    let store = store_of(vec![(root.as_str(), "/out/libtest_lib.so", minimal_elf(&[]))]);
    let records = store.resolve(&vec![root.clone()]).expect("resolution succeeds");
    assert_eq!(records.len(), 1);
    assert_eq!(records[0].name, root);
    assert_eq!(records[0].local_path, "/out/libtest_lib.so");
    assert_eq!(records[0].relative_path, "./libtest_lib.so");
    assert!(records[0].dependencies.is_empty());
    assert_eq!(records[0].hash.len(), 32);
}

#[test]
fn recorded_digest_equals_recomputed_digest() {
    let bytes = minimal_elf(&[]);
    let record = HashedFileRecord::from_file(
        "libx.so".to_string(),
        "/out/libx.so".to_string(),
        &bytes,
        Vec::new(),
    );
    // recompute from the same bytes, independently
    let recomputed = blake3::hash(&bytes);
    assert_eq!(record.hash.as_slice(), recomputed.as_bytes());
    // and the digest is no echo of the input
    assert_ne!(record.hash, bytes);
}

#[test]
fn closure_follows_imports_into_the_store() {
    let root = minimal_elf(&["libfoo.so"]);
    let foo = minimal_elf(&["libbar.so"]);
    let bar = minimal_elf(&[]);
    let store = store_of(vec![
        ("libroot.so", "/out/libroot.so", root),
        ("libfoo.so", "/lib/libfoo.so", foo),
        ("libbar.so", "/lib/libbar.so", bar),
    ]);
    let records = store.resolve(&vec!["libroot.so".to_string()]).expect("resolves");
    let names: Vec<&str> = records.iter().map(|r| r.name.as_str()).collect();
    assert_eq!(names, vec!["libroot.so", "libfoo.so", "libbar.so"]);
    assert_eq!(records[0].dependencies, vec!["libfoo.so".to_string()]);
    assert_eq!(records[1].dependencies, vec!["libbar.so".to_string()]);
    assert!(records[2].dependencies.is_empty());
}

#[test]
fn missing_transitive_dependency_is_skipped_not_fatal() {
    let root = minimal_elf(&["libsystem.so"]);
    let store = store_of(vec![("libroot.so", "/out/libroot.so", root)]);
    let records = store.resolve(&vec!["libroot.so".to_string()]).expect("resolves");
    assert_eq!(records.len(), 1);
    // the unresolved import is still recorded for downstream tooling
    assert_eq!(records[0].dependencies, vec!["libsystem.so".to_string()]);
}

#[test]
fn dependency_cycles_terminate() {
    let a = minimal_elf(&["libb.so"]);
    let b = minimal_elf(&["liba.so"]);
    let store = store_of(vec![("liba.so", "/l/liba.so", a), ("libb.so", "/l/libb.so", b)]);
    let records = store.resolve(&vec!["liba.so".to_string()]).expect("resolves");
    assert_eq!(records.len(), 2);
}

#[test]
fn missing_root_fails_resolution() {
    let store = store_of(vec![]);
    let err = store.resolve(&vec!["libroot.so".to_string()]).unwrap_err();
    assert_eq!(err, ResolveError::RootMissing { name: "libroot.so".to_string() });
}

#[test]
fn malformed_dependency_fails_that_resolution() {
    let root = minimal_elf(&["libbad.so"]);
    let bad = vec![0x7f, b'E', b'L', b'F', 0, 0];
    let store = store_of(vec![
        ("libroot.so", "/out/libroot.so", root),
        ("libbad.so", "/l/libbad.so", bad),
    ]);
    let err = store.resolve(&vec!["libroot.so".to_string()]).unwrap_err();
    assert_eq!(err, ResolveError::MalformedArtifact { name: "libbad.so".to_string() });
}

#[test]
fn earlier_search_directory_wins_for_equal_names() {
    let first = b"first contents".to_vec();
    let second = b"second contents".to_vec();
    let store = store_of(vec![
        ("libdup.so", "/a/libdup.so", first.clone()),
        ("libdup.so", "/b/libdup.so", second),
    ]);
    let records = store.resolve(&vec!["libdup.so".to_string()]).expect("resolves");
    assert_eq!(records.len(), 1);
    assert_eq!(records[0].local_path, "/a/libdup.so");
    assert_eq!(records[0].hash.as_slice(), blake3::hash(&first).as_bytes());
}

#[test]
fn resolution_is_deterministic_for_equal_inputs() {
    let root = minimal_elf(&["libfoo.so", "libmissing.so"]);
    let foo = minimal_elf(&[]);
    let mk = || {
        store_of(vec![
            ("libroot.so", "/out/libroot.so", root.clone()),
            ("libfoo.so", "/lib/libfoo.so", foo.clone()),
        ])
    };
    let r1 = mk().resolve(&vec!["libroot.so".to_string()]).expect("resolves");
    let r2 = mk().resolve(&vec!["libroot.so".to_string()]).expect("resolves");
    let pairs = |rs: &Vec<HashedFileRecord>| -> Vec<(String, Vec<u8>)> {
        rs.iter().map(|r| (r.name.clone(), r.hash.clone())).collect()
    };
    assert_eq!(pairs(&r1), pairs(&r2));
}

#[test]
fn duplicate_roots_resolve_once() {
    let store = store_of(vec![("liba.so", "/l/liba.so", b"x".to_vec())]);
    let records = store
        .resolve(&vec!["liba.so".to_string(), "liba.so".to_string()])
        .expect("resolves");
    assert_eq!(records.len(), 1);
}
