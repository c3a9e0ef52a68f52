//! Binary import reader: the dynamic-library names a native binary imports.
//!
//! One capability — "extract imported library names from bytes" — implemented
//! by one variant per container format behind a single dispatch. The dispatch
//! sniffs the file's magic bytes and is verified; what each format parser
//! returns is named, per format, as a function of the bytes alone, so the
//! resolver's graph walk is verified against those names. Unrecognized
//! formats yield an empty import set rather than an error; a recognized but
//! malformed file is an error, which fails resolution for that one artifact.

use vstd::prelude::*;

verus! {

/// The container formats told apart by their magic bytes.
#[derive(Debug, PartialEq, Eq)]
pub enum BinaryFormat {
    Elf,
    Pe,
    MachO,
    Unknown,
}

/// The format the leading magic bytes announce: ELF, the DOS/PE `MZ` header,
/// a Mach-O binary (either endianness, 32- or 64-bit) or a fat/universal
/// Mach-O container; anything else is unknown.
pub open spec fn spec_sniff(b: Seq<u8>) -> BinaryFormat {
    if b.len() >= 4 && b[0] == 0x7fu8 && b[1] == 0x45u8 && b[2] == 0x4cu8 && b[3] == 0x46u8 {
        BinaryFormat::Elf
    } else if b.len() >= 2 && b[0] == 0x4du8 && b[1] == 0x5au8 {
        BinaryFormat::Pe
    } else if b.len() >= 4 && (is_mach_magic(b[0], b[1], b[2], b[3]) || is_fat_magic(
        b[0],
        b[1],
        b[2],
        b[3],
    )) {
        BinaryFormat::MachO
    } else {
        BinaryFormat::Unknown
    }
}

/// A single-architecture Mach-O magic, in either byte order.
pub open spec fn is_mach_magic(b0: u8, b1: u8, b2: u8, b3: u8) -> bool {
    ||| (b0 == 0xfeu8 && b1 == 0xedu8 && b2 == 0xfau8 && (b3 == 0xceu8 || b3 == 0xcfu8))
    ||| ((b0 == 0xceu8 || b0 == 0xcfu8) && b1 == 0xfau8 && b2 == 0xedu8 && b3 == 0xfeu8)
}

/// A fat/universal Mach-O container magic, in either byte order.
pub open spec fn is_fat_magic(b0: u8, b1: u8, b2: u8, b3: u8) -> bool {
    ||| (b0 == 0xcau8 && b1 == 0xfeu8 && b2 == 0xbau8 && b3 == 0xbeu8)
    ||| (b0 == 0xbeu8 && b1 == 0xbau8 && b2 == 0xfeu8 && b3 == 0xcau8)
}

/// Decide the container format from the leading magic bytes.
pub fn sniff_format(bytes: &Vec<u8>) -> (r: BinaryFormat)
    ensures
        r == spec_sniff(bytes@),
{
    if bytes.len() >= 4 && bytes[0] == 0x7f && bytes[1] == 0x45 && bytes[2] == 0x4c && bytes[3]
        == 0x46 {
        return BinaryFormat::Elf;
    }
    if bytes.len() >= 2 && bytes[0] == 0x4d && bytes[1] == 0x5a {
        return BinaryFormat::Pe;
    }
    if bytes.len() >= 4 {
        let (b0, b1, b2, b3) = (bytes[0], bytes[1], bytes[2], bytes[3]);
        let mach = (b0 == 0xfe && b1 == 0xed && b2 == 0xfa && (b3 == 0xce || b3 == 0xcf)) || ((b0
            == 0xce || b0 == 0xcf) && b1 == 0xfa && b2 == 0xed && b3 == 0xfe);
        let fat = (b0 == 0xca && b1 == 0xfe && b2 == 0xba && b3 == 0xbe) || (b0 == 0xbe && b1
            == 0xba && b2 == 0xfe && b3 == 0xca);
        if mach || fat {
            return BinaryFormat::MachO;
        }
    }
    BinaryFormat::Unknown
}

/// The views of a list of names.
pub open spec fn names_view(v: Seq<String>) -> Seq<Seq<char>> {
    v.map_values(|s: String| s@)
}

/// What the ELF parser yields for these bytes: the `DT_NEEDED` entries of
/// the dynamic section, or nothing when the bytes do not parse as ELF.
pub uninterp spec fn elf_import_table(bytes: Seq<u8>) -> Option<Seq<Seq<char>>>;

/// What the PE parser yields for these bytes: the names in the import
/// table, or nothing when the bytes do not parse as PE.
pub uninterp spec fn pe_import_table(bytes: Seq<u8>) -> Option<Seq<Seq<char>>>;

/// What the Mach-O parser yields for these bytes: the dylibs its imports
/// are bound to, unioned over the parseable architectures of a fat
/// container, or nothing when the bytes do not parse.
pub uninterp spec fn mach_import_table(bytes: Seq<u8>) -> Option<Seq<Seq<char>>>;

/// Relies on goblin::elf::Elf::parse and goblin::elf::dynamic::Dynamic::
/// get_libraries: the names behind the DT_NEEDED entries of the dynamic
/// section, a function of the bytes alone; `None` exactly when the bytes do
/// not parse as ELF.
#[verifier::external_body]
pub(crate) fn elf_imports(bytes: &Vec<u8>) -> (r: Option<Vec<String>>)
    ensures
        match r {
            Some(v) => elf_import_table(bytes@) == Some(names_view(v@)),
            None => elf_import_table(bytes@) is None,
        },
{
    let Ok(elf) = goblin::elf::Elf::parse(bytes) else {
        return None;
    };
    let strtab = elf.dynstrtab;
    match elf.dynamic {
        Some(d) => Some(d.get_libraries(&strtab).iter().map(|v| v.to_string()).collect()),
        None => Some(Vec::new()),
    }
}

/// Relies on goblin::pe::PE::parse: the `libraries` field, the names in the
/// import table, a function of the bytes alone; `None` exactly when the
/// bytes do not parse as PE.
#[verifier::external_body]
pub(crate) fn pe_imports(bytes: &Vec<u8>) -> (r: Option<Vec<String>>)
    ensures
        match r {
            Some(v) => pe_import_table(bytes@) == Some(names_view(v@)),
            None => pe_import_table(bytes@) is None,
        },
{
    let Ok(pe) = goblin::pe::PE::parse(bytes) else {
        return None;
    };
    Some(pe.libraries.iter().map(|v| v.to_string()).collect())
}

/// Relies on goblin::mach::Mach::parse and MachO::imports: the dylib of
/// every import, unioned best-effort over the parseable architectures of a
/// fat container, a function of the bytes alone; `None` exactly when the
/// bytes do not parse as a Mach-O binary or container.
#[verifier::external_body]
pub(crate) fn mach_imports(bytes: &Vec<u8>) -> (r: Option<Vec<String>>)
    ensures
        match r {
            Some(v) => mach_import_table(bytes@) == Some(names_view(v@)),
            None => mach_import_table(bytes@) is None,
        },
{
    let mut out: Vec<String> = Vec::new();
    match goblin::mach::Mach::parse(bytes) {
        Err(_) => return None,
        Ok(goblin::mach::Mach::Binary(m)) => match m.imports() {
            Ok(v) => out.extend(v.iter().map(|i| i.dylib.to_string())),
            Err(_) => return None,
        },
        Ok(goblin::mach::Mach::Fat(fat)) => for arch in &fat {
            if let Ok(goblin::mach::SingleArch::MachO(m)) = arch {
                out.extend(m.imports().unwrap_or_default().iter().map(|i| i.dylib.to_string()));
            }
        },
    }
    Some(out)
}

/// The imported library names of a binary, uniformly across the container
/// formats: the format's own import table for a recognized format, the
/// empty set for an unrecognized one, and nothing for a recognized format
/// whose bytes are malformed.
pub open spec fn spec_read_imports(bytes: Seq<u8>) -> Option<Seq<Seq<char>>> {
    match spec_sniff(bytes) {
        BinaryFormat::Elf => elf_import_table(bytes),
        BinaryFormat::Pe => pe_import_table(bytes),
        BinaryFormat::MachO => mach_import_table(bytes),
        BinaryFormat::Unknown => Some(Seq::empty()),
    }
}

/// A recognized container format did not parse.
#[derive(Debug, PartialEq, Eq)]
pub struct ImportError {}

/// Read the dynamic-library names a binary imports. Unrecognized formats
/// yield the empty list; a recognized format with malformed bytes is an
/// error.
pub fn read_imports(bytes: &Vec<u8>) -> (r: Result<Vec<String>, ImportError>)
    ensures
        match r {
            Ok(v) => spec_read_imports(bytes@) == Some(names_view(v@)),
            Err(_) => spec_read_imports(bytes@) is None,
        },
{
    let parsed = match sniff_format(bytes) {
        BinaryFormat::Elf => elf_imports(bytes),
        BinaryFormat::Pe => pe_imports(bytes),
        BinaryFormat::MachO => mach_imports(bytes),
        BinaryFormat::Unknown => {
            let empty: Vec<String> = Vec::new();
            proof {
                assert(names_view(Seq::<String>::empty()) =~= Seq::<Seq<char>>::empty());
            }
            return Ok(empty);
        },
    };
    match parsed {
        Some(v) => Ok(v),
        None => Err(ImportError {}),
    }
}

} // verus!
