//! The in-memory relocatable object container, held behind a small trusted
//! surface over the `object` crate's writer.
//!
//! The container is opaque to the verifier. What it holds is named by the
//! uninterpreted functions below — the symbol list, the per-section byte
//! strings and relocation lists, the standard-section ids — and every call
//! into the writer is a wrapper whose contract says, over those names, what
//! the writer's source shows the call does.

use vstd::prelude::*;

verus! {

/// Architecture an object container is created for.
#[derive(Clone, Copy, PartialEq, Eq, Structural, Debug)]
pub enum ArchKind {
    X86_64,
    Aarch64,
}

/// The two standard sections the builder fills.
#[derive(Clone, Copy, PartialEq, Eq, Structural, Debug)]
pub enum StdSec {
    Text,
    Data,
}

/// Kind of a symbol: machine code or data.
#[derive(Clone, Copy, PartialEq, Eq, Structural, Debug)]
pub enum SymKind {
    Text,
    Data,
}

/// Visibility of a symbol: exposed to anyone, kept for static linking, or
/// private to this compilation unit.
#[derive(Clone, Copy, PartialEq, Eq, Structural, Debug)]
pub enum SymScope {
    Dynamic,
    Linkage,
    Compilation,
}

/// Kind of a relocation record: plain PC-relative, GOT-relative (data) or
/// PLT-relative (function call).
#[derive(Clone, Copy, PartialEq, Eq, Structural, Debug)]
pub enum RelocKind {
    Relative,
    GotRelative,
    PltRelative,
}

#[verifier::external_type_specification]
#[verifier::external_body]
pub struct ExObject<'a>(object::write::Object<'a>);

#[verifier::external_type_specification]
#[verifier::external_body]
pub struct ExSectionId(object::write::SectionId);

#[verifier::external_type_specification]
#[verifier::external_body]
pub struct ExSymbolId(object::write::SymbolId);

/// One entry of the container's symbol list, as the contracts see it.
/// The container also stores each symbol's value (its offset once bytes
/// are attached) and size; those two fields stay outside this model, so
/// no contract speaks of them — the tests pin them on concrete builds.
pub ghost struct SymEntry {
    pub name: Seq<u8>,
    pub kind: SymKind,
    pub scope: SymScope,
    pub section: int,
}

/// One entry of a section's relocation list, as the contracts see it.
pub ghost struct RelocEntry {
    pub offset: int,
    pub size: int,
    pub kind: RelocKind,
    pub symbol: int,
    pub addend: int,
}

pub uninterp spec fn obj_arch(o: object::write::Object<'static>) -> ArchKind;

pub uninterp spec fn obj_num_sections(o: object::write::Object<'static>) -> int;

pub uninterp spec fn obj_sec_bytes(o: object::write::Object<'static>, sec: int) -> Seq<u8>;

pub uninterp spec fn obj_std_sec(o: object::write::Object<'static>, which: StdSec) -> Option<int>;

pub uninterp spec fn obj_symbols(o: object::write::Object<'static>) -> Seq<SymEntry>;

pub uninterp spec fn obj_relocs(o: object::write::Object<'static>, sec: int) -> Seq<RelocEntry>;

pub uninterp spec fn section_index(id: object::write::SectionId) -> int;

pub uninterp spec fn symbol_index(id: object::write::SymbolId) -> int;

pub uninterp spec fn obj_write_bytes(o: object::write::Object<'static>) -> Seq<u8>;

pub uninterp spec fn obj_write_ok(o: object::write::Object<'static>) -> bool;

/// The index of the last symbol carrying `name`, if any carries it.
pub open spec fn find_last_symbol(syms: Seq<SymEntry>, name: Seq<u8>) -> Option<int>
    decreases syms.len(),
{
    if syms.len() == 0 {
        None
    } else if syms.last().name == name {
        Some(syms.len() - 1)
    } else {
        find_last_symbol(syms.drop_last(), name)
    }
}

/// Which generic 32-bit relocation records the writer can translate to an
/// ELF relocation type: all three kinds on x86-64, only the PC-relative one
/// on aarch64 (its GOT- and PLT-relative forms use other encodings there).
pub open spec fn reloc_accepted(arch: ArchKind, kind: RelocKind) -> bool {
    match arch {
        ArchKind::X86_64 => true,
        ArchKind::Aarch64 => kind == RelocKind::Relative,
    }
}

/// A section alignment the writer accepts: a power of two.
pub open spec fn align_ok(a: u64) -> bool {
    a > 0 && (a & ((a - 1) as u64)) == 0
}

/// The smallest multiple-distance bump of `n` up to alignment `a`.
pub open spec fn align_up(n: int, a: int) -> int
    recommends
        a > 0,
{
    n + ((a - n % a) % a)
}

/// A run of `n` zero bytes, as the writer pads sections with.
pub open spec fn zero_bytes(n: int) -> Seq<u8> {
    Seq::new(n as nat, |i: int| 0u8)
}

/// Section data may not outgrow what one allocation can hold.
pub open spec fn max_section_len() -> int {
    0x7fff_ffff_ffff_ffff
}

/// Relies on `object::write::Object::new`: a fresh object for the given
/// architecture (ELF container, little-endian) holds no sections, no
/// symbols and no relocation records.
#[verifier::external_body]
pub(crate) fn obj_new(arch: ArchKind) -> (o: object::write::Object<'static>)
    ensures
        obj_arch(o) == arch,
        obj_num_sections(o) == 0,
        obj_symbols(o) == Seq::<SymEntry>::empty(),
        forall|w: StdSec| #[trigger] obj_std_sec(o, w) is None,
        forall|s: int| #[trigger] obj_sec_bytes(o, s) == Seq::<u8>::empty(),
        forall|s: int| #[trigger] obj_relocs(o, s) == Seq::<RelocEntry>::empty(),
{
    let a = match arch {
        ArchKind::X86_64 => object::Architecture::X86_64,
        ArchKind::Aarch64 => object::Architecture::Aarch64,
    };
    object::write::Object::new(object::BinaryFormat::Elf, a, object::Endianness::Little)
}

/// Relies on `object::write::Object::section_id`: hands back the id of the
/// standard ELF section (".text" or ".data"), creating that section at the
/// next free index when it does not exist yet. Section bytes, symbols and
/// relocations are untouched either way.
#[verifier::external_body]
pub(crate) fn obj_standard_section(
    o: &mut object::write::Object<'static>,
    which: StdSec,
) -> (r: object::write::SectionId)
    ensures
        obj_arch(*final(o)) == obj_arch(*old(o)),
        obj_symbols(*final(o)) == obj_symbols(*old(o)),
        forall|s: int| #[trigger] obj_sec_bytes(*final(o), s) == obj_sec_bytes(*old(o), s),
        forall|s: int| #[trigger] obj_relocs(*final(o), s) == obj_relocs(*old(o), s),
        obj_std_sec(*final(o), which) == Some(section_index(r)),
        0 <= section_index(r) < obj_num_sections(*final(o)),
        match obj_std_sec(*old(o), which) {
            Some(i) => section_index(r) == i && obj_num_sections(*final(o)) == obj_num_sections(
                *old(o),
            ),
            None => section_index(r) == obj_num_sections(*old(o)) && obj_num_sections(*final(o))
                == obj_num_sections(*old(o)) + 1,
        },
        forall|w: StdSec| w != which ==> #[trigger] obj_std_sec(*final(o), w) == obj_std_sec(
            *old(o),
            w,
        ),
{
    let std = match which {
        StdSec::Text => object::write::StandardSection::Text,
        StdSec::Data => object::write::StandardSection::Data,
    };
    o.section_id(std)
}

/// Relies on `object::write::Object::add_section`: appends a new, empty
/// section at the next free index. A section of kind `OtherString` matches
/// no standard ELF section, so the standard-section ids stay as they were,
/// and no symbol is created.
#[verifier::external_body]
pub(crate) fn obj_add_named_section(
    o: &mut object::write::Object<'static>,
    name: &Vec<u8>,
) -> (r: object::write::SectionId)
    ensures
        obj_arch(*final(o)) == obj_arch(*old(o)),
        obj_symbols(*final(o)) == obj_symbols(*old(o)),
        forall|s: int| #[trigger] obj_sec_bytes(*final(o), s) == obj_sec_bytes(*old(o), s),
        forall|s: int| #[trigger] obj_relocs(*final(o), s) == obj_relocs(*old(o), s),
        forall|w: StdSec| #[trigger] obj_std_sec(*final(o), w) == obj_std_sec(*old(o), w),
        section_index(r) == obj_num_sections(*old(o)),
        obj_num_sections(*final(o)) == obj_num_sections(*old(o)) + 1,
{
    o.add_section(Vec::new(), name.clone(), object::SectionKind::OtherString)
}

/// Relies on `object::write::Object::add_symbol`: pushes the symbol at the
/// end of the symbol list. The ELF mangling scheme adds no global prefix,
/// so the stored name is the given one, and the writer keys its name map by
/// it, later entries overwriting earlier ones. Text and Data symbols with a
/// non-empty name are exactly the entries that map tracks, and every symbol
/// of this crate enters through here, which keeps the map in step with
/// `find_last_symbol` over the symbol list.
#[verifier::external_body]
pub(crate) fn obj_add_symbol(
    o: &mut object::write::Object<'static>,
    name: &Vec<u8>,
    kind: SymKind,
    scope: SymScope,
    sec: object::write::SectionId,
) -> (r: object::write::SymbolId)
    requires
        name@.len() > 0,
        0 <= section_index(sec) < obj_num_sections(*old(o)),
    ensures
        symbol_index(r) == obj_symbols(*old(o)).len(),
        obj_symbols(*final(o)) == obj_symbols(*old(o)).push(
            (SymEntry {
                name: name@,
                kind: kind,
                scope: scope,
                section: section_index(sec),
            }),
        ),
        obj_arch(*final(o)) == obj_arch(*old(o)),
        obj_num_sections(*final(o)) == obj_num_sections(*old(o)),
        forall|s: int| #[trigger] obj_sec_bytes(*final(o), s) == obj_sec_bytes(*old(o), s),
        forall|s: int| #[trigger] obj_relocs(*final(o), s) == obj_relocs(*old(o), s),
        forall|w: StdSec| #[trigger] obj_std_sec(*final(o), w) == obj_std_sec(*old(o), w),
{
    let kind = match kind {
        SymKind::Text => object::SymbolKind::Text,
        SymKind::Data => object::SymbolKind::Data,
    };
    let scope = match scope {
        SymScope::Dynamic => object::SymbolScope::Dynamic,
        SymScope::Linkage => object::SymbolScope::Linkage,
        SymScope::Compilation => object::SymbolScope::Compilation,
    };
    let section = object::write::SymbolSection::Section(sec);
    let name = name.clone();
    let (value, size, weak, flags) = (0, 0, false, object::SymbolFlags::None);
    o.add_symbol(object::write::Symbol { name, value, size, kind, scope, weak, section, flags })
}

/// Relies on `object::write::Object::symbol_id`: looks the name up in the
/// writer's name map. Because `obj_add_symbol` keyed every entry by its
/// name, last insertion winning, the result is the last symbol carrying the
/// name, or nothing when none carries it.
#[verifier::external_body]
pub(crate) fn obj_symbol_id(
    o: &object::write::Object<'static>,
    name: &Vec<u8>,
) -> (r: Option<object::write::SymbolId>)
    ensures
        match find_last_symbol(obj_symbols(*o), name@) {
            Some(i) => r is Some && symbol_index(r->Some_0) == i,
            None => r is None,
        },
{
    o.symbol_id(name.as_slice())
}

/// Relies on `object::write::Object::add_symbol_data`: pads the section
/// with zero bytes up to the alignment, appends the data at the returned
/// offset, and points the symbol at it (its name, kind and scope stay).
#[verifier::external_body]
pub(crate) fn obj_add_symbol_data(
    o: &mut object::write::Object<'static>,
    id: object::write::SymbolId,
    sec: object::write::SectionId,
    data: &Vec<u8>,
    align: u64,
) -> (r: u64)
    requires
        0 <= symbol_index(id) < obj_symbols(*old(o)).len(),
        0 <= section_index(sec) < obj_num_sections(*old(o)),
        align_ok(align),
        obj_sec_bytes(*old(o), section_index(sec)).len() + align + data@.len()
            <= max_section_len(),
    ensures
        r as int == align_up(obj_sec_bytes(*old(o), section_index(sec)).len() as int, align as int),
        obj_sec_bytes(*final(o), section_index(sec)) == obj_sec_bytes(
            *old(o),
            section_index(sec),
        ) + zero_bytes(r - obj_sec_bytes(*old(o), section_index(sec)).len()) + data@,
        forall|s: int| s != section_index(sec) ==> #[trigger] obj_sec_bytes(*final(o), s)
            == obj_sec_bytes(*old(o), s),
        obj_symbols(*final(o)) == obj_symbols(*old(o)).update(
            symbol_index(id),
            (SymEntry { section: section_index(sec), ..obj_symbols(*old(o))[symbol_index(id)] }),
        ),
        obj_arch(*final(o)) == obj_arch(*old(o)),
        obj_num_sections(*final(o)) == obj_num_sections(*old(o)),
        forall|s: int| #[trigger] obj_relocs(*final(o), s) == obj_relocs(*old(o), s),
        forall|w: StdSec| #[trigger] obj_std_sec(*final(o), w) == obj_std_sec(*old(o), w),
{
    o.add_symbol_data(id, sec, data.as_slice(), align)
}

/// Relies on `object::write::Object::append_section_data`: pads the section
/// with zero bytes up to the alignment and appends the data at the returned
/// offset.
#[verifier::external_body]
pub(crate) fn obj_append_section_data(
    o: &mut object::write::Object<'static>,
    sec: object::write::SectionId,
    data: &Vec<u8>,
    align: u64,
) -> (r: u64)
    requires
        0 <= section_index(sec) < obj_num_sections(*old(o)),
        align_ok(align),
        obj_sec_bytes(*old(o), section_index(sec)).len() + align + data@.len()
            <= max_section_len(),
    ensures
        r as int == align_up(obj_sec_bytes(*old(o), section_index(sec)).len() as int, align as int),
        obj_sec_bytes(*final(o), section_index(sec)) == obj_sec_bytes(
            *old(o),
            section_index(sec),
        ) + zero_bytes(r - obj_sec_bytes(*old(o), section_index(sec)).len()) + data@,
        forall|s: int| s != section_index(sec) ==> #[trigger] obj_sec_bytes(*final(o), s)
            == obj_sec_bytes(*old(o), s),
        obj_symbols(*final(o)) == obj_symbols(*old(o)),
        obj_arch(*final(o)) == obj_arch(*old(o)),
        obj_num_sections(*final(o)) == obj_num_sections(*old(o)),
        forall|s: int| #[trigger] obj_relocs(*final(o), s) == obj_relocs(*old(o), s),
        forall|w: StdSec| #[trigger] obj_std_sec(*final(o), w) == obj_std_sec(*old(o), w),
{
    o.append_section_data(sec, data.as_slice(), align)
}

/// Relies on `object::write::Object::add_relocation`: translates a generic
/// 32-bit relocation to an ELF relocation type and pushes it on the
/// section's relocation list. On x86-64 the PC-, GOT- and PLT-relative
/// kinds all translate; on aarch64 only the PC-relative one does, and the
/// refused call reports an error and changes nothing. Both architectures
/// store the addend in the record, so no section byte moves.
#[verifier::external_body]
pub(crate) fn obj_add_relocation(
    o: &mut object::write::Object<'static>,
    sec: object::write::SectionId,
    offset: u64,
    size: u8,
    kind: RelocKind,
    symbol: object::write::SymbolId,
    addend: i64,
) -> (r: Result<(), String>)
    requires
        0 <= section_index(sec) < obj_num_sections(*old(o)),
        size == 32,
    ensures
        r is Ok <==> reloc_accepted(obj_arch(*old(o)), kind),
        r is Ok ==> obj_relocs(*final(o), section_index(sec)) == obj_relocs(
            *old(o),
            section_index(sec),
        ).push(
            (RelocEntry {
                offset: offset as int,
                size: size as int,
                kind: kind,
                symbol: symbol_index(symbol),
                addend: addend as int,
            }),
        ),
        r is Ok ==> forall|s: int| s != section_index(sec) ==> #[trigger] obj_relocs(
            *final(o),
            s,
        ) == obj_relocs(*old(o), s),
        r is Err ==> forall|s: int| #[trigger] obj_relocs(*final(o), s) == obj_relocs(*old(o), s),
        obj_symbols(*final(o)) == obj_symbols(*old(o)),
        obj_arch(*final(o)) == obj_arch(*old(o)),
        obj_num_sections(*final(o)) == obj_num_sections(*old(o)),
        forall|s: int| #[trigger] obj_sec_bytes(*final(o), s) == obj_sec_bytes(*old(o), s),
        forall|w: StdSec| #[trigger] obj_std_sec(*final(o), w) == obj_std_sec(*old(o), w),
{
    let kind = match kind {
        RelocKind::Relative => object::RelocationKind::Relative,
        RelocKind::GotRelative => object::RelocationKind::GotRelative,
        RelocKind::PltRelative => object::RelocationKind::PltRelative,
    };
    let encoding = object::RelocationEncoding::Generic;
    let flags = object::RelocationFlags::Generic { kind, encoding, size };
    let reloc = object::write::Relocation { offset, symbol, addend, flags };
    o.add_relocation(sec, reloc).map_err(|e| format!("{:?}", e))
}

/// Relies on `object::write::Object::write`: serializes the container to
/// bytes. The writer reads nothing but the container value — no clock,
/// no randomness, and no hash-map iteration reaches its outcome — so both
/// whether it succeeds and the bytes it then produces are functions of the
/// container alone, named `obj_write_ok` and `obj_write_bytes`. The
/// writer indexes the symbol behind every relocation and the section
/// behind every symbol, so those must exist.
#[verifier::external_body]
pub(crate) fn obj_write(o: &object::write::Object<'static>) -> (r: Result<Vec<u8>, String>)
    requires
        forall|s: int, j: int|
            0 <= j < obj_relocs(*o, s).len() ==> 0 <= #[trigger] obj_relocs(*o, s)[j].symbol
                < obj_symbols(*o).len(),
        forall|j: int|
            0 <= j < obj_symbols(*o).len() ==> 0 <= #[trigger] obj_symbols(*o)[j].section
                < obj_num_sections(*o),
    ensures
        r is Ok <==> obj_write_ok(*o),
        r is Ok ==> r->Ok_0@ == obj_write_bytes(*o),
{
    match o.write() {
        Ok(v) => Ok(v),
        Err(e) => Err(format!("{:?}", e)),
    }
}

} // verus!
