//! The object builder: declares one Text symbol per surviving procedure,
//! then appends every procedure's bytes and resolves its relocations, in
//! two strictly ordered passes over the procedure list.
//!
//! Everything the builder does to the container is pinned by `build_model`,
//! a function from the inputs to the finished object's contents: the
//! executable build either returns a container whose symbol list, section
//! bytes and relocation records equal that model, or the error the model
//! names.

use vstd::prelude::*;
use crate::errors::{BuildError, BuildErrVal};
use crate::ir::{Proc, ProcVal, Relocation, RelocVal, view_procs};
use crate::mangle::{
    contains_u64,
    copy_bytes,
    count_kept_sym,
    data_sym_name,
    mangle_name,
    spec_data_sym_name,
    spec_mangled,
};
use crate::objfile::{
    ArchKind,
    RelocEntry,
    RelocKind,
    StdSec,
    SymEntry,
    SymKind,
    SymScope,
    align_ok,
    align_up,
    find_last_symbol,
    max_section_len,
    obj_add_named_section,
    obj_add_relocation,
    obj_add_symbol,
    obj_add_symbol_data,
    obj_append_section_data,
    obj_arch,
    obj_new,
    obj_num_sections,
    obj_relocs,
    obj_sec_bytes,
    obj_standard_section,
    obj_std_sec,
    obj_symbol_id,
    obj_symbols,
    obj_write,
    reloc_accepted,
    section_index,
    symbol_index,
    zero_bytes,
};
use crate::target::{TargetTriple, dispatch_target};

verus! {

/// A symbol as the build model sees it; its section is implied by its
/// kind (Text symbols sit in the text section, Data symbols in the data
/// section).
pub ghost struct AbsSym {
    pub name: Seq<u8>,
    pub kind: SymKind,
    pub scope: SymScope,
}

/// What the declaration pass records for one surviving procedure.
pub ghost struct DeclVal {
    pub name: Seq<u8>,
    pub scope: SymScope,
    pub bytes: Seq<u8>,
    pub relocs: Seq<RelocVal>,
}

/// The growing contents of the object during the emission pass.
pub ghost struct EmitState {
    pub symbols: Seq<AbsSym>,
    pub relocs: Seq<RelocEntry>,
    pub text: Seq<u8>,
    pub data: Seq<u8>,
}

/// The contents of a finished object: symbol list, text-section relocation
/// records, and the bytes of the text, data and comment sections.
pub ghost struct ObjModel {
    pub symbols: Seq<AbsSym>,
    pub relocs: Seq<RelocEntry>,
    pub text: Seq<u8>,
    pub data: Seq<u8>,
    pub comment: Seq<u8>,
}

/// A procedure survives unless its source symbol was already inlined at
/// every call site.
pub open spec fn is_kept(p: ProcVal, inlined: Seq<u64>) -> bool {
    !inlined.contains(p.sym)
}

/// The mangled Text-symbol name procedure `i` is declared under.
pub open spec fn decl_name(procs: Seq<ProcVal>, inlined: Seq<u64>, i: int) -> Seq<u8> {
    spec_mangled(procs[i].name, count_kept_sym(procs, inlined, procs[i].sym, i))
}

/// Unique declared names, as the data model promises: no two surviving
/// procedures are declared under the same mangled name.
pub open spec fn decl_names_distinct(procs: Seq<ProcVal>, inlined: Seq<u64>) -> bool {
    forall|i: int, j: int|
        #![trigger decl_name(procs, inlined, i), decl_name(procs, inlined, j)]
        0 <= i < j < procs.len() && is_kept(procs[i], inlined) && is_kept(procs[j], inlined)
            ==> decl_name(procs, inlined, i) != decl_name(procs, inlined, j)
}

/// What the declaration pass records for procedure `i`: its mangled name,
/// and a scope of Dynamic exactly when the host exposes its symbol.
pub open spec fn decl_of_proc(
    procs: Seq<ProcVal>,
    exposed: Seq<u64>,
    inlined: Seq<u64>,
    i: int,
) -> DeclVal {
    DeclVal {
        name: decl_name(procs, inlined, i),
        scope: if exposed.contains(procs[i].sym) {
            SymScope::Dynamic
        } else {
            SymScope::Linkage
        },
        bytes: procs[i].bytes,
        relocs: procs[i].relocs,
    }
}

/// The declaration records of the first `i` procedures, surviving ones
/// only, in input order.
pub open spec fn decls_upto(
    procs: Seq<ProcVal>,
    exposed: Seq<u64>,
    inlined: Seq<u64>,
    i: int,
) -> Seq<DeclVal>
    decreases i,
{
    if i <= 0 {
        Seq::empty()
    } else {
        let d = decls_upto(procs, exposed, inlined, i - 1);
        if is_kept(procs[i - 1], inlined) {
            d.push(decl_of_proc(procs, exposed, inlined, i - 1))
        } else {
            d
        }
    }
}

/// The Text symbol a declaration turns into.
pub open spec fn decl_sym(d: DeclVal) -> AbsSym {
    AbsSym { name: d.name, kind: SymKind::Text, scope: d.scope }
}

/// The symbol list after the declaration pass.
pub open spec fn pass1_syms(ds: Seq<DeclVal>) -> Seq<AbsSym> {
    ds.map_values(|d: DeclVal| decl_sym(d))
}

/// The index of the last symbol carrying `name`, if any carries it.
pub open spec fn find_last_abs(syms: Seq<AbsSym>, name: Seq<u8>) -> Option<int>
    decreases syms.len(),
{
    if syms.len() == 0 {
        None
    } else if syms.last().name == name {
        Some(syms.len() - 1)
    } else {
        find_last_abs(syms.drop_last(), name)
    }
}

/// How a model symbol lies in the container: Text symbols in the text
/// section, Data symbols in the data section.
pub open spec fn raw_sym(s: AbsSym, tid: int, did: int) -> SymEntry {
    SymEntry {
        name: s.name,
        kind: s.kind,
        scope: s.scope,
        section: if s.kind == SymKind::Text {
            tid
        } else {
            did
        },
    }
}

/// The container's symbol list for the model symbols `syms`.
pub open spec fn raw_syms(syms: Seq<AbsSym>, tid: int, did: int) -> Seq<SymEntry> {
    syms.map_values(|s: AbsSym| raw_sym(s, tid, did))
}

/// One emission step, for one relocation of the procedure named `fname`
/// whose bytes start at `poff`; `ldi` numbers its anonymous data symbols.
pub open spec fn step_reloc(
    arch: ArchKind,
    st: EmitState,
    fname: Seq<u8>,
    poff: int,
    ldi: nat,
    r: RelocVal,
) -> Result<(EmitState, nat), BuildErrVal> {
    match r {
        RelocVal::LocalData { offset, data } => {
            let dname = spec_data_sym_name(fname, ldi);
            let sid = st.symbols.len() as int;
            let doff = align_up(st.data.len() as int, 4);
            Ok(
                (
                    EmitState {
                        symbols: st.symbols.push(
                            (AbsSym {
                                name: dname,
                                kind: SymKind::Data,
                                scope: SymScope::Compilation,
                            }),
                        ),
                        relocs: st.relocs.push(
                            (RelocEntry {
                                offset: offset + poff,
                                size: 32,
                                kind: RelocKind::Relative,
                                symbol: sid,
                                addend: -4,
                            }),
                        ),
                        text: st.text,
                        data: st.data + zero_bytes(doff - st.data.len()) + data,
                    },
                    ldi + 1,
                ),
            )
        },
        RelocVal::LinkedData { offset, name } => match find_last_abs(st.symbols, name) {
            Some(i) => if reloc_accepted(arch, RelocKind::GotRelative) {
                Ok(
                    (
                        EmitState {
                            relocs: st.relocs.push(
                                (RelocEntry {
                                    offset: offset + poff,
                                    size: 32,
                                    kind: RelocKind::GotRelative,
                                    symbol: i,
                                    addend: -4,
                                }),
                            ),
                            ..st
                        },
                        ldi,
                    ),
                )
            } else {
                Err(BuildErrVal::UnsupportedRelocation { kind: RelocKind::GotRelative })
            },
            None => Err(BuildErrVal::UnresolvedSymbol { name: name }),
        },
        RelocVal::LinkedFunction { offset, name } => match find_last_abs(st.symbols, name) {
            Some(i) => if reloc_accepted(arch, RelocKind::PltRelative) {
                Ok(
                    (
                        EmitState {
                            relocs: st.relocs.push(
                                (RelocEntry {
                                    offset: offset + poff,
                                    size: 32,
                                    kind: RelocKind::PltRelative,
                                    symbol: i,
                                    addend: -4,
                                }),
                            ),
                            ..st
                        },
                        ldi,
                    ),
                )
            } else {
                Err(BuildErrVal::UnsupportedRelocation { kind: RelocKind::PltRelative })
            },
            None => Err(BuildErrVal::UnresolvedSymbol { name: name }),
        },
    }
}

/// Emits the relocations `rs` of one procedure, in order.
pub open spec fn emit_relocs(
    arch: ArchKind,
    st: EmitState,
    fname: Seq<u8>,
    poff: int,
    ldi: nat,
    rs: Seq<RelocVal>,
) -> Result<EmitState, BuildErrVal>
    decreases rs.len(),
{
    if rs.len() == 0 {
        Ok(st)
    } else {
        match step_reloc(arch, st, fname, poff, ldi, rs[0]) {
            Ok((st2, ldi2)) => emit_relocs(arch, st2, fname, poff, ldi2, rs.drop_first()),
            Err(e) => Err(e),
        }
    }
}

/// Emits one declared procedure: appends its bytes to the text section at
/// 16-byte alignment, then its relocations.
pub open spec fn emit_decl(arch: ArchKind, st: EmitState, d: DeclVal) -> Result<
    EmitState,
    BuildErrVal,
> {
    let poff = align_up(st.text.len() as int, 16);
    let st1 = EmitState { text: st.text + zero_bytes(poff - st.text.len()) + d.bytes, ..st };
    emit_relocs(arch, st1, d.name, poff, 0, d.relocs)
}

/// The emission pass: every declared procedure, in declaration order.
pub open spec fn emit_decls(arch: ArchKind, st: EmitState, ds: Seq<DeclVal>) -> Result<
    EmitState,
    BuildErrVal,
>
    decreases ds.len(),
{
    if ds.len() == 0 {
        Ok(st)
    } else {
        match emit_decl(arch, st, ds[0]) {
            Ok(st2) => emit_decls(arch, st2, ds.drop_first()),
            Err(e) => Err(e),
        }
    }
}

/// What building yields, as a function of the inputs alone: the symbol
/// list, relocation records and section bytes of the finished object, or
/// the error that stops the build.
pub open spec fn build_model(
    arch: ArchKind,
    procs: Seq<ProcVal>,
    exposed: Seq<u64>,
    inlined: Seq<u64>,
    build_id: Seq<u8>,
) -> Result<ObjModel, BuildErrVal> {
    let ds = decls_upto(procs, exposed, inlined, procs.len() as int);
    let st0 = EmitState {
        symbols: pass1_syms(ds),
        relocs: Seq::empty(),
        text: Seq::empty(),
        data: Seq::empty(),
    };
    match emit_decls(arch, st0, ds) {
        Ok(st) => Ok(
            (ObjModel {
                symbols: st.symbols,
                relocs: st.relocs,
                text: st.text,
                data: st.data,
                comment: build_id,
            }),
        ),
        Err(e) => Err(e),
    }
}

/// Whether a relocation's offset lies within the owning procedure's bytes.
pub open spec fn reloc_in_range(r: RelocVal, len: int) -> bool {
    match r {
        RelocVal::LocalData { offset, .. } => offset <= len,
        RelocVal::LinkedData { offset, .. } => offset <= len,
        RelocVal::LinkedFunction { offset, .. } => offset <= len,
    }
}

/// The input conditions of a procedure list: non-empty names; relocation
/// offsets inside the owning bytes; pairwise-distinct (symbol, layout)
/// keys — a procedure list is a map keyed by those pairs; and names that
/// identify their source symbol, so that procedures of distinct symbols
/// never collide on a mangled name.
pub open spec fn procs_wf(procs: Seq<ProcVal>) -> bool {
    &&& forall|i: int| 0 <= i < procs.len() ==> (#[trigger] procs[i]).name.len() > 0
    &&& forall|i: int, j: int|
        0 <= i < procs.len() && 0 <= j < procs[i].relocs.len() ==> reloc_in_range(
            #[trigger] procs[i].relocs[j],
            procs[i].bytes.len() as int,
        )
    &&& forall|i: int, j: int|
        0 <= i < j < procs.len() ==> !((#[trigger] procs[i]).sym == (#[trigger] procs[j]).sym
            && procs[i].layout == procs[j].layout)
    &&& forall|i: int, j: int|
        0 <= i < j < procs.len() && (#[trigger] procs[i]).name == (#[trigger] procs[j]).name
            ==> procs[i].sym == procs[j].sym
}

/// Bytes the data section may have to hold for the relocations `rs`.
pub open spec fn reloc_data_demand(rs: Seq<RelocVal>) -> int
    decreases rs.len(),
{
    if rs.len() == 0 {
        0
    } else {
        (match rs[0] {
            RelocVal::LocalData { data, .. } => 4 + data.len() as int,
            _ => 0int,
        }) + reloc_data_demand(rs.drop_first())
    }
}

/// Bytes the text section may have to hold for the procedures `ps`.
pub open spec fn procs_text_demand(ps: Seq<ProcVal>) -> int
    decreases ps.len(),
{
    if ps.len() == 0 {
        0
    } else {
        procs_text_demand(ps.drop_last()) + 16 + ps.last().bytes.len()
    }
}

/// Bytes the data section may have to hold for the procedures `ps`.
pub open spec fn procs_data_demand(ps: Seq<ProcVal>) -> int
    decreases ps.len(),
{
    if ps.len() == 0 {
        0
    } else {
        procs_data_demand(ps.drop_last()) + reloc_data_demand(ps.last().relocs)
    }
}

/// Bytes the text section may have to hold for the declarations `ds`.
pub open spec fn decls_text_demand(ds: Seq<DeclVal>) -> int
    decreases ds.len(),
{
    if ds.len() == 0 {
        0
    } else {
        16 + ds[0].bytes.len() + decls_text_demand(ds.drop_first())
    }
}

/// Bytes the data section may have to hold for the declarations `ds`.
pub open spec fn decls_data_demand(ds: Seq<DeclVal>) -> int
    decreases ds.len(),
{
    if ds.len() == 0 {
        0
    } else {
        reloc_data_demand(ds[0].relocs) + decls_data_demand(ds.drop_first())
    }
}

proof fn lemma_skip_step<T>(s: Seq<T>, i: int)
    requires
        0 <= i < s.len(),
    ensures
        s.skip(i)[0] == s[i],
        s.skip(i).drop_first() == s.skip(i + 1),
        s.skip(i).len() == s.len() - i,
{
    assert(s.skip(i).drop_first() =~= s.skip(i + 1));
}

/// What a name lookup says: a found index carries the name, a miss means
/// no symbol carries it.
pub proof fn lemma_find_last_abs_bounds(syms: Seq<AbsSym>, name: Seq<u8>)
    ensures
        match find_last_abs(syms, name) {
            Some(i) => 0 <= i < syms.len() && syms[i].name == name,
            None => forall|j: int| 0 <= j < syms.len() ==> (#[trigger] syms[j]).name != name,
        },
    decreases syms.len(),
{
    if syms.len() > 0 && syms.last().name != name {
        lemma_find_last_abs_bounds(syms.drop_last(), name);
        assert(forall|j: int|
            0 <= j < syms.len() - 1 ==> syms.drop_last()[j] == #[trigger] syms[j]);
    }
}

proof fn lemma_find_last_map(syms: Seq<AbsSym>, tid: int, did: int, name: Seq<u8>)
    ensures
        find_last_symbol(raw_syms(syms, tid, did), name) == find_last_abs(syms, name),
    decreases syms.len(),
{
    let raw = raw_syms(syms, tid, did);
    if syms.len() == 0 {
    } else {
        assert(raw.last() == raw_sym(syms.last(), tid, did));
        assert(raw.drop_last() =~= raw_syms(syms.drop_last(), tid, did));
        lemma_find_last_map(syms.drop_last(), tid, did, name);
    }
}

proof fn lemma_raw_syms_push(s: Seq<AbsSym>, x: AbsSym, tid: int, did: int)
    ensures
        raw_syms(s.push(x), tid, did) == raw_syms(s, tid, did).push(raw_sym(x, tid, did)),
{
    assert(raw_syms(s.push(x), tid, did) =~= raw_syms(s, tid, did).push(raw_sym(x, tid, did)));
}

proof fn lemma_pass1_push(ds: Seq<DeclVal>, d: DeclVal)
    ensures
        pass1_syms(ds.push(d)) == pass1_syms(ds).push(decl_sym(d)),
{
    assert(pass1_syms(ds.push(d)) =~= pass1_syms(ds).push(decl_sym(d)));
}

proof fn lemma_reloc_data_demand_nonneg(rs: Seq<RelocVal>)
    ensures
        reloc_data_demand(rs) >= 0,
    decreases rs.len(),
{
    if rs.len() > 0 {
        lemma_reloc_data_demand_nonneg(rs.drop_first());
    }
}

proof fn lemma_decls_text_demand_nonneg(ds: Seq<DeclVal>)
    ensures
        decls_text_demand(ds) >= 0,
    decreases ds.len(),
{
    if ds.len() > 0 {
        lemma_decls_text_demand_nonneg(ds.drop_first());
    }
}

proof fn lemma_decls_data_demand_nonneg(ds: Seq<DeclVal>)
    ensures
        decls_data_demand(ds) >= 0,
    decreases ds.len(),
{
    if ds.len() > 0 {
        lemma_reloc_data_demand_nonneg(ds[0].relocs);
        lemma_decls_data_demand_nonneg(ds.drop_first());
    }
}

proof fn lemma_decls_text_demand_push(ds: Seq<DeclVal>, d: DeclVal)
    ensures
        decls_text_demand(ds.push(d)) == decls_text_demand(ds) + 16 + d.bytes.len(),
    decreases ds.len(),
{
    if ds.len() == 0 {
        assert(ds.push(d).drop_first() =~= Seq::<DeclVal>::empty());
        assert(ds.push(d)[0] == d);
        assert(decls_text_demand(ds.push(d).drop_first()) == 0);
        assert(decls_text_demand(ds.push(d)) == 16 + d.bytes.len());
    } else {
        assert(ds.push(d).drop_first() =~= ds.drop_first().push(d));
        assert(ds.push(d)[0] == ds[0]);
        lemma_decls_text_demand_push(ds.drop_first(), d);
        assert(decls_text_demand(ds.push(d)) == 16 + ds[0].bytes.len() + decls_text_demand(
            ds.drop_first().push(d),
        ));
    }
}

proof fn lemma_decls_data_demand_push(ds: Seq<DeclVal>, d: DeclVal)
    ensures
        decls_data_demand(ds.push(d)) == decls_data_demand(ds) + reloc_data_demand(d.relocs),
    decreases ds.len(),
{
    if ds.len() == 0 {
        assert(ds.push(d).drop_first() =~= Seq::<DeclVal>::empty());
        assert(ds.push(d)[0] == d);
        assert(decls_data_demand(ds.push(d).drop_first()) == 0);
        assert(decls_data_demand(ds.push(d)) == reloc_data_demand(d.relocs));
    } else {
        assert(ds.push(d).drop_first() =~= ds.drop_first().push(d));
        assert(ds.push(d)[0] == ds[0]);
        lemma_decls_data_demand_push(ds.drop_first(), d);
        assert(decls_data_demand(ds.push(d)) == reloc_data_demand(ds[0].relocs)
            + decls_data_demand(ds.drop_first().push(d)));
    }
}

proof fn lemma_decls_demand_le(procs: Seq<ProcVal>, exposed: Seq<u64>, inlined: Seq<u64>, i: int)
    requires
        0 <= i <= procs.len(),
    ensures
        decls_text_demand(decls_upto(procs, exposed, inlined, i)) <= procs_text_demand(
            procs.take(i),
        ),
        decls_data_demand(decls_upto(procs, exposed, inlined, i)) <= procs_data_demand(
            procs.take(i),
        ),
    decreases i,
{
    if i == 0 {
        assert(procs.take(0) =~= Seq::<ProcVal>::empty());
    } else {
        lemma_decls_demand_le(procs, exposed, inlined, i - 1);
        assert(procs.take(i).drop_last() =~= procs.take(i - 1));
        assert(procs.take(i).last() == procs[i - 1]);
        let prev = decls_upto(procs, exposed, inlined, i - 1);
        if is_kept(procs[i - 1], inlined) {
            let d = decl_of_proc(procs, exposed, inlined, i - 1);
            lemma_decls_text_demand_push(prev, d);
            lemma_decls_data_demand_push(prev, d);
        } else {
            lemma_reloc_data_demand_nonneg(procs[i - 1].relocs);
        }
    }
}

proof fn lemma_align_consts()
    ensures
        align_ok(1),
        align_ok(4),
        align_ok(16),
{
    assert((1u64 & 0u64) == 0 && (4u64 & 3u64) == 0 && (16u64 & 15u64) == 0) by (bit_vector);
}

/// "comment", the name of the auxiliary section that carries the build
/// identifier.
pub open spec fn comment_name() -> Seq<u8> {
    seq![99u8, 111u8, 109u8, 109u8, 101u8, 110u8, 116u8]
}

fn comment_section_name() -> (r: Vec<u8>)
    ensures
        r@ == comment_name(),
{
    let mut r: Vec<u8> = Vec::new();
    r.push(99);
    r.push(111);
    r.push(109);
    r.push(109);
    r.push(101);
    r.push(110);
    r.push(116);
    proof {
        assert(r@ =~= comment_name());
    }
    r
}

fn count_prior(procs: &Vec<Proc>, inlined: &Vec<u64>, i: usize) -> (r: u64)
    requires
        i < procs@.len(),
    ensures
        r as int == count_kept_sym(view_procs(procs@), inlined@, procs@[i as int]@.sym, i as int),
{
    let sym = procs[i].sym;
    let mut c: u64 = 0;
    let mut j: usize = 0;
    while j < i
        invariant
            j <= i,
            i < procs@.len(),
            sym == procs@[i as int]@.sym,
            c <= j,
            c as int == count_kept_sym(view_procs(procs@), inlined@, sym, j as int),
        decreases i - j,
    {
        proof {
            assert(view_procs(procs@)[j as int] == procs@[j as int]@);
        }
        if procs[j].sym == sym && !contains_u64(inlined, procs[j].sym) {
            c = c + 1;
        }
        j = j + 1;
    }
    c
}

/// What the declaration pass records for the emission pass: the mangled
/// name, the container id of the Text symbol, and the procedure's index.
struct DeclRec {
    name: Vec<u8>,
    sid: object::write::SymbolId,
    pi: usize,
}

/// A finished object: the container and the ids of its three sections.
/// `build_object` is the one maker of these values, and its contract
/// establishes `wf`, which `emit` requires; the fields stay public only
/// so that the contracts over them can stay open, and a hand-assembled
/// value stands outside every contract of this crate.
pub struct BuiltObject {
    pub obj: object::write::Object<'static>,
    pub text: object::write::SectionId,
    pub data: object::write::SectionId,
    pub comment: object::write::SectionId,
}

impl BuiltObject {
    /// The container holds exactly the contents the model `m` describes.
    pub open spec fn model_matches(&self, m: ObjModel) -> bool {
        let tid = section_index(self.text);
        let did = section_index(self.data);
        let cid = section_index(self.comment);
        &&& obj_std_sec(self.obj, StdSec::Text) == Some(tid)
        &&& obj_std_sec(self.obj, StdSec::Data) == Some(did)
        &&& 0 <= tid < obj_num_sections(self.obj)
        &&& 0 <= did < obj_num_sections(self.obj)
        &&& 0 <= cid < obj_num_sections(self.obj)
        &&& tid != did && tid != cid && did != cid
        &&& obj_symbols(self.obj) == raw_syms(m.symbols, tid, did)
        &&& obj_relocs(self.obj, tid) == m.relocs
        &&& forall|s: int| s != section_index(self.text) ==> #[trigger] obj_relocs(self.obj, s)
            == Seq::<RelocEntry>::empty()
        &&& obj_sec_bytes(self.obj, tid) == m.text
        &&& obj_sec_bytes(self.obj, did) == m.data
        &&& obj_sec_bytes(self.obj, cid) == m.comment
    }

    /// Every relocation references an existing symbol and every symbol an
    /// existing section, so the container can be serialized.
    pub open spec fn wf(&self) -> bool {
        &&& forall|s: int, j: int|
            0 <= j < obj_relocs(self.obj, s).len() ==> 0 <= #[trigger] obj_relocs(
                self.obj,
                s,
            )[j].symbol < obj_symbols(self.obj).len()
        &&& forall|j: int|
            0 <= j < obj_symbols(self.obj).len() ==> 0 <= #[trigger] obj_symbols(
                self.obj,
            )[j].section < obj_num_sections(self.obj)
    }

    /// Serializes the finished object to the bytes of a relocatable ELF
    /// file; whether that succeeds, and the bytes it yields, are functions
    /// of the container alone.
    pub fn emit(&self) -> (r: Result<Vec<u8>, String>)
        requires
            self.wf(),
        ensures
            r is Ok <==> crate::objfile::obj_write_ok(self.obj),
            r is Ok ==> r->Ok_0@ == crate::objfile::obj_write_bytes(self.obj),
    {
        obj_write(&self.obj)
    }
}
/// Builds the object for `arch` from the compiled procedures: declares the
/// Text symbol of every procedure that survives the inlined set, then
/// emits bytes and relocations, exactly as `build_model` describes.
#[verifier::rlimit(100)]
pub fn build_object(
    arch: ArchKind,
    procs: &Vec<Proc>,
    exposed: &Vec<u64>,
    inlined: &Vec<u64>,
    build_id: &Vec<u8>,
) -> (r: Result<BuiltObject, BuildError>)
    requires
        procs_wf(view_procs(procs@)),
        decl_names_distinct(view_procs(procs@), inlined@),
        procs_text_demand(view_procs(procs@)) <= max_section_len(),
        procs_data_demand(view_procs(procs@)) <= max_section_len(),
        build_id@.len() + 1 <= max_section_len(),
    ensures
        match build_model(arch, view_procs(procs@), exposed@, inlined@, build_id@) {
            Ok(m) => r is Ok && r->Ok_0.model_matches(m) && r->Ok_0.wf() && obj_arch(
                r->Ok_0.obj,
            ) == arch,
            Err(e) => r is Err && r->Err_0@ == e,
        },
{
    let ghost gp = view_procs(procs@);
    let ghost ge = exposed@;
    let ghost gi = inlined@;

    let mut o = obj_new(arch);
    let text_sec = obj_standard_section(&mut o, StdSec::Text);
    let data_sec = obj_standard_section(&mut o, StdSec::Data);
    let cname = comment_section_name();
    let comment_sec = obj_add_named_section(&mut o, &cname);
    let ghost tid = section_index(text_sec);
    let ghost did = section_index(data_sec);
    let ghost cid = section_index(comment_sec);
    proof {
        lemma_align_consts();
    }
    let _off0 = obj_append_section_data(&mut o, comment_sec, build_id, 1);
    proof {
        assert(obj_sec_bytes(o, cid) =~= build_id@);
        assert(raw_syms(pass1_syms(decls_upto(gp, ge, gi, 0)), tid, did)
            =~= Seq::<SymEntry>::empty());
    }

    // Declaration pass: one Text symbol per surviving procedure, created
    // before any byte is emitted so that emission order cannot matter.
    let mut decls: Vec<DeclRec> = Vec::new();
    let mut i: usize = 0;
    while i < procs.len()
        invariant
            i <= gp.len(),
            gp == view_procs(procs@),
            ge == exposed@,
            gi == inlined@,
            gp.len() == procs@.len(),
            procs_wf(gp),
            obj_arch(o) == arch,
            obj_num_sections(o) == 3,
            obj_std_sec(o, StdSec::Text) == Some(tid),
            obj_std_sec(o, StdSec::Data) == Some(did),
            tid == 0 && did == 1 && cid == 2,
            section_index(text_sec) == tid,
            section_index(data_sec) == did,
            section_index(comment_sec) == cid,
            obj_symbols(o) == raw_syms(pass1_syms(decls_upto(gp, ge, gi, i as int)), tid, did),
            forall|s: int| #[trigger] obj_relocs(o, s) == Seq::<RelocEntry>::empty(),
            obj_sec_bytes(o, tid) == Seq::<u8>::empty(),
            obj_sec_bytes(o, did) == Seq::<u8>::empty(),
            obj_sec_bytes(o, cid) == build_id@,
            decls@.len() == decls_upto(gp, ge, gi, i as int).len(),
            forall|k: int|
                0 <= k < decls@.len() ==> {
                    let dk = decls_upto(gp, ge, gi, i as int)[k];
                    &&& (#[trigger] decls@[k]).pi < i
                    &&& dk == decl_of_proc(gp, ge, gi, decls@[k].pi as int)
                    &&& decls@[k].name@ == dk.name
                    &&& symbol_index(decls@[k].sid) == k
                    &&& is_kept(gp[decls@[k].pi as int], gi)
                },
        decreases gp.len() - i,
    {
        proof {
            assert(gp[i as int] == procs@[i as int]@);
        }
        let ghost prev = decls_upto(gp, ge, gi, i as int);
        if !contains_u64(inlined, procs[i].sym) {
            let rank = count_prior(procs, inlined, i);
            let mangled = mangle_name(&procs[i].name, rank);
            let scope = if contains_u64(exposed, procs[i].sym) {
                SymScope::Dynamic
            } else {
                SymScope::Linkage
            };
            proof {
                assert(gp[i as int].name.len() > 0);
                assert(mangled@.len() > 0);
            }
            let sid = obj_add_symbol(&mut o, &mangled, SymKind::Text, scope, text_sec);
            decls.push(DeclRec { name: mangled, sid, pi: i });
            proof {
                let d = decl_of_proc(gp, ge, gi, i as int);
                assert(decls_upto(gp, ge, gi, i as int + 1) == prev.push(d));
                lemma_pass1_push(prev, d);
                lemma_raw_syms_push(pass1_syms(prev), decl_sym(d), tid, did);
                assert(raw_sym(decl_sym(d), tid, did) == (SymEntry {
                    name: d.name,
                    kind: SymKind::Text,
                    scope: d.scope,
                    section: tid,
                }));
            }
        } else {
            proof {
                assert(decls_upto(gp, ge, gi, i as int + 1) == prev);
            }
        }
        i = i + 1;
    }

    // Emission pass, mirrored step by step by the build model.
    let ghost ds = decls_upto(gp, ge, gi, gp.len() as int);
    let ghost st0 = EmitState {
        symbols: pass1_syms(ds),
        relocs: Seq::empty(),
        text: Seq::empty(),
        data: Seq::empty(),
    };
    let ghost mut st = st0;
    proof {
        assert(ds.skip(0) =~= ds);
        lemma_decls_demand_le(gp, ge, gi, gp.len() as int);
        assert(gp.take(gp.len() as int) =~= gp);
        assert(forall|j: int|
            0 <= j < ds.len() ==> #[trigger] st.symbols[j] == pass1_syms(ds)[j]);
    }
    let mut k: usize = 0;
    while k < decls.len()
        invariant
            k <= ds.len(),
            decls@.len() == ds.len(),
            gp == view_procs(procs@),
            ge == exposed@,
            gi == inlined@,
            gp.len() == procs@.len(),
            procs_wf(gp),
            ds == decls_upto(gp, ge, gi, gp.len() as int),
            st0 == (EmitState {
                symbols: pass1_syms(ds),
                relocs: Seq::<RelocEntry>::empty(),
                text: Seq::<u8>::empty(),
                data: Seq::<u8>::empty(),
            }),
            obj_arch(o) == arch,
            obj_num_sections(o) == 3,
            obj_std_sec(o, StdSec::Text) == Some(tid),
            obj_std_sec(o, StdSec::Data) == Some(did),
            tid == 0 && did == 1 && cid == 2,
            section_index(text_sec) == tid,
            section_index(data_sec) == did,
            section_index(comment_sec) == cid,
            obj_symbols(o) == raw_syms(st.symbols, tid, did),
            obj_relocs(o, tid) == st.relocs,
            forall|s: int| s != tid ==> #[trigger] obj_relocs(o, s) == Seq::<RelocEntry>::empty(),
            obj_sec_bytes(o, tid) == st.text,
            obj_sec_bytes(o, did) == st.data,
            obj_sec_bytes(o, cid) == build_id@,
            emit_decls(arch, st0, ds) == emit_decls(arch, st, ds.skip(k as int)),
            st.symbols.len() >= ds.len(),
            forall|j: int| 0 <= j < ds.len() ==> #[trigger] st.symbols[j] == pass1_syms(ds)[j],
            forall|j: int|
                0 <= j < st.relocs.len() ==> 0 <= (#[trigger] st.relocs[j]).symbol
                    < st.symbols.len(),
            st.text.len() + decls_text_demand(ds.skip(k as int)) <= max_section_len(),
            st.data.len() + decls_data_demand(ds.skip(k as int)) <= max_section_len(),
            forall|kk: int|
                0 <= kk < decls@.len() ==> {
                    let dk = ds[kk];
                    &&& (#[trigger] decls@[kk]).pi < gp.len()
                    &&& dk == decl_of_proc(gp, ge, gi, decls@[kk].pi as int)
                    &&& decls@[kk].name@ == dk.name
                    &&& symbol_index(decls@[kk].sid) == kk
                },
        decreases ds.len() - k,
    {
        let pi = decls[k].pi;
        let sid = decls[k].sid;
        let p = &procs[pi];
        let ghost d = ds[k as int];
        let ghost st_pre = st;
        proof {
            lemma_align_consts();
            lemma_skip_step(ds, k as int);
            lemma_decls_text_demand_nonneg(ds.skip(k as int + 1));
            lemma_decls_data_demand_nonneg(ds.skip(k as int + 1));
            lemma_reloc_data_demand_nonneg(d.relocs);
            assert(decls_text_demand(ds.skip(k as int)) == 16 + d.bytes.len()
                + decls_text_demand(ds.skip(k as int + 1)));
            assert(decls_data_demand(ds.skip(k as int)) == reloc_data_demand(d.relocs)
                + decls_data_demand(ds.skip(k as int + 1)));
            assert(gp[pi as int] == procs@[pi as int]@);
            assert(d.bytes == p@.bytes);
            assert(d.relocs == p@.relocs);
            assert(st.symbols[k as int] == pass1_syms(ds)[k as int]);
            assert(pass1_syms(ds)[k as int] == decl_sym(ds[k as int]));
        }
        let poff = obj_add_symbol_data(&mut o, sid, text_sec, &p.bytes, 16);
        proof {
            let upd = raw_syms(st_pre.symbols, tid, did).update(
                k as int,
                (SymEntry { section: tid, ..raw_syms(st_pre.symbols, tid, did)[k as int] }),
            );
            assert(raw_syms(st_pre.symbols, tid, did)[k as int] == raw_sym(
                st_pre.symbols[k as int],
                tid,
                did,
            ));
            assert(upd =~= raw_syms(st_pre.symbols, tid, did));
            st = EmitState {
                text: st.text + zero_bytes(poff as int - st.text.len()) + d.bytes,
                ..st
            };
            assert(obj_sec_bytes(o, tid) == st.text);
            assert(emit_decls(arch, st0, ds) == (match emit_relocs(
                arch,
                st,
                d.name,
                poff as int,
                0,
                d.relocs,
            ) {
                Ok(st2) => emit_decls(arch, st2, ds.skip(k as int + 1)),
                Err(e) => Err::<EmitState, BuildErrVal>(e),
            }));
            assert(d.relocs.skip(0) =~= d.relocs);
            assert(st_pre.text.len() % 16 < 16) by (nonlinear_arith);
            assert((16 - st_pre.text.len() % 16) % 16 < 16) by (nonlinear_arith);
            assert(poff as int <= st_pre.text.len() + 15);
            assert(poff as int + d.bytes.len() < max_section_len());
        }
        let mut ldi: u64 = 0;
        let mut j: usize = 0;
        while j < p.relocs.len()
            invariant
                j <= p.relocs@.len(),
                ldi <= j,
                gp == view_procs(procs@),
                ge == exposed@,
                gi == inlined@,
                gp.len() == procs@.len(),
                procs_wf(gp),
                ds == decls_upto(gp, ge, gi, gp.len() as int),
                st0 == (EmitState {
                    symbols: pass1_syms(ds),
                    relocs: Seq::<RelocEntry>::empty(),
                    text: Seq::<u8>::empty(),
                    data: Seq::<u8>::empty(),
                }),
                k < ds.len(),
                pi < gp.len(),
                d == ds[k as int],
                d == decl_of_proc(gp, ge, gi, pi as int),
                p == &procs[pi as int],
                d.bytes == p@.bytes,
                d.relocs == p@.relocs,
                d.relocs.len() == p.relocs@.len(),
                poff as int + d.bytes.len() < max_section_len(),
                obj_arch(o) == arch,
                obj_num_sections(o) == 3,
                obj_std_sec(o, StdSec::Text) == Some(tid),
                obj_std_sec(o, StdSec::Data) == Some(did),
                tid == 0 && did == 1 && cid == 2,
                section_index(text_sec) == tid,
                section_index(data_sec) == did,
                section_index(comment_sec) == cid,
                obj_symbols(o) == raw_syms(st.symbols, tid, did),
                obj_relocs(o, tid) == st.relocs,
                forall|s: int| s != tid ==> #[trigger] obj_relocs(o, s) == Seq::<
                    RelocEntry,
                >::empty(),
                obj_sec_bytes(o, tid) == st.text,
                obj_sec_bytes(o, did) == st.data,
                obj_sec_bytes(o, cid) == build_id@,
                emit_decls(arch, st0, ds) == (match emit_relocs(
                    arch,
                    st,
                    d.name,
                    poff as int,
                    ldi as nat,
                    d.relocs.skip(j as int),
                ) {
                    Ok(st2) => emit_decls(arch, st2, ds.skip(k as int + 1)),
                    Err(e) => Err::<EmitState, BuildErrVal>(e),
                }),
                st.symbols.len() >= ds.len(),
                forall|jj: int|
                    0 <= jj < ds.len() ==> #[trigger] st.symbols[jj] == pass1_syms(ds)[jj],
                forall|jj: int|
                    0 <= jj < st.relocs.len() ==> 0 <= (#[trigger] st.relocs[jj]).symbol
                        < st.symbols.len(),
                st.text.len() + decls_text_demand(ds.skip(k as int + 1)) <= max_section_len(),
                st.data.len() + reloc_data_demand(d.relocs.skip(j as int)) + decls_data_demand(
                    ds.skip(k as int + 1),
                ) <= max_section_len(),
                forall|kk: int|
                    0 <= kk < decls@.len() ==> {
                        let dk = ds[kk];
                        &&& (#[trigger] decls@[kk]).pi < gp.len()
                        &&& dk == decl_of_proc(gp, ge, gi, decls@[kk].pi as int)
                        &&& decls@[kk].name@ == dk.name
                        &&& symbol_index(decls@[kk].sid) == kk
                    },
                decls@.len() == ds.len(),
            decreases p.relocs@.len() - j,
        {
            proof {
                lemma_align_consts();
                lemma_decls_data_demand_nonneg(ds.skip(k as int + 1));
                lemma_skip_step(d.relocs, j as int);
                lemma_reloc_data_demand_nonneg(d.relocs.skip(j as int + 1));
                assert(d.relocs[j as int] == p.relocs@[j as int]@);
                assert(reloc_in_range(gp[pi as int].relocs[j as int], gp[pi as int].bytes.len() as int));
                assert(reloc_in_range(d.relocs[j as int], d.bytes.len() as int));
                assert(reloc_data_demand(d.relocs.skip(j as int)) == (match d.relocs[j as int] {
                    RelocVal::LocalData { data, .. } => 4 + data.len() as int,
                    _ => 0int,
                }) + reloc_data_demand(d.relocs.skip(j as int + 1)));
            }
            let ghost st_in = st;
            let ghost gldi = ldi as nat;
            match &p.relocs[j] {
                Relocation::LocalData { offset, data } => {
                    let dn = data_sym_name(&decls[k].name, ldi);
                    proof {
                        assert(dn@ == spec_data_sym_name(d.name, ldi as nat));
                        assert(dn@.len() > 0);
                    }
                    let dsid = obj_add_symbol(
                        &mut o,
                        &dn,
                        SymKind::Data,
                        SymScope::Compilation,
                        data_sec,
                    );
                    proof {
                        let a = AbsSym {
                            name: spec_data_sym_name(d.name, gldi),
                            kind: SymKind::Data,
                            scope: SymScope::Compilation,
                        };
                        lemma_raw_syms_push(st_in.symbols, a, tid, did);
                        assert(raw_sym(a, tid, did) == (SymEntry {
                            name: dn@,
                            kind: SymKind::Data,
                            scope: SymScope::Compilation,
                            section: did,
                        }));
                        st = EmitState { symbols: st_in.symbols.push(a), ..st_in };
                        assert(obj_symbols(o) == raw_syms(st.symbols, tid, did));
                    }
                    let doff = obj_add_symbol_data(&mut o, dsid, data_sec, data, 4);
                    proof {
                        let upd = raw_syms(st.symbols, tid, did).update(
                            symbol_index(dsid),
                            (SymEntry {
                                section: did,
                                ..raw_syms(st.symbols, tid, did)[symbol_index(dsid)]
                            }),
                        );
                        assert(raw_syms(st.symbols, tid, did)[symbol_index(dsid)] == raw_sym(
                            st.symbols[symbol_index(dsid)],
                            tid,
                            did,
                        ));
                        assert(upd =~= raw_syms(st.symbols, tid, did));
                        st = EmitState {
                            data: st.data + zero_bytes(doff as int - st.data.len()) + data@,
                            ..st
                        };
                        assert(obj_sec_bytes(o, did) == st.data);
                    }
                    let roff = *offset + poff;
                    let rr = obj_add_relocation(
                        &mut o,
                        text_sec,
                        roff,
                        32,
                        RelocKind::Relative,
                        dsid,
                        -4,
                    );
                    match rr {
                        Ok(()) => {
                            proof {
                                st = EmitState {
                                    relocs: st.relocs.push(
                                        (RelocEntry {
                                            offset: roff as int,
                                            size: 32,
                                            kind: RelocKind::Relative,
                                            symbol: symbol_index(dsid),
                                            addend: -4,
                                        }),
                                    ),
                                    ..st
                                };
                                assert(step_reloc(
                                    arch,
                                    st_in,
                                    d.name,
                                    poff as int,
                                    gldi,
                                    d.relocs[j as int],
                                ) == Ok::<(EmitState, nat), BuildErrVal>((st, gldi + 1)));
                            }
                            ldi = ldi + 1;
                        },
                        Err(_) => {
                            proof {
                                assert(reloc_accepted(arch, RelocKind::Relative));
                                assert(false);
                            }
                            return Err(BuildError::UnsupportedRelocation {
                                kind: RelocKind::Relative,
                            });
                        },
                    }
                },
                Relocation::LinkedData { offset, name } => {
                    let look = obj_symbol_id(&o, name);
                    proof {
                        lemma_find_last_map(st_in.symbols, tid, did, name@);
                        lemma_find_last_abs_bounds(st_in.symbols, name@);
                    }
                    match look {
                        None => {
                            proof {
                                assert(step_reloc(
                                    arch,
                                    st_in,
                                    d.name,
                                    poff as int,
                                    gldi,
                                    d.relocs[j as int],
                                ) == Err::<(EmitState, nat), BuildErrVal>(
                                    (BuildErrVal::UnresolvedSymbol { name: name@ }),
                                ));
                                assert(emit_relocs(
                                    arch,
                                    st_in,
                                    d.name,
                                    poff as int,
                                    gldi,
                                    d.relocs.skip(j as int),
                                ) == Err::<EmitState, BuildErrVal>(
                                    (BuildErrVal::UnresolvedSymbol { name: name@ }),
                                ));
                                assert(build_model(arch, gp, ge, gi, build_id@) == Err::<
                                    ObjModel,
                                    BuildErrVal,
                                >((BuildErrVal::UnresolvedSymbol { name: name@ })));
                            }
                            return Err(BuildError::UnresolvedSymbol { name: copy_bytes(name) });
                        },
                        Some(symid) => {
                            let roff = *offset + poff;
                            let rr = obj_add_relocation(
                                &mut o,
                                text_sec,
                                roff,
                                32,
                                RelocKind::GotRelative,
                                symid,
                                -4,
                            );
                            match rr {
                                Ok(()) => {
                                    proof {
                                        st = EmitState {
                                            relocs: st.relocs.push(
                                                (RelocEntry {
                                                    offset: roff as int,
                                                    size: 32,
                                                    kind: RelocKind::GotRelative,
                                                    symbol: symbol_index(symid),
                                                    addend: -4,
                                                }),
                                            ),
                                            ..st
                                        };
                                        assert(step_reloc(
                                            arch,
                                            st_in,
                                            d.name,
                                            poff as int,
                                            gldi,
                                            d.relocs[j as int],
                                        ) == Ok::<(EmitState, nat), BuildErrVal>((st, gldi)));
                                    }
                                },
                                Err(_) => {
                                    proof {
                                        assert(step_reloc(
                                            arch,
                                            st_in,
                                            d.name,
                                            poff as int,
                                            gldi,
                                            d.relocs[j as int],
                                        ) == Err::<(EmitState, nat), BuildErrVal>(
                                            (BuildErrVal::UnsupportedRelocation {
                                                kind: RelocKind::GotRelative,
                                            }),
                                        ));
                                    }
                                    return Err(BuildError::UnsupportedRelocation {
                                        kind: RelocKind::GotRelative,
                                    });
                                },
                            }
                        },
                    }
                },
                Relocation::LinkedFunction { offset, name } => {
                    let look = obj_symbol_id(&o, name);
                    proof {
                        lemma_find_last_map(st_in.symbols, tid, did, name@);
                        lemma_find_last_abs_bounds(st_in.symbols, name@);
                    }
                    match look {
                        None => {
                            proof {
                                assert(step_reloc(
                                    arch,
                                    st_in,
                                    d.name,
                                    poff as int,
                                    gldi,
                                    d.relocs[j as int],
                                ) == Err::<(EmitState, nat), BuildErrVal>(
                                    (BuildErrVal::UnresolvedSymbol { name: name@ }),
                                ));
                                assert(emit_relocs(
                                    arch,
                                    st_in,
                                    d.name,
                                    poff as int,
                                    gldi,
                                    d.relocs.skip(j as int),
                                ) == Err::<EmitState, BuildErrVal>(
                                    (BuildErrVal::UnresolvedSymbol { name: name@ }),
                                ));
                                assert(build_model(arch, gp, ge, gi, build_id@) == Err::<
                                    ObjModel,
                                    BuildErrVal,
                                >((BuildErrVal::UnresolvedSymbol { name: name@ })));
                            }
                            return Err(BuildError::UnresolvedSymbol { name: copy_bytes(name) });
                        },
                        Some(symid) => {
                            let roff = *offset + poff;
                            let rr = obj_add_relocation(
                                &mut o,
                                text_sec,
                                roff,
                                32,
                                RelocKind::PltRelative,
                                symid,
                                -4,
                            );
                            match rr {
                                Ok(()) => {
                                    proof {
                                        st = EmitState {
                                            relocs: st.relocs.push(
                                                (RelocEntry {
                                                    offset: roff as int,
                                                    size: 32,
                                                    kind: RelocKind::PltRelative,
                                                    symbol: symbol_index(symid),
                                                    addend: -4,
                                                }),
                                            ),
                                            ..st
                                        };
                                        assert(step_reloc(
                                            arch,
                                            st_in,
                                            d.name,
                                            poff as int,
                                            gldi,
                                            d.relocs[j as int],
                                        ) == Ok::<(EmitState, nat), BuildErrVal>((st, gldi)));
                                    }
                                },
                                Err(_) => {
                                    proof {
                                        assert(step_reloc(
                                            arch,
                                            st_in,
                                            d.name,
                                            poff as int,
                                            gldi,
                                            d.relocs[j as int],
                                        ) == Err::<(EmitState, nat), BuildErrVal>(
                                            (BuildErrVal::UnsupportedRelocation {
                                                kind: RelocKind::PltRelative,
                                            }),
                                        ));
                                    }
                                    return Err(BuildError::UnsupportedRelocation {
                                        kind: RelocKind::PltRelative,
                                    });
                                },
                            }
                        },
                    }
                },
            }
            j = j + 1;
        }
        proof {
            assert(d.relocs.skip(d.relocs.len() as int) =~= Seq::<RelocVal>::empty());
            assert(emit_relocs(arch, st, d.name, poff as int, ldi as nat, d.relocs.skip(
                j as int,
            )) == Ok::<EmitState, BuildErrVal>(st));
        }
        k = k + 1;
    }
    proof {
        assert(ds.skip(ds.len() as int) =~= Seq::<DeclVal>::empty());
        assert(emit_decls(arch, st, ds.skip(k as int)) == Ok::<EmitState, BuildErrVal>(st));
    }
    let built = BuiltObject { obj: o, text: text_sec, data: data_sec, comment: comment_sec };
    proof {
        let m = ObjModel {
            symbols: st.symbols,
            relocs: st.relocs,
            text: st.text,
            data: st.data,
            comment: build_id@,
        };
        assert(build_model(arch, gp, ge, gi, build_id@) == Ok::<ObjModel, BuildErrVal>(m));
        assert forall|jj: int| 0 <= jj < obj_symbols(built.obj).len() implies 0 <= (
        #[trigger] obj_symbols(built.obj)[jj]).section < obj_num_sections(built.obj) by {
            assert(obj_symbols(built.obj)[jj] == raw_sym(st.symbols[jj], tid, did));
        }
    }
    Ok(built)
}

/// The spine of the pipeline: picks the backend and container for the
/// target, then builds the object. An unsupported descriptor is reported,
/// never defaulted.
pub fn build_module(
    target: &TargetTriple,
    procs: &Vec<Proc>,
    exposed: &Vec<u64>,
    inlined: &Vec<u64>,
    build_id: &Vec<u8>,
) -> (r: Result<BuiltObject, BuildError>)
    requires
        procs_wf(view_procs(procs@)),
        decl_names_distinct(view_procs(procs@), inlined@),
        procs_text_demand(view_procs(procs@)) <= max_section_len(),
        procs_data_demand(view_procs(procs@)) <= max_section_len(),
        build_id@.len() + 1 <= max_section_len(),
    ensures
        !crate::target::target_supported(*target) ==> r is Err && r->Err_0@ == (
        BuildErrVal::UnsupportedTarget { target: *target }),
        crate::target::target_supported(*target) ==> (match build_model(
            arch_kind_of(*target),
            view_procs(procs@),
            exposed@,
            inlined@,
            build_id@,
        ) {
            Ok(m) => r is Ok && r->Ok_0.model_matches(m) && r->Ok_0.wf() && obj_arch(
                r->Ok_0.obj,
            ) == arch_kind_of(*target),
            Err(e) => r is Err && r->Err_0@ == e,
        }),
{
    match dispatch_target(target) {
        Ok(spec) => build_object(spec.arch, procs, exposed, inlined, build_id),
        Err(e) => Err(e),
    }
}

/// The architecture an object is built for, for a supported target.
pub open spec fn arch_kind_of(t: TargetTriple) -> ArchKind {
    if t.arch == crate::target::ArchDesc::X86_64 {
        ArchKind::X86_64
    } else {
        ArchKind::Aarch64
    }
}
} // verus!
