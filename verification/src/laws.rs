//! The properties the builder guarantees, each proved from `build_model`:
//! determinism, resolution of every relocation, exclusion of inlined
//! procedures from the symbol table, faithful reporting of unresolved
//! names, and success on resolvable input.

use vstd::prelude::*;
use crate::builder::{
    AbsSym,
    DeclVal,
    EmitState,
    ObjModel,
    build_model,
    decl_of_proc,
    decl_sym,
    decl_name,
    decl_names_distinct,
    decls_upto,
    emit_decls,
    emit_relocs,
    find_last_abs,
    is_kept,
    lemma_find_last_abs_bounds,
    pass1_syms,
    step_reloc,
};
use crate::errors::BuildErrVal;
use crate::ir::{ProcVal, RelocVal};
use crate::objfile::{ArchKind, RelocKind, SymKind, reloc_accepted};

verus! {

/// Whether some symbol of the list carries `name`.
pub open spec fn contains_sym_name(syms: Seq<AbsSym>, name: Seq<u8>) -> bool {
    exists|j: int| 0 <= j < syms.len() && (#[trigger] syms[j]).name == name
}

/// Whether the relocation links against the symbol named `name`.
pub open spec fn reloc_links_name(r: RelocVal, name: Seq<u8>) -> bool {
    match r {
        RelocVal::LocalData { .. } => false,
        RelocVal::LinkedData { name: n, .. } => n == name,
        RelocVal::LinkedFunction { name: n, .. } => n == name,
    }
}

/// Whether the emission of one relocation cannot fail against the symbols
/// `syms`: local data always can, a linked one when its name is declared
/// and the container accepts its kind on `arch`.
pub open spec fn reloc_resolvable(arch: ArchKind, syms: Seq<AbsSym>, r: RelocVal) -> bool {
    match r {
        RelocVal::LocalData { .. } => true,
        RelocVal::LinkedData { name, .. } => contains_sym_name(syms, name) && reloc_accepted(
            arch,
            RelocKind::GotRelative,
        ),
        RelocVal::LinkedFunction { name, .. } => contains_sym_name(syms, name) && reloc_accepted(
            arch,
            RelocKind::PltRelative,
        ),
    }
}

/// How many relocation records the declarations ask for in all.
pub open spec fn total_relocs(ds: Seq<DeclVal>) -> int
    decreases ds.len(),
{
    if ds.len() == 0 {
        0
    } else {
        ds[0].relocs.len() + total_relocs(ds.drop_first())
    }
}

proof fn lemma_emit_relocs_props(
    arch: ArchKind,
    st: EmitState,
    fname: Seq<u8>,
    poff: int,
    ldi: nat,
    rs: Seq<RelocVal>,
)
    ensures
        match emit_relocs(arch, st, fname, poff, ldi, rs) {
            Ok(st2) => {
                &&& st2.symbols.len() >= st.symbols.len()
                &&& forall|j: int|
                    0 <= j < st.symbols.len() ==> #[trigger] st2.symbols[j] == st.symbols[j]
                &&& forall|j: int|
                    st.symbols.len() <= j < st2.symbols.len() ==> (#[trigger] st2.symbols[j]).kind
                        == SymKind::Data
                &&& st2.relocs.len() == st.relocs.len() + rs.len()
                &&& (forall|j: int|
                    0 <= j < st.relocs.len() ==> 0 <= (#[trigger] st.relocs[j]).symbol
                        < st.symbols.len()) ==> (forall|j: int|
                    0 <= j < st2.relocs.len() ==> 0 <= (#[trigger] st2.relocs[j]).symbol
                        < st2.symbols.len())
            },
            Err(_) => true,
        },
    decreases rs.len(),
{
    if rs.len() > 0 {
        match rs[0] {
            RelocVal::LocalData { .. } => {
                let stp = step_reloc(arch, st, fname, poff, ldi, rs[0]);
                lemma_emit_relocs_props(
                    arch,
                    stp->Ok_0.0,
                    fname,
                    poff,
                    stp->Ok_0.1,
                    rs.drop_first(),
                );
            },
            RelocVal::LinkedData { name, .. } => {
                lemma_find_last_abs_bounds(st.symbols, name);
                match step_reloc(arch, st, fname, poff, ldi, rs[0]) {
                    Ok((st2, l2)) => {
                        lemma_emit_relocs_props(arch, st2, fname, poff, l2, rs.drop_first());
                    },
                    Err(_) => {},
                }
            },
            RelocVal::LinkedFunction { name, .. } => {
                lemma_find_last_abs_bounds(st.symbols, name);
                match step_reloc(arch, st, fname, poff, ldi, rs[0]) {
                    Ok((st2, l2)) => {
                        lemma_emit_relocs_props(arch, st2, fname, poff, l2, rs.drop_first());
                    },
                    Err(_) => {},
                }
            },
        }
    }
}

proof fn lemma_emit_decls_props(arch: ArchKind, st: EmitState, ds: Seq<DeclVal>)
    ensures
        match emit_decls(arch, st, ds) {
            Ok(st2) => {
                &&& st2.symbols.len() >= st.symbols.len()
                &&& forall|j: int|
                    0 <= j < st.symbols.len() ==> #[trigger] st2.symbols[j] == st.symbols[j]
                &&& forall|j: int|
                    st.symbols.len() <= j < st2.symbols.len() ==> (#[trigger] st2.symbols[j]).kind
                        == SymKind::Data
                &&& st2.relocs.len() == st.relocs.len() + total_relocs(ds)
                &&& (forall|j: int|
                    0 <= j < st.relocs.len() ==> 0 <= (#[trigger] st.relocs[j]).symbol
                        < st.symbols.len()) ==> (forall|j: int|
                    0 <= j < st2.relocs.len() ==> 0 <= (#[trigger] st2.relocs[j]).symbol
                        < st2.symbols.len())
            },
            Err(_) => true,
        },
    decreases ds.len(),
{
    if ds.len() > 0 {
        let d = ds[0];
        let poff = crate::objfile::align_up(st.text.len() as int, 16);
        let st1 = EmitState {
            text: st.text + crate::objfile::zero_bytes(poff - st.text.len()) + d.bytes,
            ..st
        };
        lemma_emit_relocs_props(arch, st1, d.name, poff, 0, d.relocs);
        match emit_relocs(arch, st1, d.name, poff, 0, d.relocs) {
            Ok(st2) => {
                lemma_emit_decls_props(arch, st2, ds.drop_first());
            },
            Err(_) => {},
        }
    }
}

proof fn lemma_decls_member(
    procs: Seq<ProcVal>,
    exposed: Seq<u64>,
    inlined: Seq<u64>,
    n: int,
    k: int,
)
    requires
        0 <= n <= procs.len(),
        0 <= k < decls_upto(procs, exposed, inlined, n).len(),
    ensures
        exists|i: int|
            0 <= i < n && is_kept(#[trigger] procs[i], inlined) && decls_upto(
                procs,
                exposed,
                inlined,
                n,
            )[k] == decl_of_proc(procs, exposed, inlined, i),
    decreases n,
{
    let prev = decls_upto(procs, exposed, inlined, n - 1);
    if is_kept(procs[n - 1], inlined) && k == prev.len() {
        assert(decls_upto(procs, exposed, inlined, n)[k] == decl_of_proc(
            procs,
            exposed,
            inlined,
            n - 1,
        ));
    } else {
        lemma_decls_member(procs, exposed, inlined, n - 1, k);
        let i = choose|i: int|
            0 <= i < n - 1 && is_kept(#[trigger] procs[i], inlined) && prev[k] == decl_of_proc(
                procs,
                exposed,
                inlined,
                i,
            );
        assert(decls_upto(procs, exposed, inlined, n)[k] == prev[k]);
        assert(is_kept(procs[i], inlined));
    }
}

/// Determinism: what is built is a function of the procedure list, the
/// exposure set, the inlined set, the build identifier and the
/// architecture, and of nothing else — two successful builds from the
/// same inputs describe identical objects.
pub proof fn lemma_build_deterministic(
    arch: ArchKind,
    procs: Seq<ProcVal>,
    exposed: Seq<u64>,
    inlined: Seq<u64>,
    build_id: Seq<u8>,
    m1: ObjModel,
    m2: ObjModel,
)
    requires
        build_model(arch, procs, exposed, inlined, build_id) == Ok::<ObjModel, BuildErrVal>(m1),
        build_model(arch, procs, exposed, inlined, build_id) == Ok::<ObjModel, BuildErrVal>(m2),
    ensures
        m1 == m2,
{
}

/// Resolution: in a successfully built object, every relocation record
/// references a symbol that exists in the symbol table.
pub proof fn lemma_relocs_resolve(
    arch: ArchKind,
    procs: Seq<ProcVal>,
    exposed: Seq<u64>,
    inlined: Seq<u64>,
    build_id: Seq<u8>,
    m: ObjModel,
)
    requires
        build_model(arch, procs, exposed, inlined, build_id) == Ok::<ObjModel, BuildErrVal>(m),
    ensures
        forall|j: int|
            0 <= j < m.relocs.len() ==> 0 <= (#[trigger] m.relocs[j]).symbol < m.symbols.len(),
{
    let ds = decls_upto(procs, exposed, inlined, procs.len() as int);
    let st0 = EmitState {
        symbols: pass1_syms(ds),
        relocs: Seq::empty(),
        text: Seq::empty(),
        data: Seq::empty(),
    };
    lemma_emit_decls_props(arch, st0, ds);
}

/// How many relocations the surviving procedures carry in all.
pub open spec fn kept_relocs_total(procs: Seq<ProcVal>, inlined: Seq<u64>) -> int
    decreases procs.len(),
{
    if procs.len() == 0 {
        0
    } else {
        kept_relocs_total(procs.drop_last(), inlined) + if is_kept(procs.last(), inlined) {
            procs.last().relocs.len() as int
        } else {
            0int
        }
    }
}

proof fn lemma_total_relocs_push(ds: Seq<DeclVal>, d: DeclVal)
    ensures
        total_relocs(ds.push(d)) == total_relocs(ds) + d.relocs.len(),
    decreases ds.len(),
{
    if ds.len() == 0 {
        assert(ds.push(d).drop_first() =~= Seq::<DeclVal>::empty());
        assert(ds.push(d)[0] == d);
        assert(total_relocs(ds.push(d).drop_first()) == 0);
    } else {
        assert(ds.push(d).drop_first() =~= ds.drop_first().push(d));
        assert(ds.push(d)[0] == ds[0]);
        lemma_total_relocs_push(ds.drop_first(), d);
    }
}

proof fn lemma_decls_relocs_total(
    procs: Seq<ProcVal>,
    exposed: Seq<u64>,
    inlined: Seq<u64>,
    i: int,
)
    requires
        0 <= i <= procs.len(),
    ensures
        total_relocs(decls_upto(procs, exposed, inlined, i)) == kept_relocs_total(
            procs.take(i),
            inlined,
        ),
    decreases i,
{
    if i == 0 {
        assert(procs.take(0) =~= Seq::<ProcVal>::empty());
    } else {
        lemma_decls_relocs_total(procs, exposed, inlined, i - 1);
        assert(procs.take(i).drop_last() =~= procs.take(i - 1));
        assert(procs.take(i).last() == procs[i - 1]);
        if is_kept(procs[i - 1], inlined) {
            lemma_total_relocs_push(
                decls_upto(procs, exposed, inlined, i - 1),
                decl_of_proc(procs, exposed, inlined, i - 1),
            );
        }
    }
}

/// No silently dropped relocation: a successful build emits exactly one
/// record for every relocation of every surviving procedure.
pub proof fn lemma_no_relocation_dropped(
    arch: ArchKind,
    procs: Seq<ProcVal>,
    exposed: Seq<u64>,
    inlined: Seq<u64>,
    build_id: Seq<u8>,
    m: ObjModel,
)
    requires
        build_model(arch, procs, exposed, inlined, build_id) == Ok::<ObjModel, BuildErrVal>(m),
    ensures
        m.relocs.len() == kept_relocs_total(procs, inlined),
{
    lemma_decls_relocs_total(procs, exposed, inlined, procs.len() as int);
    assert(procs.take(procs.len() as int) =~= procs);
    let ds = decls_upto(procs, exposed, inlined, procs.len() as int);
    let st0 = EmitState {
        symbols: pass1_syms(ds),
        relocs: Seq::empty(),
        text: Seq::empty(),
        data: Seq::empty(),
    };
    lemma_emit_decls_props(arch, st0, ds);
}

/// Exclusion of inlined procedures: every Text symbol of a built object
/// is the declared symbol of a procedure outside the inlined set; a
/// procedure whose symbol the inlined set holds contributes no Text
/// symbol.
pub proof fn lemma_no_inlined_text_symbol(
    arch: ArchKind,
    procs: Seq<ProcVal>,
    exposed: Seq<u64>,
    inlined: Seq<u64>,
    build_id: Seq<u8>,
    m: ObjModel,
    j: int,
)
    requires
        build_model(arch, procs, exposed, inlined, build_id) == Ok::<ObjModel, BuildErrVal>(m),
        0 <= j < m.symbols.len(),
        m.symbols[j].kind == SymKind::Text,
    ensures
        exists|i: int|
            0 <= i < procs.len() && is_kept(#[trigger] procs[i], inlined) && m.symbols[j]
                == decl_sym(decl_of_proc(procs, exposed, inlined, i)),
{
    let ds = decls_upto(procs, exposed, inlined, procs.len() as int);
    let st0 = EmitState {
        symbols: pass1_syms(ds),
        relocs: Seq::empty(),
        text: Seq::empty(),
        data: Seq::empty(),
    };
    lemma_emit_decls_props(arch, st0, ds);
    assert(j < ds.len());
    assert(m.symbols[j] == pass1_syms(ds)[j]);
    assert(pass1_syms(ds)[j] == decl_sym(ds[j]));
    lemma_decls_member(procs, exposed, inlined, procs.len() as int, j);
}

proof fn lemma_contains_monotone(s1: Seq<AbsSym>, s2: Seq<AbsSym>, name: Seq<u8>)
    requires
        s2.len() >= s1.len(),
        forall|j: int| 0 <= j < s1.len() ==> #[trigger] s2[j] == s1[j],
        contains_sym_name(s1, name),
    ensures
        contains_sym_name(s2, name),
{
    let i = choose|i: int| 0 <= i < s1.len() && (#[trigger] s1[i]).name == name;
    assert(s2[i].name == name);
}

proof fn lemma_emit_relocs_unresolved(
    arch: ArchKind,
    st: EmitState,
    fname: Seq<u8>,
    poff: int,
    ldi: nat,
    rs: Seq<RelocVal>,
    name: Seq<u8>,
)
    requires
        emit_relocs(arch, st, fname, poff, ldi, rs) == Err::<EmitState, BuildErrVal>(
            (BuildErrVal::UnresolvedSymbol { name }),
        ),
    ensures
        exists|j: int| 0 <= j < rs.len() && reloc_links_name(#[trigger] rs[j], name),
        !contains_sym_name(st.symbols, name),
    decreases rs.len(),
{
    match step_reloc(arch, st, fname, poff, ldi, rs[0]) {
        Ok((st2, l2)) => {
            lemma_emit_relocs_unresolved(arch, st2, fname, poff, l2, rs.drop_first(), name);
            let j = choose|j: int|
                0 <= j < rs.drop_first().len() && reloc_links_name(
                    #[trigger] rs.drop_first()[j],
                    name,
                );
            assert(rs.drop_first()[j] == rs[j + 1]);
            assert(reloc_links_name(rs[j + 1], name));
            if contains_sym_name(st.symbols, name) {
                let i = choose|i: int|
                    0 <= i < st.symbols.len() && (#[trigger] st.symbols[i]).name == name;
                match rs[0] {
                    RelocVal::LocalData { .. } => {
                        assert(st2.symbols[i] == st.symbols[i]);
                    },
                    RelocVal::LinkedData { .. } => {
                        assert(st2.symbols == st.symbols);
                    },
                    RelocVal::LinkedFunction { .. } => {
                        assert(st2.symbols == st.symbols);
                    },
                }
                assert(contains_sym_name(st2.symbols, name));
                assert(false);
            }
        },
        Err(_) => {
            match rs[0] {
                RelocVal::LocalData { .. } => {
                    assert(false);
                },
                RelocVal::LinkedData { name: n, .. } => {
                    lemma_find_last_abs_bounds(st.symbols, n);
                    assert(reloc_links_name(rs[0], name));
                },
                RelocVal::LinkedFunction { name: n, .. } => {
                    lemma_find_last_abs_bounds(st.symbols, n);
                    assert(reloc_links_name(rs[0], name));
                },
            }
        },
    }
}

proof fn lemma_emit_decls_unresolved(
    arch: ArchKind,
    st: EmitState,
    ds: Seq<DeclVal>,
    name: Seq<u8>,
)
    requires
        emit_decls(arch, st, ds) == Err::<EmitState, BuildErrVal>(
            (BuildErrVal::UnresolvedSymbol { name }),
        ),
    ensures
        exists|k: int, j: int|
            #![trigger ds[k].relocs[j]]
            0 <= k < ds.len() && 0 <= j < ds[k].relocs.len() && reloc_links_name(
                ds[k].relocs[j],
                name,
            ),
        !contains_sym_name(st.symbols, name),
    decreases ds.len(),
{
    let d = ds[0];
    let poff = crate::objfile::align_up(st.text.len() as int, 16);
    let st1 = EmitState {
        text: st.text + crate::objfile::zero_bytes(poff - st.text.len()) + d.bytes,
        ..st
    };
    match emit_relocs(arch, st1, d.name, poff, 0, d.relocs) {
        Ok(st2) => {
            lemma_emit_relocs_props(arch, st1, d.name, poff, 0, d.relocs);
            lemma_emit_decls_unresolved(arch, st2, ds.drop_first(), name);
            let (k, j) = choose|k: int, j: int|
                #![trigger ds.drop_first()[k].relocs[j]]
                0 <= k < ds.drop_first().len() && 0 <= j < ds.drop_first()[k].relocs.len()
                    && reloc_links_name(ds.drop_first()[k].relocs[j], name);
            assert(ds.drop_first()[k] == ds[k + 1]);
            assert(reloc_links_name(ds[k + 1].relocs[j], name));
            if contains_sym_name(st.symbols, name) {
                lemma_contains_monotone(st1.symbols, st2.symbols, name);
                assert(false);
            }
        },
        Err(_) => {
            lemma_emit_relocs_unresolved(arch, st1, d.name, poff, 0, d.relocs, name);
            let j = choose|j: int|
                0 <= j < d.relocs.len() && reloc_links_name(#[trigger] d.relocs[j], name);
            assert(reloc_links_name(ds[0].relocs[j], name));
        },
    }
}

/// Faithful reporting: when the build stops with an unresolved-symbol
/// error, the name it reports is one that a linked relocation of a
/// surviving procedure asks for, and no declared Text symbol carries it —
/// a dangling relocation is reported, never silently dropped.
pub proof fn lemma_unresolved_names_missing(
    arch: ArchKind,
    procs: Seq<ProcVal>,
    exposed: Seq<u64>,
    inlined: Seq<u64>,
    build_id: Seq<u8>,
    name: Seq<u8>,
)
    requires
        build_model(arch, procs, exposed, inlined, build_id) == Err::<ObjModel, BuildErrVal>(
            (BuildErrVal::UnresolvedSymbol { name }),
        ),
    ensures
        exists|i: int, j: int|
            #![trigger procs[i].relocs[j]]
            0 <= i < procs.len() && is_kept(procs[i], inlined) && 0 <= j < procs[i].relocs.len()
                && reloc_links_name(procs[i].relocs[j], name),
        forall|k: int|
            0 <= k < decls_upto(procs, exposed, inlined, procs.len() as int).len()
                ==> (#[trigger] decls_upto(procs, exposed, inlined, procs.len() as int)[k]).name
                != name,
{
    let ds = decls_upto(procs, exposed, inlined, procs.len() as int);
    let st0 = EmitState {
        symbols: pass1_syms(ds),
        relocs: Seq::empty(),
        text: Seq::empty(),
        data: Seq::empty(),
    };
    lemma_emit_decls_unresolved(arch, st0, ds, name);
    let (k, j) = choose|k: int, j: int|
        #![trigger ds[k].relocs[j]]
        0 <= k < ds.len() && 0 <= j < ds[k].relocs.len() && reloc_links_name(
            ds[k].relocs[j],
            name,
        );
    lemma_decls_member(procs, exposed, inlined, procs.len() as int, k);
    let i = choose|i: int|
        0 <= i < procs.len() && is_kept(#[trigger] procs[i], inlined) && ds[k] == decl_of_proc(
            procs,
            exposed,
            inlined,
            i,
        );
    assert(procs[i].relocs == ds[k].relocs);
    assert(reloc_links_name(procs[i].relocs[j], name));
    assert forall|kk: int| 0 <= kk < ds.len() implies (#[trigger] ds[kk]).name != name by {
        assert(pass1_syms(ds)[kk] == decl_sym(ds[kk]));
        assert(st0.symbols[kk].name == ds[kk].name);
    }
}

proof fn lemma_emit_relocs_ok(
    arch: ArchKind,
    st: EmitState,
    fname: Seq<u8>,
    poff: int,
    ldi: nat,
    rs: Seq<RelocVal>,
)
    requires
        forall|j: int| 0 <= j < rs.len() ==> reloc_resolvable(arch, st.symbols, #[trigger] rs[j]),
    ensures
        emit_relocs(arch, st, fname, poff, ldi, rs) is Ok,
    decreases rs.len(),
{
    if rs.len() > 0 {
        let step = step_reloc(arch, st, fname, poff, ldi, rs[0]);
        match rs[0] {
            RelocVal::LocalData { .. } => {},
            RelocVal::LinkedData { name, .. } => {
                lemma_find_last_abs_bounds(st.symbols, name);
                assert(reloc_resolvable(arch, st.symbols, rs[0]));
                let i = choose|i: int|
                    0 <= i < st.symbols.len() && (#[trigger] st.symbols[i]).name == name;
                assert(find_last_abs(st.symbols, name) is Some);
            },
            RelocVal::LinkedFunction { name, .. } => {
                lemma_find_last_abs_bounds(st.symbols, name);
                assert(reloc_resolvable(arch, st.symbols, rs[0]));
                let i = choose|i: int|
                    0 <= i < st.symbols.len() && (#[trigger] st.symbols[i]).name == name;
                assert(find_last_abs(st.symbols, name) is Some);
            },
        }
        let st2 = step->Ok_0.0;
        assert forall|j: int|
            0 <= j < rs.drop_first().len() implies reloc_resolvable(
            arch,
            st2.symbols,
            #[trigger] rs.drop_first()[j],
        ) by {
            assert(rs.drop_first()[j] == rs[j + 1]);
            assert(reloc_resolvable(arch, st.symbols, rs[j + 1]));
            match rs[j + 1] {
                RelocVal::LocalData { .. } => {},
                RelocVal::LinkedData { name, .. } => {
                    lemma_contains_monotone(st.symbols, st2.symbols, name);
                },
                RelocVal::LinkedFunction { name, .. } => {
                    lemma_contains_monotone(st.symbols, st2.symbols, name);
                },
            }
        }
        lemma_emit_relocs_ok(arch, st2, fname, poff, step->Ok_0.1, rs.drop_first());
    }
}

proof fn lemma_emit_decls_ok(arch: ArchKind, st: EmitState, ds: Seq<DeclVal>)
    requires
        forall|k: int, j: int|
            #![trigger ds[k].relocs[j]]
            0 <= k < ds.len() && 0 <= j < ds[k].relocs.len() ==> reloc_resolvable(
                arch,
                st.symbols,
                ds[k].relocs[j],
            ),
    ensures
        emit_decls(arch, st, ds) is Ok,
    decreases ds.len(),
{
    if ds.len() > 0 {
        let d = ds[0];
        let poff = crate::objfile::align_up(st.text.len() as int, 16);
        let st1 = EmitState {
            text: st.text + crate::objfile::zero_bytes(poff - st.text.len()) + d.bytes,
            ..st
        };
        lemma_emit_relocs_ok(arch, st1, d.name, poff, 0, d.relocs);
        lemma_emit_relocs_props(arch, st1, d.name, poff, 0, d.relocs);
        let st2 = emit_relocs(arch, st1, d.name, poff, 0, d.relocs)->Ok_0;
        assert forall|k: int, j: int|
            #![trigger ds.drop_first()[k].relocs[j]]
            0 <= k < ds.drop_first().len() && 0 <= j < ds.drop_first()[k].relocs.len()
                implies reloc_resolvable(arch, st2.symbols, ds.drop_first()[k].relocs[j]) by {
            assert(ds.drop_first()[k] == ds[k + 1]);
            assert(reloc_resolvable(arch, st.symbols, ds[k + 1].relocs[j]));
            match ds[k + 1].relocs[j] {
                RelocVal::LocalData { .. } => {},
                RelocVal::LinkedData { name, .. } => {
                    lemma_contains_monotone(st1.symbols, st2.symbols, name);
                },
                RelocVal::LinkedFunction { name, .. } => {
                    lemma_contains_monotone(st1.symbols, st2.symbols, name);
                },
            }
        }
        lemma_emit_decls_ok(arch, st2, ds.drop_first());
    }
}

/// Success on the supported matrix: when every linked relocation of a
/// surviving procedure names a declared Text symbol and uses a kind the
/// architecture's container accepts, the build succeeds and yields an
/// object.
pub proof fn lemma_build_succeeds(
    arch: ArchKind,
    procs: Seq<ProcVal>,
    exposed: Seq<u64>,
    inlined: Seq<u64>,
    build_id: Seq<u8>,
)
    requires
        forall|i: int, j: int|
            #![trigger procs[i].relocs[j]]
            0 <= i < procs.len() && is_kept(procs[i], inlined) && 0 <= j < procs[i].relocs.len()
                ==> reloc_resolvable(
                arch,
                pass1_syms(decls_upto(procs, exposed, inlined, procs.len() as int)),
                procs[i].relocs[j],
            ),
    ensures
        build_model(arch, procs, exposed, inlined, build_id) is Ok,
{
    let ds = decls_upto(procs, exposed, inlined, procs.len() as int);
    let st0 = EmitState {
        symbols: pass1_syms(ds),
        relocs: Seq::empty(),
        text: Seq::empty(),
        data: Seq::empty(),
    };
    assert forall|k: int, j: int|
        #![trigger ds[k].relocs[j]]
        0 <= k < ds.len() && 0 <= j < ds[k].relocs.len() implies reloc_resolvable(
        arch,
        st0.symbols,
        ds[k].relocs[j],
    ) by {
        lemma_decls_member(procs, exposed, inlined, procs.len() as int, k);
        let i = choose|i: int|
            0 <= i < procs.len() && is_kept(#[trigger] procs[i], inlined) && ds[k] == decl_of_proc(
                procs,
                exposed,
                inlined,
                i,
            );
        assert(ds[k].relocs == procs[i].relocs);
        assert(reloc_resolvable(arch, pass1_syms(ds), procs[i].relocs[j]));
    }
    lemma_emit_decls_ok(arch, st0, ds);
}
/// Unique declared names: when no two surviving procedures share a mangled
/// name, the declaration pass declares pairwise-distinct Text-symbol
/// names, so every linked relocation binds unambiguously.
pub proof fn lemma_declared_names_distinct(
    procs: Seq<ProcVal>,
    exposed: Seq<u64>,
    inlined: Seq<u64>,
    n: int,
)
    requires
        decl_names_distinct(procs, inlined),
        0 <= n <= procs.len(),
    ensures
        forall|k1: int, k2: int|
            #![trigger decls_upto(procs, exposed, inlined, n)[k1], decls_upto(procs, exposed, inlined, n)[k2]]
            0 <= k1 < k2 < decls_upto(procs, exposed, inlined, n).len() ==> decls_upto(
                procs,
                exposed,
                inlined,
                n,
            )[k1].name != decls_upto(procs, exposed, inlined, n)[k2].name,
    decreases n,
{
    if n > 0 {
        lemma_declared_names_distinct(procs, exposed, inlined, n - 1);
        let prev = decls_upto(procs, exposed, inlined, n - 1);
        if is_kept(procs[n - 1], inlined) {
            assert forall|k: int| 0 <= k < prev.len() implies (#[trigger] prev[k]).name
                != decl_name(procs, inlined, n - 1) by {
                lemma_decls_member(procs, exposed, inlined, n - 1, k);
                let i = choose|i: int|
                    0 <= i < n - 1 && is_kept(#[trigger] procs[i], inlined) && prev[k]
                        == decl_of_proc(procs, exposed, inlined, i);
                assert(decl_name(procs, inlined, i) != decl_name(procs, inlined, n - 1));
            }
            assert(forall|k: int|
                0 <= k < prev.len() ==> #[trigger] decls_upto(procs, exposed, inlined, n)[k]
                    == prev[k]);
        }
    }
}
} // verus!
