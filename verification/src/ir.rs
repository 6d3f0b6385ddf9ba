//! What the builder consumes: procedures already turned into machine code
//! by the per-architecture generator, each with the relocations its code
//! asks for.

use vstd::prelude::*;

verus! {

/// A relocation request attached to one procedure's bytes; `offset` is
/// relative to the start of those bytes.
pub enum Relocation {
    /// Private anonymous data only this procedure needs.
    LocalData { offset: u64, data: Vec<u8> },
    /// A reference to a named data symbol elsewhere in the object.
    LinkedData { offset: u64, name: Vec<u8> },
    /// A reference to a named function symbol elsewhere in the object.
    LinkedFunction { offset: u64, name: Vec<u8> },
}

/// The value of a `Relocation`, with byte strings as sequences.
pub ghost enum RelocVal {
    LocalData { offset: u64, data: Seq<u8> },
    LinkedData { offset: u64, name: Seq<u8> },
    LinkedFunction { offset: u64, name: Seq<u8> },
}

impl View for Relocation {
    type V = RelocVal;

    open spec fn view(&self) -> RelocVal {
        match self {
            Relocation::LocalData { offset, data } => (RelocVal::LocalData {
                offset: *offset,
                data: data@,
            }),
            Relocation::LinkedData { offset, name } => (RelocVal::LinkedData {
                offset: *offset,
                name: name@,
            }),
            Relocation::LinkedFunction { offset, name } => (RelocVal::LinkedFunction {
                offset: *offset,
                name: name@,
            }),
        }
    }
}

/// One compiled procedure: its identity — the source symbol, the layout
/// key of this monomorphized specialization, the source-level name — and
/// what the code generator returned for it.
pub struct Proc {
    pub sym: u64,
    pub layout: u64,
    pub name: Vec<u8>,
    pub bytes: Vec<u8>,
    pub relocs: Vec<Relocation>,
}

/// The value of a `Proc`.
pub ghost struct ProcVal {
    pub sym: u64,
    pub layout: u64,
    pub name: Seq<u8>,
    pub bytes: Seq<u8>,
    pub relocs: Seq<RelocVal>,
}

impl View for Proc {
    type V = ProcVal;

    open spec fn view(&self) -> ProcVal {
        ProcVal {
            sym: self.sym,
            layout: self.layout,
            name: self.name@,
            bytes: self.bytes@,
            relocs: self.relocs@.map_values(|r: Relocation| r@),
        }
    }
}

/// The values of a procedure list.
pub open spec fn view_procs(ps: Seq<Proc>) -> Seq<ProcVal> {
    ps.map_values(|p: Proc| p@)
}

} // verus!
