use vstd::prelude::*;

verus! {

/// Identifies one module of the graph.
#[derive(Debug, Clone, Copy, PartialEq, Eq, Hash, Structural)]
pub struct ModuleId(pub u32);

/// Identifies one chunk of the chunk graph.
#[derive(Debug, Clone, Copy, PartialEq, Eq, Hash, Structural)]
pub struct ChunkId(pub u32);

/// Identifies one import edge inside its module.
#[derive(Debug, Clone, Copy, PartialEq, Eq, Hash, Structural)]
pub struct ImportRecordId(pub u32);

/// One declared binding: the module that owns it and its index inside that
/// module. Unique across the whole graph.
#[derive(Debug, Clone, Copy, PartialEq, Eq, Hash, Structural)]
pub struct SymbolRef {
    pub owner: ModuleId,
    pub symbol: u32,
}

} // verus!
