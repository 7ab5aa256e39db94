//! Chunk assembly and linking for a JavaScript module bundler: import edges,
//! reachability-driven chunk partitioning, per-chunk canonical names,
//! cross-chunk import/export glue and the chunk render pipeline.

pub mod ids;
pub mod import_record;
pub mod bitset;
pub mod text;
pub mod chunk;
pub mod reach;
pub mod chunk_graph;
pub mod naming;
pub mod link;
pub mod sourcemap;
pub mod glue;
pub mod load;
pub mod render;
pub mod resolve;
pub mod laws;
