//! Backend core for lowering a typed, control-flow-graph IR into a
//! CLR-style stack-machine instruction sequence, together with the
//! auxiliary value-type definitions that target requires for arrays,
//! slices and structs.

pub mod strutil;
pub mod ir;
pub mod ty;
pub mod cil;
pub mod assembly;
pub mod place;
