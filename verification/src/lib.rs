//! Building blocks of the backend of a native-code compiler.
//!
//! The heart of the library is the live range of an SSA value: where in a
//! function the value is live, kept as a short list of intervals over the
//! blocks of the function in program order. A register allocator asks it
//! whether two values are live at the same time.
//!
//! Around it stand the things that a backend is made of: entity references and
//! program points, the layout of a function, immediates and how they are
//! written and read, opcodes and instruction data, settings, the tables of
//! encodings, what is written to a code sink, rewrites that are made before
//! legalization, and the names of the functions and data of a module.

pub mod affinity;
pub mod binemit;
pub mod condcodes;
pub mod constant_hash;
pub mod enc_tables;
pub mod entity;
pub mod immediates;
pub mod instructions;
pub mod intel_binemit;
pub mod layout;
pub mod liverange;
pub mod liverange_table;
pub mod module;
pub mod operands;
pub mod progpoint;
pub mod riscv_settings;
pub mod runtime;
pub mod settings;
pub mod simple_gvn;
pub mod simple_preopt;
pub mod testfile;
pub mod text;
pub mod types;
