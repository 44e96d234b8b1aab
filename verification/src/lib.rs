//! The logic of a C++ vtable dumper and tracer for 64-bit Windows processes.

pub mod address;
pub mod address_laws;
pub mod context;
pub mod context_laws;
pub mod course_laws;
pub mod dump;
pub mod dump_laws;
pub mod memory;
pub mod modules;
pub mod modules_laws;
pub mod report;
pub mod report_laws;
pub mod session;
pub mod session_laws;
pub mod text;
pub mod text_laws;
pub mod trace;
pub mod trace_laws;
pub mod utf16;
pub mod utf16_laws;
