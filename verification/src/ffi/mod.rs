pub use ffi_helpers::FFITriple;

pub mod ffi_helpers;
