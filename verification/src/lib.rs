//! Verified core of the unity_dlp native plugin: the decisions behind its C ABI
//! (initialisation lifecycle, error slot, output-buffer protocol), the
//! extraction error model, the packages-path parser, the JS evaluation
//! wrapper, and the logic of the command-line tool and the load checker.

pub mod cli;
pub mod extract;
pub mod ffi;
pub mod jsc_provider;
pub mod loadcheck;
pub mod logging;
pub mod python_host;
pub mod text;
