//! The fixed scaffold of placeholder declarations that every generated
//! program is prefixed with, so that rewritten lines can refer to domain
//! identifiers that are guaranteed to exist in the generated source.

use vstd::prelude::*;

verus! {

/// The scaffold text itself: warning suppressions, placeholder domain
/// types, an error type with a kind enumeration, a dependency type with a
/// source-kind enumeration, minimal constructors, and a filesystem shim
/// that always reports a path as present.  It is emitted verbatim at the
/// start of every generated program and is never parsed or validated here.
pub const SCAFFOLD_TEXT: &'static str = "
#![allow(unused_imports)]
#![allow(dead_code)]

use std::error::Error;
use std::result::Result;
use std::path::PathBuf;
use std::collections::HashMap;

// Mock types for compilation
pub struct Project {
    pub testing: Testing,
    pub docs: Documentation,
    pub dependencies: Vec<Dependency>,
}

pub struct Testing {
    pub enabled: bool,
}

pub struct Documentation {
    pub generate: bool,
}

pub struct Target;
pub struct BuildConfig;
pub struct State;
pub struct SafetyBounds;
pub struct QuantumState;
pub struct Quantum;
pub struct Neural;
pub struct Safety;
pub struct Memory;
pub struct Consciousness;
pub struct Cognition;
pub struct Reasoning;
pub struct Input;
pub struct Output;
pub struct TrainingData;

#[derive(Debug)]
pub struct Error {
    kind: ErrorKind,
    message: String,
    source: Option<Box<dyn Error>>,
}

#[derive(Debug)]
pub enum ErrorKind {
    BuildError,
    CompileError,
    RuntimeError,
}

pub struct Dependency {
    pub source: DependencySource,
}

pub enum DependencySource {
    Registry,
    Git,
    Local,
}

// Mock implementations
impl Project {
    pub fn from_file(_: &str) -> Result<Self, Error> {
        Ok(Project {
            testing: Testing { enabled: true },
            docs: Documentation { generate: true },
            dependencies: Vec::new(),
        })
    }
}

impl Target {
    pub const LLVM: Self = Target;
}

impl Error {
    pub fn new(kind: ErrorKind, message: String, source: Option<Box<dyn Error>>) -> Self {
        Error { kind, message, source }
    }
}

mod std {
    pub mod fs {
        pub fn exists(_: &str) -> bool {
            true
        }
    }
}

";

/// The scaffold as a sequence of characters: the form the translation
/// contracts speak of.
pub open spec fn scaffold_chars() -> Seq<char> {
    SCAFFOLD_TEXT@
}

/// The scaffold text, for callers outside the crate.
pub fn scaffold_text() -> (r: &'static str)
    ensures
        r@ == scaffold_chars(),
{
    SCAFFOLD_TEXT
}

} // verus!
