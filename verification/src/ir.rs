//! A small intermediate representation in the manner of C: functions,
//! structs and modules, and the artifact that is built from them.

use vstd::prelude::*;

verus! {

/// The various primitive types that must be supported.
#[derive(Clone, Copy, Debug, PartialEq, Eq, Structural)]
pub enum PrimitiveType {
    EggBool,
    EggI32,
}

impl PrimitiveType {
    /// The name of the type.
    pub open spec fn name(self) -> Seq<char> {
        match self {
            PrimitiveType::EggBool => "EggBool"@,
            PrimitiveType::EggI32 => "EggI32"@,
        }
    }

    /// The name of the type.
    pub fn to_string(&self) -> (r: String)
        ensures
            r@ == self.name(),
    {
        match self {
            PrimitiveType::EggBool => String::from_str("EggBool"),
            PrimitiveType::EggI32 => String::from_str("EggI32"),
        }
    }
}

/// A named member of a struct, or a parameter of a function.
#[derive(Clone, Debug, PartialEq)]
pub struct Property {
    pub name: String,
    pub t: PrimitiveType,
}

/// A function: its name, its parameters and what it returns.
#[derive(Clone, Debug, PartialEq)]
pub struct Func {
    pub name: String,
    pub properties: Vec<Property>,
    pub return_type: PrimitiveType,
}

/// A struct: its name and its members.
#[derive(Clone, Debug, PartialEq)]
pub struct Struct {
    pub name: String,
    pub properties: Vec<Property>,
}

/// One file's worth of functions and structs, and the files it includes.
#[derive(Clone, Debug, PartialEq)]
pub struct Module {
    pub file_name: String,
    pub funcs: Vec<Func>,
    pub includes: Vec<String>,
    pub structs: Vec<Struct>,
}

/// A library. Nothing is said of it yet.
#[derive(Clone, Debug, PartialEq)]
pub struct Library {}

/// A program: the file it is built into and the module it starts in.
#[derive(Clone, Debug, PartialEq)]
pub struct Executable {
    pub file_name: String,
    pub main_module: Module,
}

/// What kind of artifact is built.
#[derive(Clone, Debug, PartialEq)]
pub enum ArtifactType {
    Executable(Executable),
    Library(Library),
}

/// The core representation of the artifact that will be built.
#[derive(Clone, Debug, PartialEq)]
pub struct Artifact {
    pub artifact_type: ArtifactType,
}

} // verus!
