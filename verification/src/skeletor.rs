use vstd::prelude::*;

verus! {

/// How a generated crate lays out its modules: `mod.rs` files or `module.rs` files.
#[derive(Debug, Clone, Copy, PartialEq, Eq, Structural)]
pub enum Style {
    Mod,
    Module,
}

/// What can go wrong when a crate is generated.
#[derive(Debug, Clone, Copy, PartialEq, Eq, Structural)]
pub enum Error {
    Codegen,
    Cargo,
    Path,
}

impl Error {
    /// The message of the error.
    pub open spec fn spec_message(self) -> Seq<char> {
        match self {
            Error::Codegen => "unable to generate code"@,
            Error::Cargo => "cargo error"@,
            Error::Path => "path error"@,
        }
    }

    /// The message of the error.
    pub fn message(&self) -> (r: &'static str)
        ensures
            r@ == self.spec_message(),
    {
        match self {
            Error::Codegen => "unable to generate code",
            Error::Cargo => "cargo error",
            Error::Path => "path error",
        }
    }
}

} // verus!
