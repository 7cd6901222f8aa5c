//! The parse result handed over by the C-front-end collaborator: function
//! and struct declarations of one translation unit, as plain strings.

use vstd::prelude::*;

verus! {

/// One formal argument of a declared function.
///
/// `name` is absent when the front end could not resolve it; a method built
/// from such an argument is skipped by the synthesizer. `pretty_text` is the
/// argument as the front end prints it (type and name together), used
/// verbatim in generated parameter lists.
pub struct Argument {
    pub name: Option<String>,
    pub type_text: String,
    pub pretty_text: String,
}

/// The mathematical model of an [`Argument`].
pub struct ArgumentView {
    pub name: Option<Seq<char>>,
    pub type_text: Seq<char>,
    pub pretty_text: Seq<char>,
}

impl View for Argument {
    type V = ArgumentView;

    open spec fn view(&self) -> ArgumentView {
        ArgumentView {
            name: match self.name {
                Some(n) => Some(n@),
                None => None,
            },
            type_text: self.type_text@,
            pretty_text: self.pretty_text@,
        }
    }
}

/// One declared function. `return_type_text` is absent when the front end
/// could not resolve the result type; such a function synthesizes nothing.
pub struct FunctionDecl {
    pub name: String,
    pub arguments: Vec<Argument>,
    pub return_type_text: Option<String>,
}

/// The mathematical model of a [`FunctionDecl`].
pub struct FunctionDeclView {
    pub name: Seq<char>,
    pub arguments: Seq<ArgumentView>,
    pub return_type_text: Option<Seq<char>>,
}

impl View for FunctionDecl {
    type V = FunctionDeclView;

    open spec fn view(&self) -> FunctionDeclView {
        FunctionDeclView {
            name: self.name@,
            arguments: self.arguments@.map_values(|a: Argument| a@),
            return_type_text: match self.return_type_text {
                Some(t) => Some(t@),
                None => None,
            },
        }
    }
}

/// One declared struct; only its name matters to this pipeline.
pub struct StructDecl {
    pub name: String,
}

impl View for StructDecl {
    type V = Seq<char>;

    open spec fn view(&self) -> Seq<char> {
        self.name@
    }
}

} // verus!
