//! Outputs: which language to generate, and into which folder.

use crate::definition::type_::{Type, TypeView};
use crate::definition::{end_checked, expect_end, located_types_view, FromLisp};
use crate::lisp::{Error, ErrorView, List, ListView, Location, LocationView};
use crate::text::same_text;
use vstd::prelude::*;
use vstd::std_specs::cmp::PartialEqSpecImpl;

verus! {

/// A language that code can be generated for.
#[derive(Debug, Clone, Copy, PartialEq, Eq, Structural)]
pub enum TargetLanguage {
    Cpp,
}

/// A target output to compile to.
#[derive(Debug)]
pub struct Output {
    pub location: Location,
    pub folder: String,
    pub language: TargetLanguage,
}

/// What an [`Output`] stands for.
pub struct OutputView {
    pub location: LocationView,
    pub folder: Seq<char>,
    pub language: TargetLanguage,
}

impl View for Output {
    type V = OutputView;

    open spec fn view(&self) -> OutputView {
        OutputView { location: self.location@, folder: self.folder@, language: self.language }
    }
}

impl OutputView {
    /// Same folder and same language, wherever the two were written.
    pub open spec fn same(self, other: OutputView) -> bool {
        self.folder == other.folder && self.language == other.language
    }
}

impl Clone for Output {
    fn clone(&self) -> (r: Self)
        ensures
            r@ == self@,
    {
        Output {
            location: self.location.clone(),
            folder: self.folder.clone(),
            language: self.language,
        }
    }
}

/// Two outputs are equal when they name the same folder and language.
impl PartialEq for Output {
    fn eq(&self, other: &Self) -> (r: bool) {
        same_text(self.folder.as_str(), other.folder.as_str()) && self.language == other.language
    }
}

impl PartialEqSpecImpl for Output {
    open spec fn obeys_eq_spec() -> bool {
        true
    }

    open spec fn eq_spec(&self, other: &Self) -> bool {
        self@.same(other@)
    }
}

/// The language that `name` stands for, if any: `c++` and `cpp` both mean C++.
pub open spec fn language_named(name: Seq<char>) -> Option<TargetLanguage> {
    if name == "c++"@ || name == "cpp"@ {
        Some(TargetLanguage::Cpp)
    } else {
        None
    }
}

/// Message of the error for a language that is not known.
pub open spec fn unknown_language_message(name: Seq<char>) -> Seq<char> {
    "Unknown language '"@ + name + "'"@
}

/// What reading the parts of an output gives: a known language, a
/// folder, and nothing more. The output's place is where the folder is written.
pub open spec fn output_parsed(list: ListView) -> Result<OutputView, ErrorView> {
    if !list.front_is_identifier() {
        Err(list.expected("language"@))
    } else {
        match language_named(list.items[0]->name) {
            None => Err(
                ErrorView {
                    message: unknown_language_message(list.items[0]->name),
                    location: list.items[0]->Identifier_location,
                },
            ),
            Some(language) => {
                let after = list.rest();
                if !after.front_is_identifier() {
                    Err(after.expected("folder"@))
                } else {
                    match end_checked(after.rest()) {
                        Some(e) => Err(e),
                        None => Ok(
                            OutputView {
                                location: after.items[0]->Identifier_location,
                                folder: after.items[0]->name,
                                language,
                            },
                        ),
                    }
                }
            },
        }
    }
}

impl FromLisp for Output {
    open spec fn keyword() -> Seq<char> {
        "output"@
    }

    open spec fn values_parsed(list: ListView) -> Result<OutputView, ErrorView> {
        output_parsed(list)
    }

    open spec fn related_types(definition: OutputView) -> Seq<(LocationView, TypeView)> {
        Seq::empty()
    }

    fn identifier() -> (r: &'static str) {
        "output"
    }

    fn get_related_types(&self) -> (r: Vec<(Location, Type)>) {
        let types: Vec<(Location, Type)> = Vec::new();
        assert(located_types_view(types@) =~= Seq::empty());
        types
    }

    fn parse_values(list: &mut List) -> (r: Result<Self, Error>) {
        let (language, location) = list.pop_identifier("language")?;
        let language = if same_text(language.as_str(), "c++") || same_text(
            language.as_str(),
            "cpp",
        ) {
            TargetLanguage::Cpp
        } else {
            let mut message = String::from_str("Unknown language '");
            message.append(language.as_str());
            message.append("'");
            return Err(Error { message, location });
        };

        let (folder, location) = list.pop_identifier("folder")?;
        expect_end(list)?;
        Ok(Output { location, folder, language })
    }
}

} // verus!
