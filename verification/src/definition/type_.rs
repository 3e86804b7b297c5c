//! Types of the definition language: primitives, references to other
//! definitions by name, and lists of either.

use crate::lisp::{Error, ErrorView, Location};
use crate::text::{chars_of, has_suffix, same_text, string_of};
use vstd::prelude::*;
use vstd::std_specs::cmp::PartialEqSpecImpl;

verus! {

/// A type as written in a definition.
#[derive(Debug, Eq, PartialOrd, Ord)]
pub enum Type {
    I8,
    I16,
    I32,
    I64,
    U8,
    U16,
    U32,
    U64,
    Bool,
    String,
    Float,
    Void,
    /// Another definition, by name.
    Identifier(String),
    /// A list of the inner type.
    List(Box<Type>),
}

/// What a [`Type`] stands for.
pub enum TypeView {
    I8,
    I16,
    I32,
    I64,
    U8,
    U16,
    U32,
    U64,
    Bool,
    String,
    Float,
    Void,
    Identifier(Seq<char>),
    List(Box<TypeView>),
}

/// The model of a type.
pub open spec fn type_view(t: Type) -> TypeView
    decreases t,
{
    match t {
        Type::I8 => TypeView::I8,
        Type::I16 => TypeView::I16,
        Type::I32 => TypeView::I32,
        Type::I64 => TypeView::I64,
        Type::U8 => TypeView::U8,
        Type::U16 => TypeView::U16,
        Type::U32 => TypeView::U32,
        Type::U64 => TypeView::U64,
        Type::Bool => TypeView::Bool,
        Type::String => TypeView::String,
        Type::Float => TypeView::Float,
        Type::Void => TypeView::Void,
        Type::Identifier(name) => TypeView::Identifier(name@),
        Type::List(inner) => TypeView::List(Box::new(type_view(*inner))),
    }
}

impl View for Type {
    type V = TypeView;

    open spec fn view(&self) -> TypeView {
        type_view(*self)
    }
}

impl TypeView {
    /// No list in the type has `void` elements.
    pub open spec fn well_formed(self) -> bool
        decreases self,
    {
        match self {
            TypeView::List(inner) => !(*inner is Void) && inner.well_formed(),
            _ => true,
        }
    }

    /// The type under every layer of list: the type itself when it is no list.
    pub open spec fn inner(self) -> TypeView
        decreases self,
    {
        match self {
            TypeView::List(inner) => inner.inner(),
            _ => self,
        }
    }

    /// The type as written: a keyword, a name, or the element type followed by `[]`.
    pub open spec fn text(self) -> Seq<char>
        decreases self,
    {
        match self {
            TypeView::I8 => "i8"@,
            TypeView::I16 => "i16"@,
            TypeView::I32 => "i32"@,
            TypeView::I64 => "i64"@,
            TypeView::U8 => "u8"@,
            TypeView::U16 => "u16"@,
            TypeView::U32 => "u32"@,
            TypeView::U64 => "u64"@,
            TypeView::Bool => "bool"@,
            TypeView::String => "string"@,
            TypeView::Float => "f32"@,
            TypeView::Void => "void"@,
            TypeView::Identifier(name) => name,
            TypeView::List(inner) => inner.text() + list_suffix(),
        }
    }
}

/// What follows the element type in the text of a list type: `[]`.
pub open spec fn list_suffix() -> Seq<char> {
    seq!['[', ']']
}

/// The primitive type that `text` is the keyword of, if any.
pub open spec fn primitive(text: Seq<char>) -> Option<TypeView> {
    if text == "i8"@ {
        Some(TypeView::I8)
    } else if text == "i16"@ {
        Some(TypeView::I16)
    } else if text == "i32"@ {
        Some(TypeView::I32)
    } else if text == "i64"@ {
        Some(TypeView::I64)
    } else if text == "u8"@ {
        Some(TypeView::U8)
    } else if text == "u16"@ {
        Some(TypeView::U16)
    } else if text == "u32"@ {
        Some(TypeView::U32)
    } else if text == "u64"@ {
        Some(TypeView::U64)
    } else if text == "bool"@ {
        Some(TypeView::Bool)
    } else if text == "string"@ {
        Some(TypeView::String)
    } else if text == "f32"@ {
        Some(TypeView::Float)
    } else if text == "void"@ {
        Some(TypeView::Void)
    } else {
        None
    }
}

/// Message of the error for a name that starts with neither a letter nor `_`.
pub open spec fn invalid_start_message() -> Seq<char> {
    "Identifier must start with a letter or '_'"@
}

/// Message of the error for a list of `void`.
pub open spec fn void_list_message() -> Seq<char> {
    "void can not be attached to a list"@
}

/// Message of the error for a `[` that is never closed.
pub open spec fn unclosed_list_message() -> Seq<char> {
    "Unclosed list"@
}

/// Whether `text` holds a `[` that no `]` closes: a `[` with no `]`
/// anywhere after it.
pub open spec fn unclosed(text: Seq<char>) -> bool {
    exists|i: int|
        0 <= i < text.len() && #[trigger] text[i] == '[' && forall|j: int|
            i < j < text.len() ==> #[trigger] text[j] != ']'
}

/// Whether `text` starts like a name: with a letter or with `_`.
/// `letter` says whether the first character of `text` is a letter.
pub open spec fn starts_like_name(text: Seq<char>, letter: bool) -> bool {
    letter || (text.len() > 0 && text[0] == '_')
}

/// The type that `text` denotes, or the message of the error it is refused
/// with. `letter` says whether the first character of `text` is a letter.
///
/// A keyword denotes its primitive. Anything else must start with a letter
/// or `_`, and every `[` in it must be closed. A trailing `[]` then makes
/// a list of what the text before it denotes (never of `void`), and any
/// other text is the name of a definition.
pub open spec fn type_parsed(text: Seq<char>, letter: bool) -> Result<TypeView, Seq<char>>
    decreases text.len(),
{
    match primitive(text) {
        Some(t) => Ok(t),
        None => if !starts_like_name(text, letter) {
            Err(invalid_start_message())
        } else if unclosed(text) {
            Err(unclosed_list_message())
        } else if has_suffix(text, list_suffix()) {
            match type_parsed(text.take(text.len() - 2), letter) {
                Err(message) => Err(message),
                Ok(inner) => if inner is Void {
                    Err(void_list_message())
                } else {
                    Ok(TypeView::List(Box::new(inner)))
                },
            }
        } else {
            Ok(TypeView::Identifier(text))
        },
    }
}

/// Whether `c` is a letter, in the sense of `char::is_alphabetic`.
pub uninterp spec fn alphabetic(c: char) -> bool;

/// `char::is_alphabetic`: whether the character has the Unicode property
/// Alphabetic. The contract only names that answer.
#[verifier::external_body]
fn is_alphabetic(c: char) -> (r: bool)
    ensures
        r == alphabetic(c),
{
    c.is_alphabetic()
}

/// Whether `text` starts with a letter.
pub open spec fn starts_with_letter(text: Seq<char>) -> bool {
    text.len() > 0 && alphabetic(text[0])
}

/// Whether the first `len` characters of `v` spell `word`.
fn spells(v: &Vec<char>, len: usize, word: &str) -> (r: bool)
    requires
        len <= v.len(),
    ensures
        r == (v@.take(len as int) == word@),
{
    let w = chars_of(word);
    if w.len() != len {
        return false;
    }
    let mut i: usize = 0;
    while i < len
        invariant
            i <= len,
            len <= v.len(),
            w.len() == len,
            w@ == word@,
            v@.take(len as int).take(i as int) == w@.take(i as int),
        decreases len - i,
    {
        if v[i] != w[i] {
            assert(v@.take(len as int)[i as int] != w@[i as int]);
            return false;
        }
        assert(v@.take(len as int).take(i + 1) == v@.take(len as int).take(i as int).push(v@[i as int]));
        assert(w@.take(i + 1) == w@.take(i as int).push(w@[i as int]));
        i += 1;
    }
    assert(w@ == w@.take(len as int));
    assert(v@.take(len as int) == v@.take(len as int).take(len as int));
    true
}

/// The primitive type that the first `len` characters of `v` are the keyword of.
fn primitive_of(v: &Vec<char>, len: usize) -> (r: Option<Type>)
    requires
        len <= v.len(),
    ensures
        match r {
            Some(t) => primitive(v@.take(len as int)) == Some(t@),
            None => primitive(v@.take(len as int)) is None,
        },
{
    if spells(v, len, "i8") {
        Some(Type::I8)
    } else if spells(v, len, "i16") {
        Some(Type::I16)
    } else if spells(v, len, "i32") {
        Some(Type::I32)
    } else if spells(v, len, "i64") {
        Some(Type::I64)
    } else if spells(v, len, "u8") {
        Some(Type::U8)
    } else if spells(v, len, "u16") {
        Some(Type::U16)
    } else if spells(v, len, "u32") {
        Some(Type::U32)
    } else if spells(v, len, "u64") {
        Some(Type::U64)
    } else if spells(v, len, "bool") {
        Some(Type::Bool)
    } else if spells(v, len, "string") {
        Some(Type::String)
    } else if spells(v, len, "f32") {
        Some(Type::Float)
    } else if spells(v, len, "void") {
        Some(Type::Void)
    } else {
        None
    }
}

/// The error with the given message at the given place.
fn refuse(message: &str, location: &Location) -> (r: Error)
    ensures
        r@ == (ErrorView { message: message@, location: location@ }),
{
    Error { message: String::from_str(message), location: location.clone() }
}

/// Whether the first `len` characters of `v` hold a `[` that no `]` closes.
fn is_unclosed(v: &Vec<char>, len: usize) -> (r: bool)
    requires
        len <= v.len(),
    ensures
        r == unclosed(v@.take(len as int)),
{
    let ghost text = v@.take(len as int);
    let mut i: usize = len;
    while i > 0
        invariant
            i <= len <= v.len(),
            text == v@.take(len as int),
            forall|j: int| i <= j < len ==> text[j] != '[' && text[j] != ']',
        decreases i,
    {
        i -= 1;
        if v[i] == '[' {
            assert(text[i as int] == '[');
            return true;
        }
        if v[i] == ']' {
            assert(text[i as int] == ']');
            return false;
        }
    }
    false
}

/// The type that the first `len` characters of `v` denote.
fn parse_chars(v: &Vec<char>, len: usize, letter: bool, location: &Location) -> (r: Result<
    Type,
    Error,
>)
    requires
        len <= v.len(),
    ensures
        match r {
            Ok(t) => type_parsed(v@.take(len as int), letter) == Ok::<_, Seq<char>>(t@),
            Err(e) => type_parsed(v@.take(len as int), letter) == Err::<TypeView, _>(e@.message)
                && e@.location == location@,
        },
    decreases len,
{
    let ghost text = v@.take(len as int);
    match primitive_of(v, len) {
        Some(t) => Ok(t),
        None => {
            if !(letter || (len > 0 && v[0] == '_')) {
                Err(refuse("Identifier must start with a letter or '_'", location))
            } else if is_unclosed(v, len) {
                Err(refuse("Unclosed list", location))
            } else if len >= 2 && v[len - 2] == '[' && v[len - 1] == ']' {
                assert(text.skip(text.len() - 2) =~= list_suffix());
                assert(text.take(text.len() - 2) == v@.take(len - 2));
                match parse_chars(v, len - 2, letter, location) {
                    Err(e) => Err(e),
                    Ok(inner) => {
                        if matches!(inner, Type::Void) {
                            Err(refuse("void can not be attached to a list", location))
                        } else {
                            Ok(Type::List(Box::new(inner)))
                        }
                    },
                }
            } else {
                assert(!has_suffix(text, list_suffix())) by {
                    if has_suffix(text, list_suffix()) {
                        assert(text.skip(text.len() - 2)[0] == '[');
                        assert(text.skip(text.len() - 2)[1] == ']');
                    }
                }
                let mut name: Vec<char> = Vec::new();
                let mut i: usize = 0;
                while i < len
                    invariant
                        i <= len,
                        len <= v.len(),
                        name@ == v@.take(i as int),
                    decreases len - i,
                {
                    name.push(v[i]);
                    i += 1;
                }
                Ok(Type::Identifier(string_of(&name)))
            }
        },
    }
}

impl Type {
    pub fn is_identifier(&self) -> (r: bool)
        ensures
            r == (self@ is Identifier),
    {
        match self {
            Type::Identifier(_) => true,
            _ => false,
        }
    }

    pub fn is_list(&self) -> (r: bool)
        ensures
            r == (self@ is List),
    {
        match self {
            Type::List(_) => true,
            _ => false,
        }
    }

    pub fn is_void(&self) -> (r: bool)
        ensures
            r == (self@ is Void),
    {
        match self {
            Type::Void => true,
            _ => false,
        }
    }

    /// The type under every layer of list. For example, `int[]` gives `int`.
    pub fn inner_type(&self) -> (r: Type)
        ensures
            r@ == self@.inner(),
        decreases self,
    {
        match self {
            Type::List(inner) => inner.inner_type(),
            ty => ty.clone(),
        }
    }

    /// Reads a type from its text. An error carries `location`. A type
    /// that is read is well formed, and written out it is `value` again.
    /// A text that starts like a name and holds a `[` that no `]` closes
    /// is refused as an unclosed list.
    pub fn try_parse(value: &str, location: Location) -> (r: Result<Type, Error>)
        ensures
            match r {
                Ok(t) => type_parsed(value@, starts_with_letter(value@)) == Ok::<_, Seq<char>>(
                    t@,
                ) && t@.well_formed() && t@.text() == value@,
                Err(e) => type_parsed(value@, starts_with_letter(value@)) == Err::<TypeView, _>(
                    e@.message,
                ) && e@.location == location@,
            },
            starts_like_name(value@, starts_with_letter(value@)) && unclosed(value@) ==> r is Err
                && r->Err_0@.message == unclosed_list_message() && r->Err_0@.location
                == location@,
    {
        let v = chars_of(value);
        let letter = v.len() > 0 && is_alphabetic(v[0]);
        assert(v@.take(v.len() as int) == v@);
        Type::parse_with(value, location, letter)
    }

    /// Reads a type from its text, told whether the text starts with a letter.
    pub fn parse_with(value: &str, location: Location, letter: bool) -> (r: Result<Type, Error>)
        ensures
            match r {
                Ok(t) => type_parsed(value@, letter) == Ok::<_, Seq<char>>(t@)
                    && t@.well_formed() && t@.text() == value@,
                Err(e) => type_parsed(value@, letter) == Err::<TypeView, _>(e@.message)
                    && e@.location == location@,
            },
            starts_like_name(value@, letter) && unclosed(value@) ==> r is Err
                && r->Err_0@.message == unclosed_list_message() && r->Err_0@.location
                == location@,
    {
        proof {
            if type_parsed(value@, letter) is Ok {
                lemma_parse_then_render(value@, letter);
                lemma_parsed_well_formed(value@, letter);
            }
            if unclosed(value@) {
                lemma_unclosed_list(value@, letter);
            }
        }
        let v = chars_of(value);
        assert(v@.take(v.len() as int) == v@);
        parse_chars(&v, v.len(), letter, &location)
    }

    /// The type as written.
    pub fn to_string(&self) -> (r: String)
        ensures
            r@ == self@.text(),
        decreases self,
    {
        match self {
            Type::I8 => String::from_str("i8"),
            Type::I16 => String::from_str("i16"),
            Type::I32 => String::from_str("i32"),
            Type::I64 => String::from_str("i64"),
            Type::U8 => String::from_str("u8"),
            Type::U16 => String::from_str("u16"),
            Type::U32 => String::from_str("u32"),
            Type::U64 => String::from_str("u64"),
            Type::Bool => String::from_str("bool"),
            Type::String => String::from_str("string"),
            Type::Float => String::from_str("f32"),
            Type::Void => String::from_str("void"),
            Type::Identifier(name) => name.clone(),
            Type::List(inner) => {
                let mut out = inner.to_string();
                proof {
                    reveal_strlit("[]");
                    assert("[]"@ =~= list_suffix());
                }
                out.append("[]");
                out
            },
        }
    }

    /// Whether the two types are the same type.
    pub fn same(&self, other: &Type) -> (r: bool)
        ensures
            r == (self@ == other@),
        decreases self,
    {
        match (self, other) {
            (Type::I8, Type::I8) => true,
            (Type::I16, Type::I16) => true,
            (Type::I32, Type::I32) => true,
            (Type::I64, Type::I64) => true,
            (Type::U8, Type::U8) => true,
            (Type::U16, Type::U16) => true,
            (Type::U32, Type::U32) => true,
            (Type::U64, Type::U64) => true,
            (Type::Bool, Type::Bool) => true,
            (Type::String, Type::String) => true,
            (Type::Float, Type::Float) => true,
            (Type::Void, Type::Void) => true,
            (Type::Identifier(a), Type::Identifier(b)) => same_text(a.as_str(), b.as_str()),
            (Type::List(a), Type::List(b)) => a.same(b),
            _ => false,
        }
    }
}

impl Clone for Type {
    fn clone(&self) -> (r: Self)
        ensures
            r@ == self@,
        decreases self,
    {
        match self {
            Type::I8 => Type::I8,
            Type::I16 => Type::I16,
            Type::I32 => Type::I32,
            Type::I64 => Type::I64,
            Type::U8 => Type::U8,
            Type::U16 => Type::U16,
            Type::U32 => Type::U32,
            Type::U64 => Type::U64,
            Type::Bool => Type::Bool,
            Type::String => Type::String,
            Type::Float => Type::Float,
            Type::Void => Type::Void,
            Type::Identifier(name) => Type::Identifier(name.clone()),
            Type::List(inner) => Type::List(Box::new((**inner).clone())),
        }
    }
}

impl PartialEq for Type {
    fn eq(&self, other: &Self) -> (r: bool) {
        self.same(other)
    }
}

impl PartialEqSpecImpl for Type {
    open spec fn obeys_eq_spec() -> bool {
        true
    }

    open spec fn eq_spec(&self, other: &Self) -> bool {
        self@ == other@
    }
}

/// Reading a type and writing it back gives the text that was read.
pub proof fn lemma_parse_then_render(text: Seq<char>, letter: bool)
    requires
        type_parsed(text, letter) is Ok,
    ensures
        type_parsed(text, letter)->Ok_0.text() == text,
    decreases text.len(),
{
    if primitive(text) is None {
        if !unclosed(text) && has_suffix(text, list_suffix()) {
            let inner = text.take(text.len() - 2);
            lemma_parse_then_render(inner, letter);
            assert(text == inner + text.skip(text.len() - 2));
        }
    }
}

/// No type that is read holds a list of `void`.
pub proof fn lemma_parsed_well_formed(text: Seq<char>, letter: bool)
    requires
        type_parsed(text, letter) is Ok,
    ensures
        type_parsed(text, letter)->Ok_0.well_formed(),
    decreases text.len(),
{
    if primitive(text) is None {
        if !unclosed(text) && has_suffix(text, list_suffix()) {
            lemma_parsed_well_formed(text.take(text.len() - 2), letter);
        }
    }
}

/// No keyword holds a `[`.
proof fn lemma_keywords_hold_no_bracket(text: Seq<char>, at: int)
    requires
        0 <= at < text.len(),
        text[at] == '[',
    ensures
        primitive(text) is None,
{
    reveal_strlit("i8");
    reveal_strlit("i16");
    reveal_strlit("i32");
    reveal_strlit("i64");
    reveal_strlit("u8");
    reveal_strlit("u16");
    reveal_strlit("u32");
    reveal_strlit("u64");
    reveal_strlit("bool");
    reveal_strlit("string");
    reveal_strlit("f32");
    reveal_strlit("void");
    assert("i8"@ =~= seq!['i', '8']);
    assert("i16"@ =~= seq!['i', '1', '6']);
    assert("i32"@ =~= seq!['i', '3', '2']);
    assert("i64"@ =~= seq!['i', '6', '4']);
    assert("u8"@ =~= seq!['u', '8']);
    assert("u16"@ =~= seq!['u', '1', '6']);
    assert("u32"@ =~= seq!['u', '3', '2']);
    assert("u64"@ =~= seq!['u', '6', '4']);
    assert("bool"@ =~= seq!['b', 'o', 'o', 'l']);
    assert("string"@ =~= seq!['s', 't', 'r', 'i', 'n', 'g']);
    assert("f32"@ =~= seq!['f', '3', '2']);
    assert("void"@ =~= seq!['v', 'o', 'i', 'd']);
    if at == 0 {
    } else if at == 1 {
    } else if at == 2 {
    } else if at == 3 {
    } else if at == 4 {
    } else if at == 5 {
    }
}

/// A text that holds a `[` that no `]` closes is refused: as an
/// unclosed list where it starts like a name, for its start otherwise.
pub proof fn lemma_unclosed_list(text: Seq<char>, letter: bool)
    requires
        unclosed(text),
    ensures
        type_parsed(text, letter) == Err::<TypeView, _>(
            if starts_like_name(text, letter) {
                unclosed_list_message()
            } else {
                invalid_start_message()
            },
        ),
{
    let at = choose|i: int|
        0 <= i < text.len() && #[trigger] text[i] == '[' && forall|j: int|
            i < j < text.len() ==> #[trigger] text[j] != ']';
    lemma_keywords_hold_no_bracket(text, at);
}

} // verus!
