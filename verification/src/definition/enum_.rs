//! Enums: a name and variants, each with or without fields.

use crate::definition::field::{
    clone_fields, distinct_fields, duplicate, duplicate_message, fields_equal, fields_parsed,
    fields_view, lemma_fields_parsed_distinct, located_type, parse_fields, same_fields, Field,
    FieldView,
};
use crate::definition::type_::{Type, TypeView};
use crate::definition::{located_types_view, FromLisp};
use crate::lisp::{Error, ErrorView, List, ListView, Location, LocationView};
use crate::text::same_text;
use vstd::prelude::*;
use vstd::std_specs::cmp::PartialEqSpecImpl;

verus! {

/// One variant of an enum. Without values it is a plain tag; with values
/// it carries them as named fields.
#[derive(Debug)]
pub struct Variant {
    pub location: Location,
    pub name: String,
    /// The fields, in the order they were declared, no two with one name.
    pub values: Vec<Field>,
}

/// What a [`Variant`] stands for.
pub struct VariantView {
    pub location: LocationView,
    pub name: Seq<char>,
    pub values: Seq<FieldView>,
}

impl View for Variant {
    type V = VariantView;

    open spec fn view(&self) -> VariantView {
        VariantView {
            location: self.location@,
            name: self.name@,
            values: fields_view(self.values@),
        }
    }
}

impl VariantView {
    /// Same name and same values in the same order, wherever the two were written.
    pub open spec fn same(self, other: VariantView) -> bool {
        self.name == other.name && same_fields(self.values, other.values)
    }

    /// The type of every value, in order.
    pub open spec fn related_types(self) -> Seq<(LocationView, TypeView)> {
        self.values.map_values(|f: FieldView| (f.location, f.type_))
    }
}

impl Clone for Variant {
    fn clone(&self) -> (r: Self)
        ensures
            r@ == self@,
    {
        Variant {
            location: self.location.clone(),
            name: self.name.clone(),
            values: clone_fields(&self.values),
        }
    }
}

impl PartialEq for Variant {
    fn eq(&self, other: &Self) -> (r: bool) {
        same_text(self.name.as_str(), other.name.as_str()) && fields_equal(
            &self.values,
            &other.values,
        )
    }
}

impl PartialEqSpecImpl for Variant {
    open spec fn obeys_eq_spec() -> bool {
        true
    }

    open spec fn eq_spec(&self, other: &Self) -> bool {
        self@.same(other@)
    }
}

/// An enum definition.
#[derive(Debug)]
pub struct Enum {
    pub location: Location,
    pub name: String,
    /// The variants, in the order they were declared, no two with one name.
    pub variants: Vec<Variant>,
}

/// What an [`Enum`] stands for.
pub struct EnumView {
    pub location: LocationView,
    pub name: Seq<char>,
    pub variants: Seq<VariantView>,
}

/// The models of a run of variants, in order.
pub open spec fn variants_view(variants: Seq<Variant>) -> Seq<VariantView> {
    variants.map_values(|v: Variant| v@)
}

/// Whether one of `variants` is called `name`.
pub open spec fn has_variant(variants: Seq<VariantView>, name: Seq<char>) -> bool {
    exists|i: int| 0 <= i < variants.len() && (#[trigger] variants[i]).name == name
}

/// No two of `variants` have the same name.
pub open spec fn distinct_variants(variants: Seq<VariantView>) -> bool {
    forall|i: int, j: int|
        0 <= i < j < variants.len() ==> (#[trigger] variants[i]).name != (
        #[trigger] variants[j]).name
}

/// Whether the two runs hold the same variants in the same order.
pub open spec fn same_variants(a: Seq<VariantView>, b: Seq<VariantView>) -> bool {
    a.len() == b.len() && forall|i: int| 0 <= i < a.len() ==> (#[trigger] a[i]).same(b[i])
}

/// The types that the first `count` of `variants` mention, variant by variant.
pub open spec fn variants_related_types(variants: Seq<VariantView>, count: int) -> Seq<
    (LocationView, TypeView),
>
    decreases count,
{
    if count <= 0 || count > variants.len() {
        Seq::empty()
    } else {
        variants_related_types(variants, count - 1) + variants[count - 1].related_types()
    }
}

impl View for Enum {
    type V = EnumView;

    open spec fn view(&self) -> EnumView {
        EnumView {
            location: self.location@,
            name: self.name@,
            variants: variants_view(self.variants@),
        }
    }
}

impl EnumView {
    /// Same name and same variants in the same order, wherever the two were written.
    pub open spec fn same(self, other: EnumView) -> bool {
        self.name == other.name && same_variants(self.variants, other.variants)
    }

    /// Variant names are distinct, and so are the value names of each variant.
    pub open spec fn well_formed(self) -> bool {
        distinct_variants(self.variants) && forall|i: int|
            0 <= i < self.variants.len() ==> distinct_fields((#[trigger] self.variants[i]).values)
    }

    /// The types of the values of every variant, variant by variant.
    pub open spec fn related_types(self) -> Seq<(LocationView, TypeView)> {
        variants_related_types(self.variants, self.variants.len() as int)
    }
}

/// Copies of the variants, in order.
pub fn clone_variants(variants: &Vec<Variant>) -> (r: Vec<Variant>)
    ensures
        variants_view(r@) == variants_view(variants@),
{
    let mut out: Vec<Variant> = Vec::new();
    let mut i: usize = 0;
    while i < variants.len()
        invariant
            i <= variants.len(),
            variants_view(out@) == variants_view(variants@).take(i as int),
        decreases variants.len() - i,
    {
        let ghost before = variants_view(out@);
        out.push(variants[i].clone());
        assert(variants_view(out@) =~= before.push(variants@[i as int]@));
        assert(before.push(variants@[i as int]@) =~= variants_view(variants@).take(i + 1));
        i += 1;
    }
    assert(variants_view(variants@).take(variants.len() as int) =~= variants_view(variants@));
    out
}

impl Clone for Enum {
    fn clone(&self) -> (r: Self)
        ensures
            r@ == self@,
    {
        Enum {
            location: self.location.clone(),
            name: self.name.clone(),
            variants: clone_variants(&self.variants),
        }
    }
}

/// Two enums are equal when they have the same name and the same variants
/// in the same order.
impl PartialEq for Enum {
    fn eq(&self, other: &Self) -> (r: bool) {
        if !same_text(self.name.as_str(), other.name.as_str()) {
            return false;
        }
        if self.variants.len() != other.variants.len() {
            return false;
        }
        let mut i: usize = 0;
        while i < self.variants.len()
            invariant
                i <= self.variants.len(),
                self.variants.len() == other.variants.len(),
                forall|k: int|
                    0 <= k < i ==> (#[trigger] self@.variants[k]).same(other@.variants[k]),
            decreases self.variants.len() - i,
        {
            let a = &self.variants[i];
            let b = &other.variants[i];
            if !(same_text(a.name.as_str(), b.name.as_str()) && fields_equal(
                &a.values,
                &b.values,
            )) {
                assert(!self@.variants[i as int].same(other@.variants[i as int]));
                return false;
            }
            i += 1;
        }
        true
    }
}

impl PartialEqSpecImpl for Enum {
    open spec fn obeys_eq_spec() -> bool {
        true
    }

    open spec fn eq_spec(&self, other: &Self) -> bool {
        self@.same(other@)
    }
}

/// The name of the one field of a variant written with a bare type.
pub open spec fn value_name() -> Seq<char> {
    "value"@
}

/// Message of the error for a bare type that is followed by more.
pub open spec fn single_value_message() -> Seq<char> {
    "A complex variant without named fields must only have one value"@
}

/// What reading the variant at the front of `list` gives. A bare
/// identifier is a variant without values. A list starts with the variant's
/// name; then either a single bare type, which becomes the field `value`,
/// or `(type name)` pairs with distinct names.
pub open spec fn variant_parsed(list: ListView) -> Result<VariantView, ErrorView> {
    if list.front_is_list() {
        let inner = list.items[0]->List_0;
        if !inner.front_is_identifier() {
            Err(inner.expected("variant name"@))
        } else {
            let location = inner.items[0]->Identifier_location;
            let name = inner.items[0]->name;
            let after = inner.rest();
            if after.front_is_identifier() {
                let type_location = after.items[0]->Identifier_location;
                match located_type(after.items[0]->name, type_location) {
                    Err(e) => Err(e),
                    Ok(type_) => if after.rest().items.len() > 0 {
                        Err(
                            ErrorView {
                                message: single_value_message(),
                                location: inner.location,
                            },
                        )
                    } else {
                        Ok(
                            VariantView {
                                location,
                                name,
                                values: seq![
                                    FieldView {
                                        location: type_location,
                                        name: value_name(),
                                        type_,
                                    },
                                ],
                            },
                        )
                    },
                }
            } else {
                match fields_parsed("complex variant property"@, after, Seq::empty()) {
                    Err(e) => Err(e),
                    Ok(values) => Ok(VariantView { location, name, values }),
                }
            }
        }
    } else if !list.front_is_identifier() {
        Err(list.expected("variant name"@))
    } else {
        Ok(
            VariantView {
                location: list.items[0]->Identifier_location,
                name: list.items[0]->name,
                values: Seq::empty(),
            },
        )
    }
}

/// What reading every variant of `list` adds to `variants`, or the first error.
pub open spec fn variants_parsed(list: ListView, variants: Seq<VariantView>) -> Result<
    Seq<VariantView>,
    ErrorView,
>
    decreases list.items.len(),
{
    if list.items.len() == 0 {
        Ok(variants)
    } else {
        match variant_parsed(list) {
            Err(e) => Err(e),
            Ok(v) => if has_variant(variants, v.name) {
                Err(
                    ErrorView {
                        message: duplicate_message("variant"@, v.name),
                        location: v.location,
                    },
                )
            } else {
                variants_parsed(list.rest(), variants.push(v))
            },
        }
    }
}

/// What reading the parts of an enum gives: a name, then variants with
/// distinct names up to the end of the list.
pub open spec fn enum_parsed(list: ListView) -> Result<EnumView, ErrorView> {
    if !list.front_is_identifier() {
        Err(list.expected("enum name"@))
    } else {
        match variants_parsed(list.rest(), Seq::empty()) {
            Err(e) => Err(e),
            Ok(variants) => Ok(
                EnumView {
                    location: list.items[0]->Identifier_location,
                    name: list.items[0]->name,
                    variants,
                },
            ),
        }
    }
}

/// Whether one of `variants` is called `name`.
pub fn contains_variant(variants: &Vec<Variant>, name: &str) -> (r: bool)
    ensures
        r == has_variant(variants_view(variants@), name@),
{
    let mut i: usize = 0;
    while i < variants.len()
        invariant
            i <= variants.len(),
            forall|k: int| 0 <= k < i ==> (#[trigger] variants_view(variants@)[k]).name != name@,
        decreases variants.len() - i,
    {
        if same_text(variants[i].name.as_str(), name) {
            assert(variants_view(variants@)[i as int].name == name@);
            return true;
        }
        i += 1;
    }
    false
}

/// Reads the variant at the front of `list`.
pub fn parse_variant(list: &mut List) -> (r: Result<Variant, Error>)
    ensures
        final(list)@.location == old(list)@.location,
        match r {
            Ok(v) => variant_parsed(old(list)@) == Ok::<_, ErrorView>(v@) && final(list)@ == old(list)@.rest(),
            Err(e) => variant_parsed(old(list)@) == Err::<VariantView, _>(e@),
        },
{
    if list.front_is_list() {
        let mut inner = list.pop_list("complex variant")?;
        let (name, location) = inner.pop_identifier("variant name")?;
        let mut values: Vec<Field> = Vec::new();
        assert(fields_view(values@) =~= Seq::empty());
        if inner.front_is_identifier() {
            let (field_type, loc) = inner.pop_identifier("complex variant type")?;
            let type_ = Type::try_parse(field_type.as_str(), loc.clone())?;
            if !inner.is_empty() {
                return Err(
                    Error {
                        message: String::from_str(
                            "A complex variant without named fields must only have one value",
                        ),
                        location: inner.location(),
                    },
                );
            }
            values.push(Field { name: String::from_str("value"), type_, location: loc });
            assert(fields_view(values@) =~= seq![values@[0]@]);
        } else {
            parse_fields("complex variant property", &mut inner, &mut values)?;
        }
        Ok(Variant { location, name, values })
    } else {
        let (name, location) = list.pop_identifier("variant name")?;
        let values: Vec<Field> = Vec::new();
        assert(fields_view(values@) =~= Seq::empty());
        Ok(Variant { location, name, values })
    }
}

impl FromLisp for Enum {
    open spec fn keyword() -> Seq<char> {
        "enum"@
    }

    open spec fn values_parsed(list: ListView) -> Result<EnumView, ErrorView> {
        enum_parsed(list)
    }

    open spec fn related_types(definition: EnumView) -> Seq<(LocationView, TypeView)> {
        definition.related_types()
    }

    fn identifier() -> (r: &'static str) {
        "enum"
    }

    #[verifier::loop_isolation(false)]
    fn parse_values(list: &mut List) -> (r: Result<Self, Error>) {
        // Get the name of the enum
        let (name, location) = list.pop_identifier("enum name")?;

        let mut variants: Vec<Variant> = Vec::new();
        assert(variants_view(variants@) =~= Seq::empty());
        let ghost all = list@;
        while !list.is_empty()
            invariant
                list@.location == all.location,
                variants_parsed(all, Seq::empty()) == variants_parsed(
                    list@,
                    variants_view(variants@),
                ),
            decreases list@.items.len(),
        {
            let ghost before = variants_view(variants@);
            let variant = parse_variant(list)?;
            if contains_variant(&variants, variant.name.as_str()) {
                return Err(duplicate("variant", variant.name.as_str(), variant.location.clone()));
            }
            variants.push(variant);
            assert(variants_view(variants@) =~= before.push(variants@.last()@));
        }

        Ok(Enum { location, name, variants })
    }

    fn get_related_types(&self) -> (r: Vec<(Location, Type)>) {
        let mut related_types: Vec<(Location, Type)> = Vec::new();
        let mut i: usize = 0;
        while i < self.variants.len()
            invariant
                i <= self.variants.len(),
                located_types_view(related_types@) == variants_related_types(
                    self@.variants,
                    i as int,
                ),
            decreases self.variants.len() - i,
        {
            let variant = &self.variants[i];
            let ghost start = located_types_view(related_types@);
            let mut k: usize = 0;
            while k < variant.values.len()
                invariant
                    k <= variant.values.len(),
                    i < self.variants.len(),
                    variant == &self.variants[i as int],
                    located_types_view(related_types@) == start + variant@.values.take(
                        k as int,
                    ).map_values(|f: FieldView| (f.location, f.type_)),
                decreases variant.values.len() - k,
            {
                let field = &variant.values[k];
                let ghost before = located_types_view(related_types@);
                related_types.push((field.location.clone(), field.type_.clone()));
                assert(located_types_view(related_types@) =~= before.push(
                    (field@.location, field@.type_),
                ));
                assert(variant@.values.take(k + 1) =~= variant@.values.take(k as int).push(
                    field@,
                ));
                assert(before.push((field@.location, field@.type_)) =~= start
                    + variant@.values.take(k + 1).map_values(
                    |f: FieldView| (f.location, f.type_),
                ));
                k += 1;
            }
            assert(variant@.values.take(variant.values.len() as int) =~= variant@.values);
            assert(self@.variants[i as int] == variant@);
            i += 1;
        }
        related_types
    }
}

/// A variant that is read has values with distinct names.
pub proof fn lemma_variant_parsed_distinct(list: ListView)
    requires
        variant_parsed(list) is Ok,
    ensures
        distinct_fields(variant_parsed(list)->Ok_0.values),
{
    if list.front_is_list() {
        let after = list.items[0]->List_0.rest();
        if !after.front_is_identifier() {
            lemma_fields_parsed_distinct("complex variant property"@, after, Seq::empty());
        }
    }
}

/// Adding the variants that are read keeps an enum well formed.
pub proof fn lemma_variants_parsed_well_formed(list: ListView, variants: Seq<VariantView>)
    requires
        distinct_variants(variants),
        forall|i: int| 0 <= i < variants.len() ==> distinct_fields((#[trigger] variants[i]).values),
        variants_parsed(list, variants) is Ok,
    ensures
        distinct_variants(variants_parsed(list, variants)->Ok_0),
        forall|i: int|
            0 <= i < variants_parsed(list, variants)->Ok_0.len() ==> distinct_fields(
                (#[trigger] variants_parsed(list, variants)->Ok_0[i]).values,
            ),
    decreases list.items.len(),
{
    if list.items.len() > 0 {
        lemma_variant_parsed_distinct(list);
        let v = variant_parsed(list)->Ok_0;
        lemma_variants_parsed_well_formed(list.rest(), variants.push(v));
    }
}

/// An enum that is read has distinct variant names, and each variant
/// distinct value names.
pub proof fn lemma_enum_parsed_well_formed(list: ListView)
    requires
        enum_parsed(list) is Ok,
    ensures
        enum_parsed(list)->Ok_0.well_formed(),
{
    lemma_variants_parsed_well_formed(list.rest(), Seq::empty());
}

} // verus!
