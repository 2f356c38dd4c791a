//! The front end of the `#[grove::service]` attribute and of the `Service`
//! and `Event` derives: the struct item that the macro receives, parsed by
//! `syn`, and the grammar of the `#[grove(...)]` words on the struct
//! (`emits = [...]`) and on its fields (`get`).

use crate::syntax::{
    attribute_syntax, copy_error, is_grove, is_spelled, text_of, AttributeSyntax, MetaSyntax, MetaValue,
};
use crate::handlers::{field_getter, settled_outcome, settles, FieldAttrError, FieldWord};
use proc_macro2::TokenStream;
use syn::{Data, DeriveInput, Field, Fields};
use vstd::prelude::*;

verus! {

/// `syn::DeriveInput`: a parsed struct, enum or union item.
#[verifier::external_type_specification]
#[verifier::external_body]
pub struct ExDeriveInput(DeriveInput);

/// `syn::Field`: a field of a parsed struct.
#[verifier::external_type_specification]
#[verifier::external_body]
pub struct ExField(Field);

/// Calls `syn::parse2` for a `DeriveInput`. What the parse gives depends on
/// the tokens, which hold no plain value here, so no clause is stated of it.
#[verifier::external_body]
fn parse_derive_input(tokens: TokenStream) -> (parsed: Result<DeriveInput, syn::Error>) {
    syn::parse2::<DeriveInput>(tokens)
}

/// Whether the item is a struct, and with named fields.
#[verifier::external_body]
fn input_shape(input: &DeriveInput) -> (shape: StructShape) {
    match &input.data {
        Data::Struct(data) => match &data.fields {
            Fields::Named(_) => StructShape::NamedFields,
            _ => StructShape::OtherFields,
        },
        _ => StructShape::NotStruct,
    }
}

/// A copy of the item's own attributes, in order.
#[verifier::external_body]
fn input_attributes(input: &DeriveInput) -> (attrs: Vec<syn::Attribute>) {
    input.attrs.clone()
}

/// Copies of the fields of a struct item, in order; none for another item.
#[verifier::external_body]
fn input_fields(input: &DeriveInput) -> (fields: Vec<Field>) {
    match &input.data {
        Data::Struct(data) => data.fields.iter().cloned().collect(),
        _ => Vec::new(),
    }
}

/// The field's name, written out by `syn::Ident`'s `to_string`.
#[verifier::external_body]
fn field_name(field: &Field) -> (name: Option<String>) {
    field.ident.as_ref().map(|ident| ident.to_string())
}

/// A copy of the field's attributes, in order.
#[verifier::external_body]
fn field_attributes(field: &Field) -> (attrs: Vec<syn::Attribute>) {
    field.attrs.clone()
}

/// Parses the tokens that the `Service` or `Event` derive receives as an item.
pub fn parse_struct_item(item: TokenStream) -> (parsed: Result<DeriveInput, syn::Error>) {
    parse_derive_input(item)
}

// ============================================================================
// The struct as plain values
// ============================================================================

/// What kind of item a derive input is.
#[derive(Clone, Copy, Debug, PartialEq, Eq, Structural)]
pub enum StructShape {
    /// A struct with named fields.
    NamedFields,
    /// A tuple or unit struct.
    OtherFields,
    /// An enum or a union.
    NotStruct,
}

/// A field as the grammar reads it: its name and its attributes in order.
pub struct FieldSyntax {
    pub name: Option<String>,
    pub attrs: Vec<AttributeSyntax>,
}

/// A struct item as the grammar reads it.
pub struct StructSyntax {
    pub shape: StructShape,
    pub attrs: Vec<AttributeSyntax>,
    pub fields: Vec<FieldSyntax>,
}

/// Reads a list of attributes into plain values.
fn attributes_syntax(attrs: &Vec<syn::Attribute>) -> (read: Vec<AttributeSyntax>) {
    let mut read: Vec<AttributeSyntax> = Vec::new();
    for j in 0..attrs.len() {
        read.push(attribute_syntax(&attrs[j]));
    }
    read
}

/// Reads a struct item into plain values: its shape, its attributes and each
/// of its fields, in order.
pub fn struct_syntax(input: &DeriveInput) -> (syntax: StructSyntax) {
    let fields = input_fields(input);
    let mut read: Vec<FieldSyntax> = Vec::new();
    for f in 0..fields.len() {
        read.push(FieldSyntax {
            name: field_name(&fields[f]),
            attrs: attributes_syntax(&field_attributes(&fields[f])),
        });
    }
    StructSyntax { shape: input_shape(input), attrs: attributes_syntax(&input_attributes(input)), fields: read }
}

// ============================================================================
// The grammar
// ============================================================================

/// Why an `emits` item was refused.
#[derive(Clone, Copy, Debug, PartialEq, Eq, Structural)]
pub enum EmitsError {
    /// `emits` without `= [...]`.
    MissingList,
    /// An entry of the list that is not an event name.
    NameNotIdent,
    /// `= value` or parentheses after another word.
    UnexpectedItem,
}

/// Why the input of `#[grove::service]` was refused.
pub enum ServiceInputError {
    /// `syn` could not parse the tokens as an item.
    Item(syn::Error),
    /// `syn` could not split the items of a `#[grove(...)]` attribute of the
    /// struct.
    StructAttribute(syn::Error),
    /// The struct's `#[grove(...)]` items were refused.
    Emits(EmitsError),
    /// The item is not a struct.
    NotStruct,
    /// The struct's fields are not named.
    UnnamedFields,
    /// `syn` could not split the items of a `#[grove(...)]` attribute of
    /// field `field`.
    FieldAttribute { field: usize, cause: syn::Error },
    /// A `#[grove(...)]` attribute of field `field` holds `= value` or
    /// parentheses.
    FieldWords { field: usize },
}

/// A refusal without the error `syn` reported, for the contracts.
#[derive(Clone, Copy, Debug, PartialEq, Eq, Structural)]
pub enum ServiceRefusal {
    Item,
    StructAttribute,
    Emits(EmitsError),
    NotStruct,
    UnnamedFields,
    FieldAttribute(usize),
    FieldWords(usize),
}

/// The refusal that an error reports.
pub open spec fn service_refusal_of(error: ServiceInputError) -> ServiceRefusal {
    match error {
        ServiceInputError::Item(_) => ServiceRefusal::Item,
        ServiceInputError::StructAttribute(_) => ServiceRefusal::StructAttribute,
        ServiceInputError::Emits(e) => ServiceRefusal::Emits(e),
        ServiceInputError::NotStruct => ServiceRefusal::NotStruct,
        ServiceInputError::UnnamedFields => ServiceRefusal::UnnamedFields,
        ServiceInputError::FieldAttribute { field, .. } => ServiceRefusal::FieldAttribute(field),
        ServiceInputError::FieldWords { field } => ServiceRefusal::FieldWords(field),
    }
}

/// The names of a list, each as text, where every entry has one.
pub open spec fn names_outcome(names: Seq<Option<String>>) -> Option<Seq<Seq<char>>>
    decreases names.len(),
{
    if names.len() == 0 {
        Some(Seq::empty())
    } else {
        match names_outcome(names.drop_last()) {
            None => None,
            Some(read) => match names.last() {
                Some(n) => Some(read.push(n@)),
                None => None,
            },
        }
    }
}

/// The events one item of a struct's `#[grove(...)]` attribute declares:
/// those of `emits = [A, B]`, none for another word; or its refusal.
pub open spec fn emits_item(item: MetaSyntax) -> Result<Seq<Seq<char>>, EmitsError> {
    match item {
        MetaSyntax::Word(name) => if text_of(name) == Some("emits"@) {
            Err(EmitsError::MissingList)
        } else {
            Ok(Seq::empty())
        },
        MetaSyntax::Group(_) => Err(EmitsError::UnexpectedItem),
        MetaSyntax::Assign(name, value) => if text_of(name) == Some("emits"@) {
            match value {
                MetaValue::Names(names) => match names_outcome(names@) {
                    Some(events) => Ok(events),
                    None => Err(EmitsError::NameNotIdent),
                },
                _ => Err(EmitsError::MissingList),
            }
        } else {
            Err(EmitsError::UnexpectedItem)
        },
    }
}

/// The events the items of one attribute declare, in order; or the first
/// refusal.
pub open spec fn emits_items(items: Seq<MetaSyntax>) -> Result<Seq<Seq<char>>, EmitsError>
    decreases items.len(),
{
    if items.len() == 0 {
        Ok(Seq::empty())
    } else {
        match emits_items(items.drop_last()) {
            Err(e) => Err(e),
            Ok(events) => match emits_item(items.last()) {
                Err(e) => Err(e),
                Ok(more) => Ok(events + more),
            },
        }
    }
}

/// The events the struct's `#[grove(...)]` attributes declare, in order; or
/// the first refusal. Other attributes are passed over.
pub open spec fn emits_outcome(attrs: Seq<AttributeSyntax>) -> Result<Seq<Seq<char>>, ServiceRefusal>
    decreases attrs.len(),
{
    if attrs.len() == 0 {
        Ok(Seq::empty())
    } else {
        match emits_outcome(attrs.drop_last()) {
            Err(e) => Err(e),
            Ok(events) => {
                let attr = attrs.last();
                if !is_grove(attr.name) {
                    Ok(events)
                } else {
                    match attr.items {
                        Err(_) => Err(ServiceRefusal::StructAttribute),
                        Ok(items) => match emits_items(items@) {
                            Err(e) => Err(ServiceRefusal::Emits(e)),
                            Ok(more) => Ok(events + more),
                        },
                    }
                }
            },
        }
    }
}

/// Whether an item is the bare word `get`.
pub open spec fn is_get(item: MetaSyntax) -> bool {
    item matches MetaSyntax::Word(Some(n)) && n@ == "get"@
}

/// What one attribute of field `field` says: nothing unless it is a
/// `#[grove(...)]` attribute; else whether it holds `get`, refused where it
/// holds `= value` or parentheses or cannot be split.
pub open spec fn getter_attribute(attr: AttributeSyntax, field: usize) -> Result<bool, ServiceRefusal> {
    if !is_grove(attr.name) {
        Ok(false)
    } else {
        match attr.items {
            Err(_) => Err(ServiceRefusal::FieldAttribute(field)),
            Ok(items) => if exists|k: int| 0 <= k < items@.len() && !(items@[k] is Word) {
                Err(ServiceRefusal::FieldWords(field))
            } else {
                Ok(exists|k: int| 0 <= k < items@.len() && is_get(items@[k]))
            },
        }
    }
}

/// Whether field `field` gets a getter: its attributes are read in order up
/// to the first that says `get`; the first refusal before it refuses it.
pub open spec fn getter_outcome(attrs: Seq<AttributeSyntax>, field: usize) -> Result<bool, ServiceRefusal>
    decreases attrs.len(),
{
    if attrs.len() == 0 {
        Ok(false)
    } else {
        match getter_outcome(attrs.drop_last(), field) {
            Ok(false) => getter_attribute(attrs.last(), field),
            settled => settled,
        }
    }
}

/// Whether a field gets a getter; the emitter field never does.
pub open spec fn field_outcome(f: FieldSyntax, field: usize) -> Result<bool, ServiceRefusal> {
    if text_of(f.name) == Some("__grove_emitter"@) {
        Ok(false)
    } else {
        getter_outcome(f.attrs@, field)
    }
}

/// Whether each field gets a getter, in order; or the first refusal.
pub open spec fn fields_outcome(fields: Seq<FieldSyntax>) -> Result<Seq<bool>, ServiceRefusal>
    decreases fields.len(),
{
    if fields.len() == 0 {
        Ok(Seq::empty())
    } else {
        match fields_outcome(fields.drop_last()) {
            Err(e) => Err(e),
            Ok(getters) => match field_outcome(fields.last(), (fields.len() - 1) as usize) {
                Err(e) => Err(e),
                Ok(g) => Ok(getters.push(g)),
            },
        }
    }
}

/// What `#[grove::service]` makes of a struct: whether each field gets a
/// getter and the events it emits; or the first refusal, the struct's
/// attributes being read first.
pub open spec fn service_outcome(s: StructSyntax) -> Result<(Seq<bool>, Seq<Seq<char>>), ServiceRefusal> {
    match emits_outcome(s.attrs@) {
        Err(e) => Err(e),
        Ok(events) => match s.shape {
            StructShape::NotStruct => Err(ServiceRefusal::NotStruct),
            StructShape::OtherFields => Err(ServiceRefusal::UnnamedFields),
            StructShape::NamedFields => match fields_outcome(s.fields@) {
                Err(e) => Err(e),
                Ok(getters) => Ok((getters, events)),
            },
        },
    }
}

/// The texts of a list of names.
pub open spec fn texts(names: Seq<String>) -> Seq<Seq<char>> {
    names.map_values(|n: String| n@)
}

// ============================================================================
// Reading
// ============================================================================

/// The names of a list, where every entry has one.
fn read_names(names: &Vec<Option<String>>) -> (read: Option<Vec<String>>)
    ensures
        match (read, names_outcome(names@)) {
            (Some(r), Some(sr)) => texts(r@) == sr,
            (None, None) => true,
            _ => false,
        },
{
    let mut read: Vec<String> = Vec::new();
    let mut k: usize = 0;
    assert(names@.take(0) =~= Seq::<Option<String>>::empty());
    assert(texts(read@) =~= Seq::<Seq<char>>::empty());
    while k < names.len()
        invariant
            k <= names.len(),
            names_outcome(names@.take(k as int)) == Some(texts(read@)),
        decreases names.len() - k,
    {
        assert(names@.take(k + 1).drop_last() == names@.take(k as int));
        match &names[k] {
            Some(n) => {
                read.push(n.clone());
                assert(texts(read@) =~= texts(read@.drop_last()).push(n@));
            },
            None => {
                proof {
                    lemma_names_refusal_stays(names@, k as int + 1);
                }
                return None;
            },
        }
        k = k + 1;
    }
    assert(names@.take(names.len() as int) == names@);
    Some(read)
}

proof fn lemma_names_refusal_stays(names: Seq<Option<String>>, k: int)
    requires
        0 <= k <= names.len(),
        names_outcome(names.take(k)) is None,
    ensures
        names_outcome(names) is None,
    decreases names.len() - k,
{
    if k < names.len() {
        assert(names.take(k + 1).drop_last() == names.take(k));
        lemma_names_refusal_stays(names, k + 1);
    } else {
        assert(names.take(k) == names);
    }
}

/// The events one item declares.
fn read_emits_item(item: &MetaSyntax) -> (read: Result<Vec<String>, EmitsError>)
    ensures
        match (read, emits_item(*item)) {
            (Ok(r), Ok(sr)) => texts(r@) == sr,
            (Err(e), Err(se)) => e == se,
            _ => false,
        },
{
    match item {
        MetaSyntax::Word(name) => {
            let emits = match name {
                Some(n) => is_spelled(n, "emits"),
                None => false,
            };
            if emits {
                Err(EmitsError::MissingList)
            } else {
                let none: Vec<String> = Vec::new();
                assert(texts(none@) =~= Seq::<Seq<char>>::empty());
                Ok(none)
            }
        },
        MetaSyntax::Group(_) => Err(EmitsError::UnexpectedItem),
        MetaSyntax::Assign(name, value) => {
            let emits = match name {
                Some(n) => is_spelled(n, "emits"),
                None => false,
            };
            if !emits {
                return Err(EmitsError::UnexpectedItem);
            }
            match value {
                MetaValue::Names(names) => match read_names(names) {
                    Some(events) => Ok(events),
                    None => Err(EmitsError::NameNotIdent),
                },
                _ => Err(EmitsError::MissingList),
            }
        },
    }
}

/// The events the items of one attribute declare.
fn read_emits_items(items: &Vec<MetaSyntax>) -> (read: Result<Vec<String>, EmitsError>)
    ensures
        match (read, emits_items(items@)) {
            (Ok(r), Ok(sr)) => texts(r@) == sr,
            (Err(e), Err(se)) => e == se,
            _ => false,
        },
{
    let mut events: Vec<String> = Vec::new();
    let mut k: usize = 0;
    assert(items@.take(0) =~= Seq::<MetaSyntax>::empty());
    assert(texts(events@) =~= Seq::<Seq<char>>::empty());
    while k < items.len()
        invariant
            k <= items.len(),
            emits_items(items@.take(k as int)) == Ok::<Seq<Seq<char>>, EmitsError>(texts(events@)),
        decreases items.len() - k,
    {
        assert(items@.take(k + 1).drop_last() == items@.take(k as int));
        match read_emits_item(&items[k]) {
            Err(e) => {
                proof {
                    lemma_emits_items_refusal_stays(items@, k as int + 1);
                }
                return Err(e);
            },
            Ok(more) => {
                let ghost before = events@;
                let mut more = more;
                let ghost added = more@;
                events.append(&mut more);
                assert(texts(events@) =~= texts(before) + texts(added));
            },
        }
        k = k + 1;
    }
    assert(items@.take(items.len() as int) == items@);
    Ok(events)
}

proof fn lemma_emits_items_refusal_stays(items: Seq<MetaSyntax>, k: int)
    requires
        0 <= k <= items.len(),
        emits_items(items.take(k)) is Err,
    ensures
        emits_items(items) == emits_items(items.take(k)),
    decreases items.len() - k,
{
    if k < items.len() {
        assert(items.take(k + 1).drop_last() == items.take(k));
        lemma_emits_items_refusal_stays(items, k + 1);
    } else {
        assert(items.take(k) == items);
    }
}

/// The events the struct's attributes declare.
fn read_emits(attrs: &Vec<AttributeSyntax>) -> (read: Result<Vec<String>, ServiceInputError>)
    ensures
        match (read, emits_outcome(attrs@)) {
            (Ok(r), Ok(sr)) => texts(r@) == sr,
            (Err(e), Err(se)) => service_refusal_of(e) == se,
            _ => false,
        },
{
    let mut events: Vec<String> = Vec::new();
    let mut j: usize = 0;
    assert(attrs@.take(0) =~= Seq::<AttributeSyntax>::empty());
    assert(texts(events@) =~= Seq::<Seq<char>>::empty());
    while j < attrs.len()
        invariant
            j <= attrs.len(),
            emits_outcome(attrs@.take(j as int)) == Ok::<Seq<Seq<char>>, ServiceRefusal>(texts(events@)),
        decreases attrs.len() - j,
    {
        assert(attrs@.take(j + 1).drop_last() == attrs@.take(j as int));
        assert(attrs@.take(j + 1).last() == attrs@[j as int]);
        let attr = &attrs[j];
        let grove = match &attr.name {
            Some(n) => is_spelled(n, "grove"),
            None => false,
        };
        if grove {
            let refused = match &attr.items {
                Err(e) => Some(ServiceInputError::StructAttribute(copy_error(e))),
                Ok(items) => match read_emits_items(items) {
                    Err(e) => Some(ServiceInputError::Emits(e)),
                    Ok(more) => {
                        let ghost before = events@;
                        let mut more = more;
                        let ghost added = more@;
                        events.append(&mut more);
                        assert(texts(events@) =~= texts(before) + texts(added));
                        None
                    },
                },
            };
            if let Some(e) = refused {
                proof {
                    lemma_emits_refusal_stays(attrs@, j as int + 1);
                }
                return Err(e);
            }
        }
        j = j + 1;
    }
    assert(attrs@.take(attrs.len() as int) == attrs@);
    Ok(events)
}

proof fn lemma_emits_refusal_stays(attrs: Seq<AttributeSyntax>, k: int)
    requires
        0 <= k <= attrs.len(),
        emits_outcome(attrs.take(k)) is Err,
    ensures
        emits_outcome(attrs) == emits_outcome(attrs.take(k)),
    decreases attrs.len() - k,
{
    if k < attrs.len() {
        assert(attrs.take(k + 1).drop_last() == attrs.take(k));
        lemma_emits_refusal_stays(attrs, k + 1);
    } else {
        assert(attrs.take(k) == attrs);
    }
}

/// What one attribute of field `field` says.
fn read_getter_attribute(attr: &AttributeSyntax, field: usize) -> (read: Result<bool, ServiceInputError>)
    ensures
        match (read, getter_attribute(*attr, field)) {
            (Ok(g), Ok(sg)) => g == sg,
            (Err(e), Err(se)) => service_refusal_of(e) == se,
            _ => false,
        },
{
    let grove = match &attr.name {
        Some(n) => is_spelled(n, "grove"),
        None => false,
    };
    if !grove {
        return Ok(false);
    }
    match &attr.items {
        Err(e) => Err(ServiceInputError::FieldAttribute { field, cause: copy_error(e) }),
        Ok(items) => {
            let mut get = false;
            let mut other = false;
            let mut k: usize = 0;
            while k < items.len()
                invariant
                    k <= items.len(),
                    get == exists|i: int| 0 <= i < k && is_get(items@[i]),
                    other == exists|i: int| 0 <= i < k && !(items@[i] is Word),
                decreases items.len() - k,
            {
                match &items[k] {
                    MetaSyntax::Word(name) => {
                        let is = match name {
                            Some(n) => is_spelled(n, "get"),
                            None => false,
                        };
                        if is {
                            get = true;
                        }
                    },
                    _ => {
                        other = true;
                    },
                }
                k = k + 1;
            }
            if other {
                Err(ServiceInputError::FieldWords { field })
            } else {
                Ok(get)
            }
        },
    }
}

/// Whether field `field` gets a getter, from its attributes.
fn read_getter(attrs: &Vec<AttributeSyntax>, field: usize) -> (read: Result<bool, ServiceInputError>)
    ensures
        match (read, getter_outcome(attrs@, field)) {
            (Ok(g), Ok(sg)) => g == sg,
            (Err(e), Err(se)) => service_refusal_of(e) == se,
            _ => false,
        },
{
    let mut j: usize = 0;
    assert(attrs@.take(0) =~= Seq::<AttributeSyntax>::empty());
    while j < attrs.len()
        invariant
            j <= attrs.len(),
            getter_outcome(attrs@.take(j as int), field) == Ok::<bool, ServiceRefusal>(false),
        decreases attrs.len() - j,
    {
        assert(attrs@.take(j + 1).drop_last() == attrs@.take(j as int));
        assert(attrs@.take(j + 1).last() == attrs@[j as int]);
        let read = read_getter_attribute(&attrs[j], field);
        let settled = match &read {
            Ok(g) => *g,
            Err(_) => true,
        };
        if settled {
            proof {
                lemma_getter_settled_stays(attrs@, field, j as int + 1);
            }
            return read;
        }
        j = j + 1;
    }
    assert(attrs@.take(attrs.len() as int) == attrs@);
    Ok(false)
}

proof fn lemma_getter_settled_stays(attrs: Seq<AttributeSyntax>, field: usize, k: int)
    requires
        0 <= k <= attrs.len(),
        getter_outcome(attrs.take(k), field) != Ok::<bool, ServiceRefusal>(false),
    ensures
        getter_outcome(attrs, field) == getter_outcome(attrs.take(k), field),
    decreases attrs.len() - k,
{
    if k < attrs.len() {
        assert(attrs.take(k + 1).drop_last() == attrs.take(k));
        lemma_getter_settled_stays(attrs, field, k + 1);
    } else {
        assert(attrs.take(k) == attrs);
    }
}

/// Whether each field gets a getter.
fn read_getters(fields: &Vec<FieldSyntax>) -> (read: Result<Vec<bool>, ServiceInputError>)
    ensures
        match (read, fields_outcome(fields@)) {
            (Ok(g), Ok(sg)) => g@ == sg,
            (Err(e), Err(se)) => service_refusal_of(e) == se,
            _ => false,
        },
{
    let mut getters: Vec<bool> = Vec::new();
    let mut f: usize = 0;
    assert(fields@.take(0) =~= Seq::<FieldSyntax>::empty());
    while f < fields.len()
        invariant
            f <= fields.len(),
            fields_outcome(fields@.take(f as int)) == Ok::<Seq<bool>, ServiceRefusal>(getters@),
        decreases fields.len() - f,
    {
        assert(fields@.take(f + 1).drop_last() == fields@.take(f as int));
        assert(fields@.take(f + 1).last() == fields@[f as int]);
        let field = &fields[f];
        let emitter = match &field.name {
            Some(n) => is_spelled(n, "__grove_emitter"),
            None => false,
        };
        let read = if emitter {
            Ok(false)
        } else {
            read_getter(&field.attrs, f)
        };
        match read {
            Ok(g) => getters.push(g),
            Err(e) => {
                proof {
                    lemma_fields_refusal_stays(fields@, f as int + 1);
                }
                return Err(e);
            },
        }
        f = f + 1;
    }
    assert(fields@.take(fields.len() as int) == fields@);
    Ok(getters)
}

proof fn lemma_fields_refusal_stays(fields: Seq<FieldSyntax>, k: int)
    requires
        0 <= k <= fields.len(),
        fields_outcome(fields.take(k)) is Err,
    ensures
        fields_outcome(fields) == fields_outcome(fields.take(k)),
    decreases fields.len() - k,
{
    if k < fields.len() {
        assert(fields.take(k + 1).drop_last() == fields.take(k));
        lemma_fields_refusal_stays(fields, k + 1);
    } else {
        assert(fields.take(k) == fields);
    }
}

/// What `#[grove::service]` makes of a struct read into plain values: whether
/// each field gets a getter and the events it emits, or why it is refused.
pub fn read_service(s: &StructSyntax) -> (read: Result<(Vec<bool>, Vec<String>), ServiceInputError>)
    ensures
        match (read, service_outcome(*s)) {
            (Ok((g, ev)), Ok((sg, sev))) => g@ == sg && texts(ev@) == sev,
            (Err(e), Err(se)) => service_refusal_of(e) == se,
            _ => false,
        },
{
    let events = match read_emits(&s.attrs) {
        Ok(events) => events,
        Err(e) => return Err(e),
    };
    match s.shape {
        StructShape::NotStruct => Err(ServiceInputError::NotStruct),
        StructShape::OtherFields => Err(ServiceInputError::UnnamedFields),
        StructShape::NamedFields => match read_getters(&s.fields) {
            Ok(getters) => Ok((getters, events)),
            Err(e) => Err(e),
        },
    }
}

/// What `#[grove::service]` reads from its input: the struct item, the item
/// as plain values, whether each field gets a getter and the events emitted.
pub struct ServiceInput {
    pub input: DeriveInput,
    pub syntax: StructSyntax,
    pub getters: Vec<bool>,
    pub emits: Vec<String>,
}

/// Parses the tokens that `#[grove::service]` is placed on as an item, reads
/// it into plain values and reads the getters and events from them, as
/// `read_service` states.
pub fn parse_service_struct(item: TokenStream) -> (outcome: Result<ServiceInput, ServiceInputError>)
    ensures
        outcome matches Ok(s) ==> service_outcome(s.syntax) == Ok::<(Seq<bool>, Seq<Seq<char>>), ServiceRefusal>(
            (s.getters@, texts(s.emits@)),
        ),
        outcome matches Err(e) ==> (e is Item || exists|syntax: StructSyntax|
            service_outcome(syntax) == Err::<(Seq<bool>, Seq<Seq<char>>), ServiceRefusal>(service_refusal_of(e))),
{
    let input = match parse_derive_input(item) {
        Ok(input) => input,
        Err(e) => return Err(ServiceInputError::Item(e)),
    };
    let syntax = struct_syntax(&input);
    match read_service(&syntax) {
        Ok((getters, emits)) => Ok(ServiceInput { input, syntax, getters, emits }),
        Err(e) => Err(e),
    }
}

// ============================================================================
// The `Service` derive: `get` and `skip` on fields
// ============================================================================

/// Why reading a field's words for the `Service` derive stopped.
#[derive(Clone, Copy, Debug, PartialEq, Eq, Structural)]
pub enum FieldStop {
    /// Every `#[grove(...)]` attribute was read.
    Complete,
    /// A word other than `get` and `skip` was met.
    Unknown,
    /// An attribute could not be split, or `get` or `skip` was followed by
    /// `= value` or parentheses.
    Syntax,
}

/// Whether a name is spelled `text`.
pub open spec fn is_named(name: Option<String>, text: Seq<char>) -> bool {
    text_of(name) == Some(text)
}

/// The word one item of a field's attribute gives, or why reading stops.
pub open spec fn derive_item(item: MetaSyntax) -> Result<FieldWord, FieldStop> {
    match item {
        MetaSyntax::Word(n) => if is_named(n, "get"@) {
            Ok(FieldWord::Get)
        } else if is_named(n, "skip"@) {
            Ok(FieldWord::Skip)
        } else {
            Err(FieldStop::Unknown)
        },
        MetaSyntax::Group(n) => if is_named(n, "get"@) || is_named(n, "skip"@) {
            Err(FieldStop::Syntax)
        } else {
            Err(FieldStop::Unknown)
        },
        MetaSyntax::Assign(n, _) => if is_named(n, "get"@) || is_named(n, "skip"@) {
            Err(FieldStop::Syntax)
        } else {
            Err(FieldStop::Unknown)
        },
    }
}

/// The words the items of one attribute give, in order, and why reading
/// stopped; an unknown word is kept as `Other`, last.
pub open spec fn derive_items(items: Seq<MetaSyntax>) -> (Seq<FieldWord>, FieldStop)
    decreases items.len(),
{
    if items.len() == 0 {
        (Seq::empty(), FieldStop::Complete)
    } else {
        let (words, stop) = derive_items(items.drop_last());
        if stop != FieldStop::Complete {
            (words, stop)
        } else {
            match derive_item(items.last()) {
                Ok(w) => (words.push(w), FieldStop::Complete),
                Err(FieldStop::Unknown) => (words.push(FieldWord::Other), FieldStop::Unknown),
                Err(s) => (words, s),
            }
        }
    }
}

/// The word lists of a field's `#[grove(...)]` attributes, in order, read up
/// to the first attribute that stops reading, and why it stopped. An
/// attribute stopped by an unknown word keeps its list; one stopped by syntax
/// does not.
pub open spec fn derive_words(attrs: Seq<AttributeSyntax>) -> (Seq<Seq<FieldWord>>, FieldStop)
    decreases attrs.len(),
{
    if attrs.len() == 0 {
        (Seq::empty(), FieldStop::Complete)
    } else {
        let (lists, stop) = derive_words(attrs.drop_last());
        let attr = attrs.last();
        if stop != FieldStop::Complete {
            (lists, stop)
        } else if !is_grove(attr.name) {
            (lists, FieldStop::Complete)
        } else {
            match attr.items {
                Err(_) => (lists, FieldStop::Syntax),
                Ok(items) => {
                    let (words, s) = derive_items(items@);
                    if s == FieldStop::Syntax {
                        (lists, FieldStop::Syntax)
                    } else {
                        (lists.push(words), s)
                    }
                },
            }
        }
    }
}

/// The texts of word lists.
pub open spec fn lists_view(lists: Seq<Vec<FieldWord>>) -> Seq<Seq<FieldWord>> {
    lists.map_values(|l: Vec<FieldWord>| l@)
}

/// Why the `Service` derive refuses a field.
#[derive(Clone, Copy, Debug, PartialEq, Eq, Structural)]
pub enum FieldRefusal {
    /// As `field_getter` refuses the word lists.
    Words(FieldAttrError),
    /// An attribute was refused by its syntax before any said anything.
    Syntax,
}

/// A `field_getter` outcome as a derive outcome.
pub open spec fn lift(outcome: Result<bool, FieldAttrError>) -> Result<bool, FieldRefusal> {
    match outcome {
        Ok(g) => Ok(g),
        Err(e) => Err(FieldRefusal::Words(e)),
    }
}

/// Whether `outcome` is the derive's decision on word lists `words` read up
/// to `stop`: `field_getter`'s decision where an attribute settles it; where
/// none does, a refusal if reading stopped on syntax, else no getter.
pub open spec fn derive_decides(words: Seq<Vec<FieldWord>>, stop: FieldStop, outcome: Result<bool, FieldRefusal>) -> bool {
    &&& (forall|a: int| 0 <= a < words.len() ==> !#[trigger] settles(words, a)) ==> outcome == (if stop
        == FieldStop::Syntax {
        Err::<bool, FieldRefusal>(FieldRefusal::Syntax)
    } else {
        Ok::<bool, FieldRefusal>(false)
    })
    &&& forall|a: int|
        #![trigger settles(words, a)]
        0 <= a < words.len() && settles(words, a) && (forall|b: int|
            0 <= b < a ==> !#[trigger] settles(words, b)) ==> outcome == lift(settled_outcome(words[a]@, a))
}

/// The word one item gives, or why reading stops.
fn read_derive_item(item: &MetaSyntax) -> (read: Result<FieldWord, FieldStop>)
    ensures
        read == derive_item(*item),
{
    let (name, bare) = match item {
        MetaSyntax::Word(n) => (n, true),
        MetaSyntax::Group(n) => (n, false),
        MetaSyntax::Assign(n, _) => (n, false),
    };
    let (get, skip) = match name {
        Some(n) => (is_spelled(n, "get"), is_spelled(n, "skip")),
        None => (false, false),
    };
    if bare && get {
        Ok(FieldWord::Get)
    } else if bare && skip {
        Ok(FieldWord::Skip)
    } else if !bare && (get || skip) {
        Err(FieldStop::Syntax)
    } else {
        Err(FieldStop::Unknown)
    }
}

proof fn lemma_items_stop_stays(items: Seq<MetaSyntax>, k: int)
    requires
        0 <= k <= items.len(),
        derive_items(items.take(k)).1 != FieldStop::Complete,
    ensures
        derive_items(items) == derive_items(items.take(k)),
    decreases items.len() - k,
{
    if k < items.len() {
        assert(items.take(k + 1).drop_last() == items.take(k));
        lemma_items_stop_stays(items, k + 1);
    } else {
        assert(items.take(k) == items);
    }
}

/// The words the items of one attribute give, and why reading stopped.
fn read_derive_items(items: &Vec<MetaSyntax>) -> (read: (Vec<FieldWord>, FieldStop))
    ensures
        (read.0@, read.1) == derive_items(items@),
{
    let mut words: Vec<FieldWord> = Vec::new();
    let mut k: usize = 0;
    assert(items@.take(0) =~= Seq::<MetaSyntax>::empty());
    while k < items.len()
        invariant
            k <= items.len(),
            derive_items(items@.take(k as int)) == (words@, FieldStop::Complete),
        decreases items.len() - k,
    {
        assert(items@.take(k + 1).drop_last() == items@.take(k as int));
        match read_derive_item(&items[k]) {
            Ok(w) => words.push(w),
            Err(stop) => {
                if stop == FieldStop::Unknown {
                    words.push(FieldWord::Other);
                }
                proof {
                    lemma_items_stop_stays(items@, k as int + 1);
                }
                return (words, stop);
            },
        }
        k = k + 1;
    }
    assert(items@.take(items.len() as int) == items@);
    (words, FieldStop::Complete)
}

proof fn lemma_words_stop_stays(attrs: Seq<AttributeSyntax>, k: int)
    requires
        0 <= k <= attrs.len(),
        derive_words(attrs.take(k)).1 != FieldStop::Complete,
    ensures
        derive_words(attrs) == derive_words(attrs.take(k)),
    decreases attrs.len() - k,
{
    if k < attrs.len() {
        assert(attrs.take(k + 1).drop_last() == attrs.take(k));
        lemma_words_stop_stays(attrs, k + 1);
    } else {
        assert(attrs.take(k) == attrs);
    }
}

/// The word lists of a field's attributes, and why reading stopped.
pub fn read_derive_words(attrs: &Vec<AttributeSyntax>) -> (read: (Vec<Vec<FieldWord>>, FieldStop))
    ensures
        (lists_view(read.0@), read.1) == derive_words(attrs@),
{
    let mut lists: Vec<Vec<FieldWord>> = Vec::new();
    let mut j: usize = 0;
    assert(attrs@.take(0) =~= Seq::<AttributeSyntax>::empty());
    assert(lists_view(lists@) =~= Seq::<Seq<FieldWord>>::empty());
    while j < attrs.len()
        invariant
            j <= attrs.len(),
            derive_words(attrs@.take(j as int)) == (lists_view(lists@), FieldStop::Complete),
        decreases attrs.len() - j,
    {
        assert(attrs@.take(j + 1).drop_last() == attrs@.take(j as int));
        assert(attrs@.take(j + 1).last() == attrs@[j as int]);
        let attr = &attrs[j];
        let grove = match &attr.name {
            Some(n) => is_spelled(n, "grove"),
            None => false,
        };
        if grove {
            let stop = match &attr.items {
                Err(_) => FieldStop::Syntax,
                Ok(items) => {
                    let (words, stop) = read_derive_items(items);
                    if stop != FieldStop::Syntax {
                        let ghost before = lists@;
                        lists.push(words);
                        assert(lists_view(lists@) =~= lists_view(before).push(lists@[before.len() as int]@));
                    }
                    stop
                },
            };
            if stop != FieldStop::Complete {
                proof {
                    lemma_words_stop_stays(attrs@, j as int + 1);
                }
                return (lists, stop);
            }
        }
        j = j + 1;
    }
    assert(attrs@.take(attrs.len() as int) == attrs@);
    (lists, FieldStop::Complete)
}

/// The derive's decision on a field's word lists read up to `stop`, made by
/// `field_getter`.
pub fn derive_getter(words: &Vec<Vec<FieldWord>>, stop: FieldStop) -> (outcome: Result<bool, FieldRefusal>)
    ensures
        derive_decides(words@, stop, outcome),
{
    let mut any = false;
    let mut i: usize = 0;
    while i < words.len()
        invariant
            i <= words.len(),
            any == exists|j: int| 0 <= j < i && words@[j]@.len() > 0,
        decreases words.len() - i,
    {
        if words[i].len() > 0 {
            any = true;
        }
        i = i + 1;
    }
    proof {
        assert forall|a: int| 0 <= a < words@.len() && words@[a]@.len() > 0 implies #[trigger] settles(
            words@,
            a,
        ) by {
            let w = words@[a]@[0];
            assert(w == FieldWord::Get || w == FieldWord::Skip || w == FieldWord::Other);
        }
    }
    let decided = field_getter(words);
    let outcome = match decided {
        Ok(true) => Ok(true),
        Ok(false) => if stop == FieldStop::Syntax && !any {
            Err(FieldRefusal::Syntax)
        } else {
            Ok(false)
        },
        Err(e) => Err(FieldRefusal::Words(e)),
    };
    proof {
        if forall|a: int| 0 <= a < words@.len() ==> !#[trigger] settles(words@, a) {
            if any {
                let j = choose|j: int| 0 <= j < words@.len() && words@[j]@.len() > 0;
                assert(settles(words@, j));
            }
        }
        assert forall|a: int|
            #![trigger settles(words@, a)]
            0 <= a < words@.len() && settles(words@, a) && (forall|b: int|
                0 <= b < a ==> !#[trigger] settles(words@, b)) implies outcome == lift(
            settled_outcome(words@[a]@, a),
        ) by {
            assert(decided == settled_outcome(words@[a]@, a));
            assert(words@[a]@.len() > 0);
            assert(any);
        }
    }
    outcome
}

/// Why the input of the `Service` derive was refused.
pub enum DeriveInputError {
    /// `syn` could not parse the tokens as an item.
    Item(syn::Error),
    /// The item is not a struct.
    NotStruct,
    /// The struct's fields are not named.
    UnnamedFields,
    /// Field `field` was refused.
    Field { field: usize, refusal: FieldRefusal },
}

/// What the `Service` derive reads from its input: the struct item, the item
/// as plain values and whether each field gets a getter.
pub struct DeriveServiceInput {
    pub input: DeriveInput,
    pub syntax: StructSyntax,
    pub getters: Vec<bool>,
}

/// Whether `outcome` is the derive's decision on a field.
pub open spec fn field_decides(f: FieldSyntax, outcome: Result<bool, FieldRefusal>) -> bool {
    exists|words: Seq<Vec<FieldWord>>|
        lists_view(words) == derive_words(f.attrs@).0 && derive_decides(words, derive_words(f.attrs@).1, outcome)
}

/// Parses the tokens that the `Service` derive receives as a struct with
/// named fields, reads it into plain values and decides each field's getter
/// from its `get` and `skip` words, in order; the first refused field refuses
/// the struct.
pub fn parse_service_derive(item: TokenStream) -> (outcome: Result<DeriveServiceInput, DeriveInputError>)
    ensures
        outcome matches Ok(d) ==> {
            &&& d.syntax.shape == StructShape::NamedFields
            &&& d.getters@.len() == d.syntax.fields@.len()
            &&& forall|f: int| 0 <= f < d.getters@.len() ==> field_decides(
                d.syntax.fields@[f],
                Ok::<bool, FieldRefusal>(#[trigger] d.getters@[f]),
            )
        },
{
    let input = match parse_derive_input(item) {
        Ok(input) => input,
        Err(e) => return Err(DeriveInputError::Item(e)),
    };
    let syntax = struct_syntax(&input);
    match syntax.shape {
        StructShape::NotStruct => return Err(DeriveInputError::NotStruct),
        StructShape::OtherFields => return Err(DeriveInputError::UnnamedFields),
        StructShape::NamedFields => {},
    }
    let mut getters: Vec<bool> = Vec::new();
    let mut f: usize = 0;
    while f < syntax.fields.len()
        invariant
            f <= syntax.fields.len(),
            getters@.len() == f,
            forall|i: int| 0 <= i < f ==> field_decides(
                syntax.fields@[i],
                Ok::<bool, FieldRefusal>(#[trigger] getters@[i]),
            ),
        decreases syntax.fields.len() - f,
    {
        let (words, stop) = read_derive_words(&syntax.fields[f].attrs);
        match derive_getter(&words, stop) {
            Ok(g) => {
                assert(field_decides(syntax.fields@[f as int], Ok::<bool, FieldRefusal>(g)));
                getters.push(g);
            },
            Err(refusal) => return Err(DeriveInputError::Field { field: f, refusal }),
        }
        f = f + 1;
    }
    Ok(DeriveServiceInput { input, syntax, getters })
}

} // verus!
