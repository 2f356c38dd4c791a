//! The front end of the `#[grove::handlers]` attribute: the impl block that
//! the macro receives, parsed by `syn`, and the grammar of the `#[grove(...)]`
//! words on its methods.
//!
//! `syn` parses the tokens and splits each attribute into its comma-separated
//! items; which of those items the framework accepts, and what each one makes
//! of a method, is decided here.

use crate::handlers::{has_method_word, MethodInfo, MethodWord};
use crate::naming::{pascal_case, to_pascal_case};
use proc_macro2::TokenStream;
use syn::punctuated::Punctuated;
use syn::{Attribute, Expr, FnArg, ImplItem, ImplItemFn, ItemImpl, Meta, Pat};
use vstd::prelude::*;

verus! {

/// `proc_macro2::TokenStream`: the tokens a macro receives.
#[verifier::external_type_specification]
#[verifier::external_body]
pub struct ExTokenStream(TokenStream);

/// `syn::ItemImpl`: a parsed impl block.
#[verifier::external_type_specification]
#[verifier::external_body]
pub struct ExItemImpl(ItemImpl);

/// `syn::ImplItemFn`: a method of a parsed impl block.
#[verifier::external_type_specification]
#[verifier::external_body]
pub struct ExImplItemFn(ImplItemFn);

/// `syn::Attribute`: one `#[...]` attribute.
#[verifier::external_type_specification]
#[verifier::external_body]
pub struct ExAttribute(Attribute);

/// `syn::Meta`: one item inside an attribute's parentheses.
#[verifier::external_type_specification]
#[verifier::external_body]
pub struct ExMeta(Meta);

/// `syn::Expr`: an expression, here the value of a `name = value` item.
#[verifier::external_type_specification]
#[verifier::external_body]
pub struct ExExpr(Expr);

/// `syn::Error`: a parse error with the place it points at.
#[verifier::external_type_specification]
#[verifier::external_body]
pub struct ExSynError(syn::Error);

/// Calls `syn::parse2` for an `ItemImpl`. What the parse gives depends on the
/// tokens, which hold no plain value here, so no clause is stated of it.
#[verifier::external_body]
fn parse_impl_block(tokens: TokenStream) -> (parsed: Result<ItemImpl, syn::Error>) {
    syn::parse2::<ItemImpl>(tokens)
}

/// The number of items in `block`: `block.items.len()`.
#[verifier::external_body]
fn impl_item_count(block: &ItemImpl) -> (count: usize) {
    block.items.len()
}

/// A copy of item `i` of `block` where it is a method; `None` where it is
/// another kind of item or where there is no item `i`.
#[verifier::external_body]
fn impl_method_at(block: &ItemImpl, i: usize) -> (method: Option<ImplItemFn>) {
    match block.items.get(i) {
        Some(ImplItem::Fn(method)) => Some(method.clone()),
        _ => None,
    }
}

/// The method's name, written out by `syn::Ident`'s `to_string`.
#[verifier::external_body]
fn method_name(method: &ImplItemFn) -> (name: String) {
    method.sig.ident.to_string()
}

/// A copy of the method's attributes, in order.
#[verifier::external_body]
fn method_attributes(method: &ImplItemFn) -> (attrs: Vec<Attribute>) {
    method.attrs.clone()
}

/// For each parameter of the method, in order, whether it is a typed
/// parameter whose pattern is a plain name (`self` is not one).
#[verifier::external_body]
fn method_named_params(method: &ImplItemFn) -> (named: Vec<bool>) {
    method.sig.inputs.iter().map(|arg| match arg {
        FnArg::Typed(typed) => match &*typed.pat {
            Pat::Ident(_) => true,
            _ => false,
        },
        FnArg::Receiver(_) => false,
    }).collect()
}

/// The attribute's path where it is a single identifier (`Path::get_ident`),
/// written out.
#[verifier::external_body]
fn attribute_name(attr: &Attribute) -> (name: Option<String>) {
    attr.path().get_ident().map(|ident| ident.to_string())
}

/// Calls `Attribute::parse_args_with` with syn's comma-separated list of
/// `Meta` items, and hands the items out in order. Whether the attribute's
/// tokens parse depends on tokens that hold no plain value here, so no clause
/// is stated of the result.
#[verifier::external_body]
fn attribute_items(attr: &Attribute) -> (items: Result<Vec<Meta>, syn::Error>) {
    attr.parse_args_with(Punctuated::<Meta, syn::token::Comma>::parse_terminated)
        .map(|list| list.into_iter().collect())
}

/// The kind of a `Meta` item, the identifier that names it
/// (`Meta::path` and `Path::get_ident`) and, for `name = value`, a copy of the
/// value.
#[verifier::external_body]
fn meta_parts(meta: &Meta) -> (parts: (MetaKind, Option<String>, Option<Expr>)) {
    let name = meta.path().get_ident().map(|ident| ident.to_string());
    match meta {
        Meta::Path(_) => (MetaKind::Word, name, None),
        Meta::List(_) => (MetaKind::Group, name, None),
        Meta::NameValue(pair) => (MetaKind::Assign, name, Some(pair.value.clone())),
    }
}

/// The value of a `name = value` item as the grammar reads it: a path, with
/// its name where it is a single identifier; an array, with the name of each
/// element that is a single-identifier path; or anything else.
#[verifier::external_body]
fn value_syntax(value: &Expr) -> (syntax: MetaValue) {
    match value {
        Expr::Path(path) => MetaValue::Name(path.path.get_ident().map(|ident| ident.to_string())),
        Expr::Array(list) => MetaValue::Names(list.elems.iter().map(|elem| match elem {
            Expr::Path(path) => path.path.get_ident().map(|ident| ident.to_string()),
            _ => None,
        }).collect()),
        _ => MetaValue::Other,
    }
}

/// The kind of a `Meta` item.
enum MetaKind {
    Word,
    Group,
    Assign,
}

/// A `Meta` item as the grammar reads it.
fn meta_syntax(meta: &Meta) -> (syntax: MetaSyntax) {
    let (kind, name, value) = meta_parts(meta);
    match kind {
        MetaKind::Word => MetaSyntax::Word(name),
        MetaKind::Group => MetaSyntax::Group(name),
        MetaKind::Assign => {
            let value = match value {
                Some(expr) => value_syntax(&expr),
                None => MetaValue::Other,
            };
            MetaSyntax::Assign(name, value)
        },
    }
}

/// The value of a `name = value` item. Each name is there where the path is
/// a single identifier, else `None`.
pub enum MetaValue {
    /// A path: `chat`.
    Name(Option<String>),
    /// An array of paths: `[Started, Stopped]`.
    Names(Vec<Option<String>>),
    /// Any other expression.
    Other,
}

/// One comma-separated item of a `#[grove(...)]` attribute. Each name is the
/// item's path where that path is a single identifier, else `None`.
pub enum MetaSyntax {
    /// A bare path: `command`.
    Word(Option<String>),
    /// A path followed by parentheses: `poll(...)`.
    Group(Option<String>),
    /// `name = value`.
    Assign(Option<String>, MetaValue),
}

/// Why the words of a `#[grove(...)]` attribute were refused.
#[derive(Clone, Copy, Debug, PartialEq, Eq, Structural)]
pub enum WordsError {
    /// `from` without `= field`.
    MissingField,
    /// `from = ...` whose value is not a field name.
    FieldNotIdent,
    /// `= value` after a word other than `from`.
    UnexpectedValue,
    /// Parentheses after a word.
    UnexpectedGroup,
}

/// A name as text.
pub open spec fn text_of(name: Option<String>) -> Option<Seq<char>> {
    match name {
        Some(s) => Some(s@),
        None => None,
    }
}

/// The method word that `name` spells; any other name is `Other`.
pub open spec fn word_named(name: Seq<char>) -> MethodWord {
    if name == "command"@ {
        MethodWord::Command
    } else if name == "poll"@ {
        MethodWord::Poll
    } else if name == "direct"@ {
        MethodWord::Direct
    } else if name == "direct_mut"@ {
        MethodWord::DirectMut
    } else if name == "task"@ {
        MethodWord::Task
    } else {
        MethodWord::Other
    }
}

/// What one item of a `#[grove(...)]` attribute makes of a method: a word,
/// and for `from = field` the field; or why it is refused. A path that is not
/// a single identifier is a word passed over.
pub open spec fn meta_outcome(meta: MetaSyntax) -> Result<(MethodWord, Option<Seq<char>>), WordsError> {
    match meta {
        MetaSyntax::Word(name) => match text_of(name) {
            Some(n) => if n == "from"@ {
                Err(WordsError::MissingField)
            } else {
                Ok((word_named(n), None))
            },
            None => Ok((MethodWord::Other, None)),
        },
        MetaSyntax::Group(_) => Err(WordsError::UnexpectedGroup),
        MetaSyntax::Assign(name, value) => if text_of(name) == Some("from"@) {
            match value {
                MetaValue::Name(Some(field)) => Ok((MethodWord::From, Some(field@))),
                _ => Err(WordsError::FieldNotIdent),
            }
        } else {
            Err(WordsError::UnexpectedValue)
        },
    }
}

/// What the items of one attribute, in order, make of a method: its words in
/// order and the field of the last `from`; or the first refusal.
pub open spec fn words_outcome(metas: Seq<MetaSyntax>) -> Result<(Seq<MethodWord>, Option<Seq<char>>), WordsError>
    decreases metas.len(),
{
    if metas.len() == 0 {
        Ok((Seq::empty(), None))
    } else {
        match words_outcome(metas.drop_last()) {
            Err(e) => Err(e),
            Ok((words, field)) => match meta_outcome(metas.last()) {
                Err(e) => Err(e),
                Ok((word, found)) => Ok((words.push(word), if found is Some { found } else { field })),
            },
        }
    }
}

/// An accepted outcome of the words of an attribute.
pub open spec fn accepted(words: Seq<MethodWord>, field: Option<Seq<char>>) -> Result<(Seq<MethodWord>, Option<Seq<char>>), WordsError> {
    Ok((words, field))
}

/// Whether `name` is spelled `text`.
pub(crate) fn is_spelled(name: &String, text: &str) -> (same: bool)
    ensures
        same == (name@ == text@),
{
    let owned = text.to_owned();
    *name == owned
}

/// The method word that `name` spells.
pub fn word_of_name(name: &String) -> (word: MethodWord)
    ensures
        word == word_named(name@),
{
    if is_spelled(name, "command") {
        MethodWord::Command
    } else if is_spelled(name, "poll") {
        MethodWord::Poll
    } else if is_spelled(name, "direct") {
        MethodWord::Direct
    } else if is_spelled(name, "direct_mut") {
        MethodWord::DirectMut
    } else if is_spelled(name, "task") {
        MethodWord::Task
    } else {
        MethodWord::Other
    }
}

/// What one item of a `#[grove(...)]` attribute makes of a method.
pub fn meta_word(meta: &MetaSyntax) -> (outcome: Result<(MethodWord, Option<String>), WordsError>)
    ensures
        match (outcome, meta_outcome(*meta)) {
            (Ok((w, f)), Ok((sw, sf))) => w == sw && text_of(f) == sf,
            (Err(e), Err(se)) => e == se,
            _ => false,
        },
{
    match meta {
        MetaSyntax::Word(name) => match name {
            Some(n) => if is_spelled(n, "from") {
                Err(WordsError::MissingField)
            } else {
                Ok((word_of_name(n), None))
            },
            None => Ok((MethodWord::Other, None)),
        },
        MetaSyntax::Group(_) => Err(WordsError::UnexpectedGroup),
        MetaSyntax::Assign(name, value) => {
            let is_from = match name {
                Some(n) => is_spelled(n, "from"),
                None => false,
            };
            if is_from {
                match value {
                    MetaValue::Name(Some(field)) => Ok((MethodWord::From, Some(field.clone()))),
                    _ => Err(WordsError::FieldNotIdent),
                }
            } else {
                Err(WordsError::UnexpectedValue)
            }
        },
    }
}

/// What the items of one `#[grove(...)]` attribute, in order, make of a
/// method: its words in order and the field of the last `from`, or the first
/// refusal.
pub fn words_of_metas(metas: &Vec<MetaSyntax>) -> (outcome: Result<(Vec<MethodWord>, Option<String>), WordsError>)
    ensures
        match (outcome, words_outcome(metas@)) {
            (Ok((w, f)), Ok((sw, sf))) => w@ == sw && text_of(f) == sf,
            (Err(e), Err(se)) => e == se,
            _ => false,
        },
{
    let mut words: Vec<MethodWord> = Vec::new();
    let mut field: Option<String> = None;
    let mut k: usize = 0;
    while k < metas.len()
        invariant
            k <= metas.len(),
            words_outcome(metas@.take(k as int)) == accepted(words@, text_of(field)),
        decreases metas.len() - k,
    {
        assert(metas@.take(k + 1).drop_last() == metas@.take(k as int));
        assert(metas@.take(k + 1).last() == metas@[k as int]);
        match meta_word(&metas[k]) {
            Err(e) => {
                proof {
                    lemma_refusal_stays(metas@, k as int + 1);
                }
                return Err(e);
            },
            Ok((word, found)) => {
                words.push(word);
                if found.is_some() {
                    field = found;
                }
            },
        }
        k = k + 1;
    }
    assert(metas@.take(metas.len() as int) == metas@);
    Ok((words, field))
}

/// Once a prefix of the items is refused, so is every longer prefix, with the
/// same refusal.
proof fn lemma_refusal_stays(metas: Seq<MetaSyntax>, k: int)
    requires
        0 <= k <= metas.len(),
        words_outcome(metas.take(k)) is Err,
    ensures
        words_outcome(metas) == words_outcome(metas.take(k)),
    decreases metas.len() - k,
{
    if k < metas.len() {
        assert(metas.take(k + 1).drop_last() == metas.take(k));
        lemma_refusal_stays(metas, k + 1);
    } else {
        assert(metas.take(k) == metas);
    }
}

/// The number of `true` entries in `flags`.
pub open spec fn count_true(flags: Seq<bool>) -> nat
    decreases flags.len(),
{
    if flags.len() == 0 {
        0
    } else {
        count_true(flags.drop_last()) + if flags.last() { 1nat } else { 0nat }
    }
}

/// The number of `true` entries in `flags`: the named parameters of a method.
pub fn count_named(flags: &Vec<bool>) -> (count: usize)
    ensures
        count == count_true(flags@),
{
    let mut count: usize = 0;
    let mut k: usize = 0;
    while k < flags.len()
        invariant
            k <= flags.len(),
            count == count_true(flags@.take(k as int)),
            count <= k,
        decreases flags.len() - k,
    {
        assert(flags@.take(k + 1).drop_last() == flags@.take(k as int));
        if flags[k] {
            count = count + 1;
        }
        k = k + 1;
    }
    assert(flags@.take(flags.len() as int) == flags@);
    count
}

/// Calls `<syn::Error as Clone>::clone`. The error holds no plain value here,
/// so no clause is stated of the copy.
#[verifier::external_body]
pub(crate) fn copy_error(error: &syn::Error) -> (copy: syn::Error) {
    error.clone()
}

// ============================================================================
// The impl block as plain values
// ============================================================================

/// An attribute of a method as the grammar reads it: its name where its path
/// is a single identifier, and its parenthesized items as `syn` splits them
/// (or `syn`'s refusal of them).
pub struct AttributeSyntax {
    pub name: Option<String>,
    pub items: Result<Vec<MetaSyntax>, syn::Error>,
}

/// A method of an impl block as the grammar reads it: its name, its
/// attributes in order, and for each parameter whether it is a plain named
/// one.
pub struct MethodSyntax {
    pub name: String,
    pub attrs: Vec<AttributeSyntax>,
    pub named_params: Vec<bool>,
}

/// Reads an attribute into plain values.
pub(crate) fn attribute_syntax(attr: &Attribute) -> (syntax: AttributeSyntax) {
    let name = attribute_name(attr);
    let items = match attribute_items(attr) {
        Ok(metas) => {
            let mut syntax: Vec<MetaSyntax> = Vec::new();
            for m in 0..metas.len() {
                syntax.push(meta_syntax(&metas[m]));
            }
            Ok(syntax)
        },
        Err(e) => Err(e),
    };
    AttributeSyntax { name, items }
}

/// Reads a method into plain values.
fn method_syntax(method: &ImplItemFn) -> (syntax: MethodSyntax) {
    let attrs = method_attributes(method);
    let mut read: Vec<AttributeSyntax> = Vec::new();
    for j in 0..attrs.len() {
        read.push(attribute_syntax(&attrs[j]));
    }
    MethodSyntax { name: method_name(method), attrs: read, named_params: method_named_params(method) }
}

/// Reads an impl block into plain values: one entry per item of the block, in
/// order, a method for each method item and `None` for any other item.
pub fn block_syntax(block: &ItemImpl) -> (items: Vec<Option<MethodSyntax>>) {
    let count = impl_item_count(block);
    let mut items: Vec<Option<MethodSyntax>> = Vec::new();
    for i in 0..count {
        match impl_method_at(block, i) {
            Some(method) => items.push(Some(method_syntax(&method))),
            None => items.push(None),
        }
    }
    items
}

// ============================================================================
// Reading the methods of a `#[grove::handlers]` block
// ============================================================================

/// Why the input of `#[grove::handlers]` was refused.
pub enum HandlersInputError {
    /// `syn` could not parse the tokens as an impl block.
    Block(syn::Error),
    /// `syn` could not split the items of a `#[grove(...)]` attribute of
    /// method `method` (counted among the block's items).
    Attribute { method: usize, cause: syn::Error },
    /// The `#[grove(...)]` words of method `method` were refused.
    Words { method: usize, error: WordsError },
}

/// A refusal without the error `syn` reported, for the contracts.
#[derive(Clone, Copy, Debug, PartialEq, Eq, Structural)]
pub enum Refusal {
    Block,
    Attribute(usize),
    Words(usize, WordsError),
}

/// The refusal that an error reports.
pub open spec fn refusal_of(error: HandlersInputError) -> Refusal {
    match error {
        HandlersInputError::Block(_) => Refusal::Block,
        HandlersInputError::Attribute { method, .. } => Refusal::Attribute(method),
        HandlersInputError::Words { method, error } => Refusal::Words(method, error),
    }
}

/// The words a method has read so far, with its last `from` field.
pub open spec fn read_so_far(words: Seq<MethodWord>, field: Option<Seq<char>>) -> Result<(Seq<MethodWord>, Option<Seq<char>>), Refusal> {
    Ok((words, field))
}

/// Whether an attribute name is `grove`.
pub open spec fn is_grove(name: Option<String>) -> bool {
    text_of(name) == Some("grove"@)
}

/// What one attribute of method `method` gives: nothing unless it is a
/// `#[grove(...)]` attribute; else its words and last `from` field, or the
/// refusal of its items.
pub open spec fn attribute_outcome(attr: AttributeSyntax, method: usize) -> Result<(Seq<MethodWord>, Option<Seq<char>>), Refusal> {
    if !is_grove(attr.name) {
        read_so_far(Seq::empty(), None)
    } else {
        match attr.items {
            Err(_) => Err(Refusal::Attribute(method)),
            Ok(metas) => match words_outcome(metas@) {
                Err(e) => Err(Refusal::Words(method, e)),
                Ok((words, field)) => read_so_far(words, field),
            },
        }
    }
}

/// What the attributes of method `method` give, in order: the words of all
/// its `#[grove(...)]` attributes, concatenated, and the last `from` field; or
/// the first refusal.
pub open spec fn method_outcome(attrs: Seq<AttributeSyntax>, method: usize) -> Result<(Seq<MethodWord>, Option<Seq<char>>), Refusal>
    decreases attrs.len(),
{
    if attrs.len() == 0 {
        read_so_far(Seq::empty(), None)
    } else {
        match method_outcome(attrs.drop_last(), method) {
            Err(e) => Err(e),
            Ok((words, field)) => match attribute_outcome(attrs.last(), method) {
                Err(e) => Err(e),
                Ok((more, found)) => read_so_far(words + more, if found is Some { found } else { field }),
            },
        }
    }
}

/// A method as read, for the contracts: its name, words, number of named
/// parameters and `from` field.
pub type MethodView = (Seq<char>, Seq<MethodWord>, nat, Option<Seq<char>>);

/// The view of a method as read.
pub open spec fn method_view(m: HandlerMethod) -> MethodView {
    (m.info.name@, m.info.words@, m.info.param_count as nat, text_of(m.from_field))
}

/// What the items of a block give, in order: each method item read into its
/// name, words, named parameter count and `from` field, other items passed
/// over; or the first refusal.
pub open spec fn methods_outcome(items: Seq<Option<MethodSyntax>>) -> Result<Seq<MethodView>, Refusal>
    decreases items.len(),
{
    if items.len() == 0 {
        Ok(Seq::empty())
    } else {
        match methods_outcome(items.drop_last()) {
            Err(e) => Err(e),
            Ok(read) => match items.last() {
                None => Ok(read),
                Some(m) => match method_outcome(m.attrs@, (items.len() - 1) as usize) {
                    Err(e) => Err(e),
                    Ok((words, field)) => Ok(read.push((m.name@, words, count_true(m.named_params@), field))),
                },
            },
        }
    }
}

/// A method of a `#[grove::handlers]` block as the generator sees it: what the
/// plan needs, and the field of its last `from = field`.
pub struct HandlerMethod {
    pub info: MethodInfo,
    pub from_field: Option<String>,
}

/// What one attribute of method `method` gives.
fn read_attribute(attr: &AttributeSyntax, method: usize) -> (outcome: Result<(Vec<MethodWord>, Option<String>), HandlersInputError>)
    ensures
        match (outcome, attribute_outcome(*attr, method)) {
            (Ok((w, f)), Ok((sw, sf))) => w@ == sw && text_of(f) == sf,
            (Err(e), Err(se)) => refusal_of(e) == se,
            _ => false,
        },
{
    let grove = match &attr.name {
        Some(n) => is_spelled(n, "grove"),
        None => false,
    };
    if !grove {
        return Ok((Vec::new(), None));
    }
    match &attr.items {
        Err(e) => Err(HandlersInputError::Attribute { method, cause: copy_error(e) }),
        Ok(metas) => match words_of_metas(metas) {
            Err(error) => Err(HandlersInputError::Words { method, error }),
            Ok(read) => Ok(read),
        },
    }
}

/// What the attributes of method `method` give.
fn read_method(attrs: &Vec<AttributeSyntax>, method: usize) -> (outcome: Result<(Vec<MethodWord>, Option<String>), HandlersInputError>)
    ensures
        match (outcome, method_outcome(attrs@, method)) {
            (Ok((w, f)), Ok((sw, sf))) => w@ == sw && text_of(f) == sf,
            (Err(e), Err(se)) => refusal_of(e) == se,
            _ => false,
        },
{
    let mut words: Vec<MethodWord> = Vec::new();
    let mut field: Option<String> = None;
    let mut j: usize = 0;
    while j < attrs.len()
        invariant
            j <= attrs.len(),
            method_outcome(attrs@.take(j as int), method) == read_so_far(words@, text_of(field)),
        decreases attrs.len() - j,
    {
        assert(attrs@.take(j + 1).drop_last() == attrs@.take(j as int));
        assert(attrs@.take(j + 1).last() == attrs@[j as int]);
        match read_attribute(&attrs[j], method) {
            Err(e) => {
                proof {
                    lemma_method_refusal_stays(attrs@, method, j as int + 1);
                }
                return Err(e);
            },
            Ok((more, found)) => {
                let mut more = more;
                words.append(&mut more);
                if found.is_some() {
                    field = found;
                }
            },
        }
        j = j + 1;
    }
    assert(attrs@.take(attrs.len() as int) == attrs@);
    Ok((words, field))
}

/// Once a prefix of a method's attributes is refused, so are all of them.
proof fn lemma_method_refusal_stays(attrs: Seq<AttributeSyntax>, method: usize, k: int)
    requires
        0 <= k <= attrs.len(),
        method_outcome(attrs.take(k), method) is Err,
    ensures
        method_outcome(attrs, method) == method_outcome(attrs.take(k), method),
    decreases attrs.len() - k,
{
    if k < attrs.len() {
        assert(attrs.take(k + 1).drop_last() == attrs.take(k));
        lemma_method_refusal_stays(attrs, method, k + 1);
    } else {
        assert(attrs.take(k) == attrs);
    }
}

/// Once a prefix of a block's items is refused, so are all of them.
proof fn lemma_block_refusal_stays(items: Seq<Option<MethodSyntax>>, k: int)
    requires
        0 <= k <= items.len(),
        methods_outcome(items.take(k)) is Err,
    ensures
        methods_outcome(items) == methods_outcome(items.take(k)),
    decreases items.len() - k,
{
    if k < items.len() {
        assert(items.take(k + 1).drop_last() == items.take(k));
        lemma_block_refusal_stays(items, k + 1);
    } else {
        assert(items.take(k) == items);
    }
}

/// Reads the methods of a block from its items: each method item, in order,
/// with its name, the words of all its `#[grove(...)]` attributes, the field
/// of its last `from = field` and the number of its named parameters; other
/// items are passed over. The first refused attribute refuses the block.
pub fn read_methods(items: &Vec<Option<MethodSyntax>>) -> (outcome: Result<Vec<HandlerMethod>, HandlersInputError>)
    ensures
        match (outcome, methods_outcome(items@)) {
            (Ok(methods), Ok(read)) => methods@.map_values(|m: HandlerMethod| method_view(m)) == read,
            (Err(e), Err(se)) => refusal_of(e) == se,
            _ => false,
        },
{
    let mut methods: Vec<HandlerMethod> = Vec::new();
    let mut i: usize = 0;
    assert(items@.take(0) =~= Seq::<Option<MethodSyntax>>::empty());
    assert(methods@.map_values(|m: HandlerMethod| method_view(m)) =~= Seq::<MethodView>::empty());
    while i < items.len()
        invariant
            i <= items.len(),
            methods_outcome(items@.take(i as int)) == Ok::<Seq<MethodView>, Refusal>(
                methods@.map_values(|m: HandlerMethod| method_view(m)),
            ),
        decreases items.len() - i,
    {
        assert(items@.take(i + 1).drop_last() == items@.take(i as int));
        assert(items@.take(i + 1).last() == items@[i as int]);
        match &items[i] {
            None => {},
            Some(m) => {
                let (words, from_field) = match read_method(&m.attrs, i) {
                    Ok(read) => read,
                    Err(e) => {
                        proof {
                            lemma_block_refusal_stays(items@, i as int + 1);
                        }
                        return Err(e);
                    },
                };
                let param_count = count_named(&m.named_params);
                let ghost before = methods@;
                methods.push(HandlerMethod {
                    info: MethodInfo { name: m.name.clone(), words, param_count },
                    from_field,
                });
                assert(methods@.map_values(|h: HandlerMethod| method_view(h)) =~= before.map_values(
                    |h: HandlerMethod| method_view(h),
                ).push(method_view(methods@[before.len() as int])));
            },
        }
        i = i + 1;
    }
    assert(items@.take(items.len() as int) == items@);
    Ok(methods)
}

/// What `#[grove::handlers]` reads from its input: the impl block, the block
/// as plain values (one entry per item, in order) and its methods.
pub struct HandlersInput {
    pub block: ItemImpl,
    pub syntax: Vec<Option<MethodSyntax>>,
    pub methods: Vec<HandlerMethod>,
}

/// Parses the tokens that `#[grove::handlers]` is placed on as an impl block,
/// reads the block into plain values and reads its methods from them, as
/// `read_methods` states.
pub fn parse_handlers_block(item: TokenStream) -> (outcome: Result<HandlersInput, HandlersInputError>)
    ensures
        outcome matches Ok(input) ==> methods_outcome(input.syntax@) == Ok::<Seq<MethodView>, Refusal>(
            input.methods@.map_values(|m: HandlerMethod| method_view(m)),
        ),
        outcome matches Ok(input) ==> forall|m: int| 0 <= m < input.methods@.len() ==>
            ((#[trigger] input.methods@[m]).from_field is Some <==> has_method_word(
                input.methods@[m].info.words@,
                MethodWord::From,
            )),
        outcome matches Err(e) ==> (e is Block || exists|syntax: Seq<Option<MethodSyntax>>|
            methods_outcome(syntax) == Err::<Seq<MethodView>, Refusal>(refusal_of(e))),
{
    let block = match parse_impl_block(item) {
        Ok(block) => block,
        Err(e) => return Err(HandlersInputError::Block(e)),
    };
    let syntax = block_syntax(&block);
    match read_methods(&syntax) {
        Ok(methods) => {
            proof {
                law_from_field_marks_from_word(syntax@);
                assert forall|m: int| 0 <= m < methods@.len() implies
                    ((#[trigger] methods@[m]).from_field is Some <==> has_method_word(
                        methods@[m].info.words@,
                        MethodWord::From,
                    )) by {
                    assert(methods@.map_values(|h: HandlerMethod| method_view(h))[m] == method_view(methods@[m]));
                }
            }
            Ok(HandlersInput { block, syntax, methods })
        },
        Err(e) => Err(e),
    }
}

/// Whether `word` occurs in `a + b`.
proof fn lemma_has_word_append(a: Seq<MethodWord>, b: Seq<MethodWord>, word: MethodWord)
    ensures
        has_method_word(a + b, word) == (has_method_word(a, word) || has_method_word(b, word)),
{
    if has_method_word(a, word) {
        let k = choose|k: int| 0 <= k < a.len() && a[k] == word;
        assert((a + b)[k] == word);
    }
    if has_method_word(b, word) {
        let k = choose|k: int| 0 <= k < b.len() && b[k] == word;
        assert((a + b)[a.len() + k] == word);
    }
    if has_method_word(a + b, word) {
        let k = choose|k: int| 0 <= k < (a + b).len() && (a + b)[k] == word;
        if k < a.len() {
            assert(a[k] == word);
        } else {
            assert(b[k - a.len()] == word);
        }
    }
}

/// In the words of an accepted attribute, a field is found exactly when a
/// `from` word is.
proof fn lemma_words_field(metas: Seq<MetaSyntax>)
    ensures
        words_outcome(metas) matches Ok((words, field)) ==> (field is Some <==> has_method_word(words, MethodWord::From)),
    decreases metas.len(),
{
    if metas.len() > 0 {
        lemma_words_field(metas.drop_last());
        if let Ok((words, field)) = words_outcome(metas.drop_last()) {
            if let Ok((word, found)) = meta_outcome(metas.last()) {
                lemma_has_word_append(words, seq![word], MethodWord::From);
                assert(words.push(word) == words + seq![word]);
                if word == MethodWord::From {
                    assert(seq![word][0] == MethodWord::From);
                }
                if has_method_word(seq![word], MethodWord::From) {
                    let k = choose|k: int| 0 <= k < 1 && seq![word][k] == MethodWord::From;
                    assert(seq![word][k] == word);
                }
            }
        }
    } else {
        assert(!has_method_word(Seq::<MethodWord>::empty(), MethodWord::From));
    }
}

/// In the words a method's attributes give, a field is found exactly when a
/// `from` word is.
proof fn lemma_method_field(attrs: Seq<AttributeSyntax>, method: usize)
    ensures
        method_outcome(attrs, method) matches Ok((words, field)) ==> (field is Some <==> has_method_word(words, MethodWord::From)),
    decreases attrs.len(),
{
    if attrs.len() > 0 {
        lemma_method_field(attrs.drop_last(), method);
        if let Ok(items) = attrs.last().items {
            lemma_words_field(items@);
        }
        if let Ok((words, field)) = method_outcome(attrs.drop_last(), method) {
            if let Ok((more, found)) = attribute_outcome(attrs.last(), method) {
                lemma_has_word_append(words, more, MethodWord::From);
                if !is_grove(attrs.last().name) {
                    assert(!has_method_word(more, MethodWord::From));
                }
            }
        }
    } else {
        assert(!has_method_word(Seq::<MethodWord>::empty(), MethodWord::From));
    }
}

/// Every method read from a `#[grove::handlers]` block has a `from` field
/// exactly when its words hold `from`: an event handler always knows the
/// field it subscribes to.
pub proof fn law_from_field_marks_from_word(items: Seq<Option<MethodSyntax>>)
    ensures
        methods_outcome(items) matches Ok(read) ==> forall|m: int| 0 <= m < read.len() ==>
            ((#[trigger] read[m]).3 is Some <==> has_method_word(read[m].1, MethodWord::From)),
    decreases items.len(),
{
    if items.len() > 0 {
        law_from_field_marks_from_word(items.drop_last());
        if let Some(m) = items.last() {
            lemma_method_field(m.attrs@, (items.len() - 1) as usize);
        }
    }
}

// ============================================================================
// Reading the commands of a `#[grove::commands]` block
// ============================================================================

/// Whether an attribute item is named `command`, whatever follows the name.
pub open spec fn names_command(item: MetaSyntax) -> bool {
    match item {
        MetaSyntax::Word(name) => text_of(name) == Some("command"@),
        MetaSyntax::Group(name) => text_of(name) == Some("command"@),
        MetaSyntax::Assign(name, _) => text_of(name) == Some("command"@),
    }
}

/// Whether an attribute is a `#[grove(...)]` attribute, split by `syn`, with
/// an item named `command`. An attribute that `syn` cannot split says nothing.
pub open spec fn attribute_marks_command(attr: AttributeSyntax) -> bool {
    is_grove(attr.name) && match attr.items {
        Ok(items) => exists|k: int| 0 <= k < items@.len() && names_command(items@[k]),
        Err(_) => false,
    }
}

/// Whether one of a method's attributes marks it as a command.
pub open spec fn marks_command(m: MethodSyntax) -> bool {
    exists|j: int| 0 <= j < m.attrs@.len() && attribute_marks_command(m.attrs@[j])
}

/// The position of the first `true` of `flags`, if any.
pub open spec fn first_true(flags: Seq<bool>) -> Option<int>
    decreases flags.len(),
{
    if flags.len() == 0 {
        None
    } else {
        match first_true(flags.drop_last()) {
            Some(k) => Some(k),
            None => if flags.last() { Some(flags.len() - 1) } else { None },
        }
    }
}

/// A command of a `#[grove::commands]` block: the item it stands at, the
/// method's name, the PascalCase variant and the position among the method's
/// parameters of the one the variant carries (the first plain named one).
pub struct CommandMethod {
    pub item: usize,
    pub name: String,
    pub variant: String,
    pub param: Option<usize>,
}

/// A command as read, for the contracts.
pub type CommandView = (int, Seq<char>, Seq<char>, Option<int>);

/// The view of a command as read.
pub open spec fn command_view(c: CommandMethod) -> CommandView {
    (c.item as int, c.name@, c.variant@, match c.param {
        Some(k) => Some(k as int),
        None => None,
    })
}

/// The commands of a block's items, in order: each method item marked as a
/// command, with its name, `pascal_case` of it and its first named parameter.
pub open spec fn commands_of(items: Seq<Option<MethodSyntax>>) -> Seq<CommandView>
    decreases items.len(),
{
    if items.len() == 0 {
        Seq::empty()
    } else {
        let before = commands_of(items.drop_last());
        match items.last() {
            Some(m) => if marks_command(m) {
                before.push((items.len() - 1, m.name@, pascal_case(m.name@), first_true(m.named_params@)))
            } else {
                before
            },
            None => before,
        }
    }
}

/// Whether an attribute marks its method as a command.
fn attribute_is_command(attr: &AttributeSyntax) -> (marks: bool)
    ensures
        marks == attribute_marks_command(*attr),
{
    let grove = match &attr.name {
        Some(n) => is_spelled(n, "grove"),
        None => false,
    };
    if !grove {
        return false;
    }
    match &attr.items {
        Err(_) => false,
        Ok(items) => {
            let mut k: usize = 0;
            while k < items.len()
                invariant
                    k <= items.len(),
                    is_grove(attr.name),
                    attr.items == Ok::<Vec<MetaSyntax>, syn::Error>(*items),
                    forall|i: int| 0 <= i < k ==> !names_command(items@[i]),
                decreases items.len() - k,
            {
                let name = match &items[k] {
                    MetaSyntax::Word(name) => name,
                    MetaSyntax::Group(name) => name,
                    MetaSyntax::Assign(name, _) => name,
                };
                let command = match name {
                    Some(n) => is_spelled(n, "command"),
                    None => false,
                };
                if command {
                    assert(names_command(items@[k as int]));
                    assert(attr.items is Ok);
                    assert(attr.items->Ok_0 == *items);
                    assert(names_command(attr.items->Ok_0@[k as int]));
                    assert(is_grove(attr.name));
                    return true;
                }
                k = k + 1;
            }
            false
        },
    }
}

/// Whether a method is marked as a command.
fn method_is_command(m: &MethodSyntax) -> (marks: bool)
    ensures
        marks == marks_command(*m),
{
    let mut j: usize = 0;
    while j < m.attrs.len()
        invariant
            j <= m.attrs.len(),
            forall|i: int| 0 <= i < j ==> !attribute_marks_command(m.attrs@[i]),
        decreases m.attrs.len() - j,
    {
        if attribute_is_command(&m.attrs[j]) {
            assert(attribute_marks_command(m.attrs@[j as int]));
            return true;
        }
        j = j + 1;
    }
    false
}

/// The position of the first `true` of `flags`, if any.
pub fn first_named(flags: &Vec<bool>) -> (first: Option<usize>)
    ensures
        match first {
            Some(k) => first_true(flags@) == Some(k as int),
            None => first_true(flags@) is None,
        },
{
    let mut k: usize = 0;
    assert(flags@.take(0) =~= Seq::<bool>::empty());
    while k < flags.len()
        invariant
            k <= flags.len(),
            first_true(flags@.take(k as int)) is None,
        decreases flags.len() - k,
    {
        assert(flags@.take(k + 1).drop_last() == flags@.take(k as int));
        if flags[k] {
            proof {
                lemma_first_true_stays(flags@, k as int + 1);
            }
            return Some(k);
        }
        k = k + 1;
    }
    assert(flags@.take(flags.len() as int) == flags@);
    None
}

proof fn lemma_first_true_stays(flags: Seq<bool>, k: int)
    requires
        0 <= k <= flags.len(),
        first_true(flags.take(k)) is Some,
    ensures
        first_true(flags) == first_true(flags.take(k)),
    decreases flags.len() - k,
{
    if k < flags.len() {
        assert(flags.take(k + 1).drop_last() == flags.take(k));
        lemma_first_true_stays(flags, k + 1);
    } else {
        assert(flags.take(k) == flags);
    }
}

/// The commands of a block's items, in order.
pub fn read_commands(items: &Vec<Option<MethodSyntax>>) -> (commands: Vec<CommandMethod>)
    ensures
        commands@.map_values(|c: CommandMethod| command_view(c)) == commands_of(items@),
{
    let mut commands: Vec<CommandMethod> = Vec::new();
    let mut i: usize = 0;
    assert(items@.take(0) =~= Seq::<Option<MethodSyntax>>::empty());
    assert(commands@.map_values(|c: CommandMethod| command_view(c)) =~= Seq::<CommandView>::empty());
    while i < items.len()
        invariant
            i <= items.len(),
            commands@.map_values(|c: CommandMethod| command_view(c)) == commands_of(items@.take(i as int)),
        decreases items.len() - i,
    {
        assert(items@.take(i + 1).drop_last() == items@.take(i as int));
        assert(items@.take(i + 1).last() == items@[i as int]);
        if let Some(m) = &items[i] {
            if method_is_command(m) {
                let ghost before = commands@;
                commands.push(CommandMethod {
                    item: i,
                    name: m.name.clone(),
                    variant: to_pascal_case(m.name.as_str()),
                    param: first_named(&m.named_params),
                });
                assert(commands@.map_values(|c: CommandMethod| command_view(c)) =~= before.map_values(
                    |c: CommandMethod| command_view(c),
                ).push(command_view(commands@[before.len() as int])));
            }
        }
        i = i + 1;
    }
    assert(items@.take(items.len() as int) == items@);
    commands
}

/// Why the input of `#[grove::commands]` was refused.
pub enum CommandsInputError {
    /// `syn` could not parse the tokens as an impl block.
    Block(syn::Error),
    /// No method of `block` is marked as a command.
    NoCommands { block: ItemImpl },
}

/// What `#[grove::commands]` reads from its input: the impl block, the block
/// as plain values (one entry per item, in order) and its commands.
pub struct CommandsInput {
    pub block: ItemImpl,
    pub syntax: Vec<Option<MethodSyntax>>,
    pub commands: Vec<CommandMethod>,
}

/// Parses the tokens that `#[grove::commands]` is placed on as an impl block,
/// reads the block into plain values and finds its commands, as
/// `read_commands` states; a block without commands is refused.
pub fn parse_commands_block(item: TokenStream) -> (outcome: Result<CommandsInput, CommandsInputError>)
    ensures
        outcome matches Ok(input) ==> input.commands@.map_values(|c: CommandMethod| command_view(c))
            == commands_of(input.syntax@) && input.commands@.len() > 0,
        outcome matches Err(e) ==> (e is Block || exists|syntax: Seq<Option<MethodSyntax>>|
            commands_of(syntax).len() == 0),
{
    let block = match parse_impl_block(item) {
        Ok(block) => block,
        Err(e) => return Err(CommandsInputError::Block(e)),
    };
    let syntax = block_syntax(&block);
    let commands = read_commands(&syntax);
    if commands.len() == 0 {
        assert(commands_of(syntax@).len() == 0);
        return Err(CommandsInputError::NoCommands { block });
    }
    Ok(CommandsInput { block, syntax, commands })
}

} // verus!
