use grove::handlers::{FieldAttrError, FieldWord};
use grove::service_input::{
    derive_getter, parse_service_derive, parse_service_struct, parse_struct_item, DeriveInputError, EmitsError,
    FieldRefusal, FieldStop, ServiceInputError,
};
use proc_macro2::TokenStream;

fn tokens(text: &str) -> TokenStream {
    text.parse().expect("test input tokenizes")
}

fn refusal(text: &str) -> &'static str {
    match parse_service_struct(tokens(text)) {
        Ok(_) => "accepted",
        Err(ServiceInputError::Item(_)) => "item",
        Err(ServiceInputError::StructAttribute(_)) => "struct attribute",
        Err(ServiceInputError::Emits(EmitsError::MissingList)) => "missing list",
        Err(ServiceInputError::Emits(EmitsError::NameNotIdent)) => "name not ident",
        Err(ServiceInputError::Emits(EmitsError::UnexpectedItem)) => "unexpected item",
        Err(ServiceInputError::NotStruct) => "not struct",
        Err(ServiceInputError::UnnamedFields) => "unnamed fields",
        Err(ServiceInputError::FieldAttribute { .. }) => "field attribute",
        Err(ServiceInputError::FieldWords { .. }) => "field words",
    }
}

#[test]
fn service_struct_events_and_getters() {
    let input = tokens(
        "#[derive(Clone)]
        #[grove(emits = [Started, Stopped,])]
        #[grove(emits = [Failed])]
        pub struct Chat {
            #[grove(get)]
            count: u32,
            #[doc = \"not a getter\"]
            #[grove(default)]
            name: String,
            #[grove(default)]
            #[grove(get)]
            limit: usize,
        }",
    );
    let service = match parse_service_struct(input) {
        Ok(service) => service,
        Err(_) => panic!("struct should be accepted"),
    };
    assert_eq!(service.emits, vec!["Started", "Stopped", "Failed"]);
    assert_eq!(service.getters, vec![true, false, true]);
    assert_eq!(service.syntax.fields.len(), 3);
}

#[test]
fn service_struct_refusals() {
    assert_eq!(refusal("fn f() {}"), "item");
    assert_eq!(refusal("#[grove(emits)] struct S { a: u8 }"), "missing list");
    assert_eq!(refusal("#[grove(emits = Started)] struct S { a: u8 }"), "missing list");
    assert_eq!(refusal("#[grove(emits = [a::B])] struct S { a: u8 }"), "name not ident");
    assert_eq!(refusal("#[grove(other = 1)] struct S { a: u8 }"), "unexpected item");
    assert_eq!(refusal("#[grove(emits = [A],,)] struct S { a: u8 }"), "struct attribute");
    assert_eq!(refusal("enum E { A }"), "not struct");
    assert_eq!(refusal("struct S(u8);"), "unnamed fields");
    assert_eq!(refusal("struct S { #[grove(get = 1)] a: u8 }"), "field words");
    assert_eq!(refusal("struct S { #[grove(get,,)] a: u8 }"), "field attribute");
    // the first attribute with `get` settles the field; later ones are not read
    assert_eq!(refusal("struct S { #[grove(get)] #[grove(get = 1)] a: u8 }"), "accepted");
}

#[test]
fn struct_item_parses() {
    assert!(parse_struct_item(tokens("struct S { a: u8 }")).is_ok());
    assert!(parse_struct_item(tokens("impl S {}")).is_err());
}

fn derive_refusal(text: &str) -> Option<(usize, FieldRefusal)> {
    match parse_service_derive(tokens(text)) {
        Err(DeriveInputError::Field { field, refusal }) => Some((field, refusal)),
        Ok(_) => None,
        Err(_) => panic!("unexpected refusal"),
    }
}

#[test]
fn service_derive_decides_getters() {
    let input = tokens(
        "struct Chat {
            #[grove(get)]
            count: u32,
            #[grove(skip)]
            handle: Other,
            #[grove()]
            #[grove(get)]
            name: String,
            plain: u8,
        }",
    );
    let service = match parse_service_derive(input) {
        Ok(service) => service,
        Err(_) => panic!("struct should be accepted"),
    };
    assert_eq!(service.getters, vec![true, false, true, false]);
}

#[test]
fn service_derive_refusals() {
    assert_eq!(
        derive_refusal("struct S { a: u8, #[grove(get, foo)] b: u8 }"),
        Some((1, FieldRefusal::Words(FieldAttrError::UnknownWord { attr: 0 })))
    );
    assert_eq!(
        derive_refusal("struct S { #[grove(get, skip)] a: u8 }"),
        Some((0, FieldRefusal::Words(FieldAttrError::GetAndSkip { attr: 0 })))
    );
    assert_eq!(derive_refusal("struct S { #[grove(get = 1)] a: u8 }"), Some((0, FieldRefusal::Syntax)));
    // an earlier attribute that settles the field wins over a later syntax error
    assert_eq!(derive_refusal("struct S { #[grove(skip)] #[grove(get = 1)] a: u8 }"), None);
    assert!(matches!(parse_service_derive(tokens("enum E { A }")), Err(DeriveInputError::NotStruct)));
    assert!(matches!(parse_service_derive(tokens("struct S(u8);")), Err(DeriveInputError::UnnamedFields)));
}

#[test]
fn derive_getter_combines_words_and_stop() {
    assert_eq!(derive_getter(&vec![vec![]], FieldStop::Syntax), Err(FieldRefusal::Syntax));
    assert_eq!(derive_getter(&vec![vec![]], FieldStop::Complete), Ok(false));
    assert_eq!(derive_getter(&vec![vec![FieldWord::Get]], FieldStop::Syntax), Ok(true));
}
