use grove::handlers::MethodWord;
use grove::syntax::{
    first_named, parse_commands_block, CommandsInputError,
    count_named, meta_word, parse_handlers_block, word_of_name, words_of_metas, HandlersInputError,
    MetaSyntax, MetaValue, WordsError,
};
use proc_macro2::TokenStream;

fn tokens(text: &str) -> TokenStream {
    text.parse().expect("test input tokenizes")
}

fn name(text: &str) -> Option<String> {
    Some(text.to_string())
}

fn words_error(text: &str) -> WordsError {
    match parse_handlers_block(tokens(text)) {
        Err(HandlersInputError::Words { error, .. }) => error,
        Err(HandlersInputError::Block(err)) => panic!("unexpected syntax error: {}", err),
        Err(HandlersInputError::Attribute { cause, .. }) => panic!("unexpected syntax error: {}", cause),
        Ok(_) => panic!("input was accepted"),
    }
}

#[test]
fn handlers_block_methods_are_read_in_order() {
    let input = tokens(
        "impl Chat {
            const LIMIT: usize = 3;
            #[grove(command)]
            async fn send(&mut self, text: String, urgent: bool) {}
            #[doc = \"hidden\"]
            #[grove(from = feed)]
            #[grove(direct)]
            fn on_post(&mut self, post: Post) {}
            fn helper(&self) {}
        }",
    );
    let methods = match parse_handlers_block(input) {
        Ok(parsed) => parsed.methods,
        Err(_) => panic!("block should parse"),
    };
    assert_eq!(methods.len(), 3);
    assert_eq!(methods[0].info.name, "send");
    assert_eq!(methods[0].info.words, vec![MethodWord::Command]);
    assert_eq!(methods[0].info.param_count, 2);
    assert_eq!(methods[0].from_field, None);
    assert_eq!(methods[1].info.name, "on_post");
    assert_eq!(methods[1].info.words, vec![MethodWord::From, MethodWord::Direct]);
    assert_eq!(methods[1].info.param_count, 1);
    assert_eq!(methods[1].from_field, name("feed"));
    assert_eq!(methods[2].info.name, "helper");
    assert!(methods[2].info.words.is_empty());
    assert_eq!(methods[2].info.param_count, 0);
}

#[test]
fn handlers_block_that_is_not_an_impl_is_a_syntax_error() {
    assert!(matches!(
        parse_handlers_block(tokens("struct Chat;")),
        Err(HandlersInputError::Block(_))
    ));
}

#[test]
fn handlers_block_refuses_misused_words() {
    let block = |attr: &str| format!("impl Chat {{ #[grove({})] fn m(&self) {{}} }}", attr);
    assert_eq!(words_error(&block("from")), WordsError::MissingField);
    assert_eq!(words_error(&block("from = a::b")), WordsError::FieldNotIdent);
    assert_eq!(words_error(&block("command = 1")), WordsError::UnexpectedValue);
    assert_eq!(words_error(&block("poll(x)")), WordsError::UnexpectedGroup);
}

#[test]
fn words_name_methods() {
    assert_eq!(word_of_name(&"command".to_string()), MethodWord::Command);
    assert_eq!(word_of_name(&"poll".to_string()), MethodWord::Poll);
    assert_eq!(word_of_name(&"direct".to_string()), MethodWord::Direct);
    assert_eq!(word_of_name(&"direct_mut".to_string()), MethodWord::DirectMut);
    assert_eq!(word_of_name(&"task".to_string()), MethodWord::Task);
    assert_eq!(word_of_name(&"get".to_string()), MethodWord::Other);
}

#[test]
fn meta_items_give_words_or_refusals() {
    assert_eq!(meta_word(&MetaSyntax::Word(name("task"))), Ok((MethodWord::Task, None)));
    assert_eq!(meta_word(&MetaSyntax::Word(None)), Ok((MethodWord::Other, None)));
    assert_eq!(
        meta_word(&MetaSyntax::Assign(name("from"), MetaValue::Name(name("feed")))),
        Ok((MethodWord::From, name("feed")))
    );
    assert_eq!(meta_word(&MetaSyntax::Assign(name("task"), MetaValue::Name(name("feed")))), Err(WordsError::UnexpectedValue));
    assert_eq!(meta_word(&MetaSyntax::Group(name("command"))), Err(WordsError::UnexpectedGroup));
}

#[test]
fn last_from_field_wins_and_first_refusal_stops() {
    let metas = vec![
        MetaSyntax::Assign(name("from"), MetaValue::Name(name("first"))),
        MetaSyntax::Word(name("command")),
        MetaSyntax::Assign(name("from"), MetaValue::Name(name("second"))),
    ];
    assert_eq!(
        words_of_metas(&metas),
        Ok((vec![MethodWord::From, MethodWord::Command, MethodWord::From], name("second")))
    );
    let refused = vec![
        MetaSyntax::Word(name("command")),
        MetaSyntax::Word(name("from")),
        MetaSyntax::Group(name("poll")),
    ];
    assert_eq!(words_of_metas(&refused), Err(WordsError::MissingField));
}

#[test]
fn named_parameters_are_counted() {
    assert_eq!(count_named(&vec![false, true, true, false, true]), 3);
    assert_eq!(count_named(&vec![]), 0);
}

#[test]
fn refusals_name_the_method_item() {
    let input = tokens("impl Chat { const A: u8 = 1; fn ok(&self) {} #[grove(from)] fn bad(&self) {} }");
    match parse_handlers_block(input) {
        Err(HandlersInputError::Words { method, error }) => {
            assert_eq!(method, 2);
            assert_eq!(error, WordsError::MissingField);
        }
        _ => panic!("expected a refusal of the words"),
    }
    let unsplit = tokens("impl Chat { #[grove(command,, poll)] fn m(&self) {} }");
    assert!(matches!(
        parse_handlers_block(unsplit),
        Err(HandlersInputError::Attribute { method: 0, .. })
    ));
}

#[test]
fn block_syntax_has_one_entry_per_item() {
    let input = tokens("impl Chat { const A: u8 = 1; #[inline] #[grove(task)] fn run(h: H, c: C, extra: u32) {} }");
    let parsed = match parse_handlers_block(input) {
        Ok(parsed) => parsed,
        Err(_) => panic!("block should parse"),
    };
    assert_eq!(parsed.syntax.len(), 2);
    assert!(parsed.syntax[0].is_none());
    let method = parsed.syntax[1].as_ref().expect("a method");
    assert_eq!(method.name, "run");
    assert_eq!(method.attrs.len(), 2);
    assert_eq!(method.named_params, vec![true, true, true]);
    assert_eq!(parsed.methods[0].info.words, vec![MethodWord::Task]);
    assert_eq!(parsed.methods[0].info.param_count, 3);
}

#[test]
fn polled_render_and_task_with_extra_parameter_plan() {
    let input = tokens(
        "impl S {
            #[grove(command, poll)]
            fn render(&self, frame: &mut Frame, n: u32) {}
            #[grove(task)]
            async fn t(h: SHandle, c: CancellationToken, cfg: Cfg) {}
        }",
    );
    let parsed = match parse_handlers_block(input) {
        Ok(parsed) => parsed,
        Err(_) => panic!("block should parse"),
    };
    let infos: Vec<grove::handlers::MethodInfo> = parsed.methods.into_iter().map(|m| m.info).collect();
    let plan = grove::handlers::plan_handlers(&infos, 1);
    assert_eq!(plan.commands.len(), 1);
    assert_eq!(plan.commands[0].variant, "Render");
    assert_eq!(plan.commands[0].skipped, 1);
    assert!(plan.commands[0].queues_for_poll);
    assert_eq!(plan.tasks.len(), 1);
    assert_eq!(plan.tasks[0].extra_params, 1);
    assert!(plan.needs_builder);
}

#[test]
fn commands_block_finds_marked_methods() {
    let input = tokens(
        "impl Counter {
            #[grove(command)]
            fn increment(&mut self) {}
            fn helper(&self) {}
            #[grove(command)]
            fn set_value(&mut self, value: u32, extra: bool) {}
        }",
    );
    let parsed = match parse_commands_block(input) {
        Ok(parsed) => parsed,
        Err(_) => panic!("block should be accepted"),
    };
    assert_eq!(parsed.commands.len(), 2);
    assert_eq!(parsed.commands[0].item, 0);
    assert_eq!(parsed.commands[0].variant, "Increment");
    assert_eq!(parsed.commands[0].param, None);
    assert_eq!(parsed.commands[1].item, 2);
    assert_eq!(parsed.commands[1].name, "set_value");
    assert_eq!(parsed.commands[1].variant, "SetValue");
    assert_eq!(parsed.commands[1].param, Some(1));
    assert!(matches!(
        parse_commands_block(tokens("impl Counter { fn helper(&self) {} }")),
        Err(CommandsInputError::NoCommands { .. })
    ));
    assert!(matches!(
        parse_commands_block(tokens("struct Counter;")),
        Err(CommandsInputError::Block(_))
    ));
}

#[test]
fn first_named_parameter() {
    assert_eq!(first_named(&vec![false, false, true, true]), Some(2));
    assert_eq!(first_named(&vec![false]), None);
}
