use grove::naming::{to_pascal_case, to_snake_case};

#[test]
fn pascal_case_of_method_names() {
    assert_eq!(to_pascal_case("send_message"), "SendMessage");
    assert_eq!(to_pascal_case("increment"), "Increment");
    assert_eq!(to_pascal_case("tick_counter"), "TickCounter");
}

#[test]
fn pascal_case_drops_empty_words() {
    assert_eq!(to_pascal_case(""), "");
    assert_eq!(to_pascal_case("_a__b_"), "AB");
    assert_eq!(to_pascal_case("x1_y2"), "X1Y2");
}

#[test]
fn pascal_case_uses_full_uppercase_mapping() {
    assert_eq!(to_pascal_case("ßtraße"), "SStraße");
}

#[test]
fn snake_case_of_event_names() {
    assert_eq!(to_snake_case("MessageSent"), "message_sent");
    assert_eq!(to_snake_case("CounterIncremented"), "counter_incremented");
    assert_eq!(format!("on_{}", to_snake_case("PriceUpdated")), "on_price_updated");
}

#[test]
fn snake_case_splits_every_uppercase() {
    assert_eq!(to_snake_case("HTTPServer"), "h_t_t_p_server");
    assert_eq!(to_snake_case(""), "");
    assert_eq!(to_snake_case("already_snake"), "already_snake");
}

#[test]
fn pascal_case_converts_words_separately() {
    let whole = to_pascal_case("poll_prices_now");
    let parts = to_pascal_case("poll") + &to_pascal_case("prices_now");
    assert_eq!(whole, parts);
}

#[test]
fn case_round_trips() {
    assert_eq!(to_pascal_case(&to_snake_case("HTTPServer")), "HTTPServer");
    assert_eq!(to_pascal_case(&to_snake_case("MessageSent")), "MessageSent");
    assert_eq!(to_snake_case(&to_pascal_case("send_message")), "send_message");
    assert_eq!(to_snake_case(&to_pascal_case("a_b2_c")), "a_b2_c");
}
