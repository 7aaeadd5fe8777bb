use rust_math::config::Config;
use rust_math::form::{advance_step, normalize_empty, set_number, set_text};
use rust_math::formatter::{draft_form_message, esc, third_line};
use rust_math::num::Decimal;
use rust_math::order::OrderDraft;
use rust_math::state::Step;

fn chars(s: &str) -> Vec<char> {
    s.chars().collect()
}

#[test]
fn reads_the_bot_settings() {
    let config = Config::from_env(
        Some("token".to_string()),
        Some("-100".to_string()),
        Some("200".to_string()),
    )
    .unwrap();
    assert_eq!(config.bot_token, "token");
    assert_eq!((config.order_chat_id, config.calc_chat_id), (Some(-100), Some(200)));
    let only_token = Config::from_env(Some("tok".to_string()), None, None).unwrap();
    assert_eq!(only_token.bot_token, "tok");
    assert_eq!((only_token.order_chat_id, only_token.calc_chat_id), (None, None));
    assert_eq!(
        Config::from_env(None, Some("1".to_string()), Some("2".to_string())).unwrap_err(),
        "BOT_TOKEN env berilmagan"
    );
    assert_eq!(
        Config::from_env(Some("t".to_string()), Some("x".to_string()), Some("2".to_string()))
            .unwrap_err(),
        "ORDER_CHAT_ID butun son bo'lishi kerak"
    );
    assert_eq!(
        Config::from_env(Some("t".to_string()), Some("1".to_string()), Some("2x".to_string()))
            .unwrap_err(),
        "CALC_CHAT_ID butun son bo'lishi kerak"
    );
}

#[test]
fn escapes_html() {
    assert_eq!(esc(&chars("a<b>&c")), chars("a&lt;b&gt;&amp;c"));
}

#[test]
fn writes_the_third_layer_line_only_when_given() {
    assert_eq!(third_line(&chars("--"), &chars("--")), chars(""));
    assert_eq!(third_line(&chars("pe"), &chars("30")), chars("\n3-qavat: pe 30"));
}

#[test]
fn blank_answers_and_dashes_are_empty() {
    assert_eq!(normalize_empty("  x  "), Some("x".to_string()));
    assert_eq!(normalize_empty(" -- "), None);
    assert_eq!(normalize_empty(""), None);
    let mut slot = None;
    assert_eq!(set_text(&mut slot, None), Err("Bo'sh bo'lmasligi kerak.".to_string()));
    assert!(set_text(&mut slot, Some("a".to_string())).is_ok());
    assert_eq!(slot, Some("a".to_string()));
}

#[test]
fn numbers_in_answers() {
    let mut slot = None;
    assert!(set_number(&mut slot, Some("1 500,5 kg".to_string()), "Tiraj kg").is_ok());
    assert_eq!(slot, Some(Decimal { units: 15005, scale: 1 }));
    assert_eq!(
        set_number(&mut slot, Some("abc".to_string()), "Tiraj kg"),
        Err("Tiraj kg raqam bo'lishi kerak.".to_string())
    );
    assert_eq!(
        set_number(&mut slot, Some("0".to_string()), "Tiraj kg"),
        Err("Tiraj kg 0 dan katta bo'lishi kerak.".to_string())
    );
    assert_eq!(
        set_number(&mut slot, None, "Uzunligi mm"),
        Err("Uzunligi mm bo'sh bo'lmasligi kerak.".to_string())
    );
}

#[test]
fn skips_questions_that_the_material_text_answered() {
    let mut step = Step::Width;
    let draft = OrderDraft { first_material: Some("pet".to_string()), ..OrderDraft::default() };
    advance_step(&draft, &mut step);
    assert_eq!(step, Step::Note);
    let mut step = Step::SecondMaterial;
    advance_step(&OrderDraft::default(), &mut step);
    assert_eq!(step, Step::ThirdMaterial);
}

#[test]
fn the_draft_form_shows_what_is_known() {
    let draft = OrderDraft { order_number: Some("7".to_string()), ..OrderDraft::default() };
    let text = draft_form_message(&draft, "Mijoz nomi?");
    assert!(text.starts_with("<b>DMBO</b>\nBuyurtma raqami: 7\n"));
    assert!(text.ends_with("\n\nMijoz nomi?"));
}

#[test]
fn bot_rounds_long_fractions() {
    let d = rust_math::table::parse_decimal(&chars("1.23456789")).unwrap();
    assert_eq!(d, Decimal { units: 1234568, scale: 6 });
    let d = rust_math::table::parse_decimal(&chars("530,0")).unwrap();
    assert_eq!(d, Decimal { units: 530, scale: 0 });
}
