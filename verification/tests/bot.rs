use rust_math::bot::{finish_order, setup_message, BotCore, Outgoing, Reaction};
use rust_math::num::Decimal;
use rust_math::order::OrderDraft;
use rust_math::registry::{BotRegistry, ChatRole, RegistryStore};
use rust_math::state::{LoginSessions, LoginStep, Step};
use rust_math::telegram::{largest_photo_file_id, Chat, Message, PhotoSize, Update};

fn store(registry: BotRegistry) -> RegistryStore {
    RegistryStore::load("bot_state.json".to_string(), Ok(registry)).unwrap()
}

fn ready_registry() -> BotRegistry {
    BotRegistry { order_chat_id: Some(10), calc_chat_id: Some(20), admin_chat_id: Some(30) }
}

fn text_update(chat: i64, message_id: i64, text: &str) -> Update {
    Update {
        update_id: 1,
        message: Some(Message {
            message_id,
            chat: Chat { id: chat },
            text: Some(text.to_string()),
            photo: None,
        }),
    }
}

fn reply_text(r: Reaction) -> String {
    match r {
        Reaction::Reply { text, .. } => text,
        other => panic!("unexpected reaction: {other:?}"),
    }
}

#[test]
fn login_flow_sets_the_role() {
    let mut bot = BotCore::new(store(BotRegistry::default()));
    assert!(matches!(
        bot.handle_update(&text_update(5, 1, " /login ")),
        Reaction::AskLogin { chat_id: 5, message_id: 1 }
    ));
    bot.login_prompt_sent(5, 100);
    match bot.handle_update(&text_update(5, 2, "GURUH")) {
        Reaction::Login { save, prompt_message_id, text, .. } => {
            assert!(!save);
            assert_eq!(prompt_message_id, 100);
            assert_eq!(text, "Parol yozing");
        }
        other => panic!("unexpected reaction: {other:?}"),
    }
    match bot.handle_update(&text_update(5, 3, "@#12asn")) {
        Reaction::Login { save, text, .. } => {
            assert!(save);
            assert_eq!(text, "Qabul qilindi: <b>ma'lumot tashlaydigan guruh</b>");
        }
        other => panic!("unexpected reaction: {other:?}"),
    }
    assert_eq!(bot.registry.value().order_chat_id, Some(5));
}

#[test]
fn wrong_password_keeps_the_registry() {
    let mut bot = BotCore::new(store(BotRegistry::default()));
    bot.login_prompt_sent(5, 100);
    bot.handle_update(&text_update(5, 2, "chat"));
    match bot.handle_update(&text_update(5, 3, "wrong")) {
        Reaction::Login { save, text, .. } => {
            assert!(!save);
            assert_eq!(text, "Login yoki parol noto'g'ri.");
        }
        other => panic!("unexpected reaction: {other:?}"),
    }
    assert_eq!(bot.registry.value().admin_chat_id, None);
}

#[test]
fn setup_mode_until_every_chat_is_known() {
    let mut bot = BotCore::new(store(BotRegistry { admin_chat_id: Some(30), ..BotRegistry::default() }));
    let text = reply_text(bot.handle_update(&text_update(30, 1, "/new")));
    assert_eq!(
        text,
        "Bot setup rejimida.\nBu chat ID: <code>30</code>\nYetishmayapti: <b>ma'lumot guruhi, hisob-kitob guruhi</b>\n\nMa'lumot guruhi, hisob guruhi va admin chatni /login orqali ulang."
    );
    assert_eq!(
        setup_message(-7, &ready_registry()),
        "Bot setup rejimida.\nBu chat ID: <code>-7</code>\nYetishmayapti: <b>hammasi ulangan</b>\n\nMa'lumot guruhi, hisob guruhi va admin chatni /login orqali ulang."
    );
}

#[test]
fn chat_id_command_answers_with_the_id() {
    let mut bot = BotCore::new(store(BotRegistry::default()));
    assert_eq!(
        reply_text(bot.handle_update(&text_update(-100123, 1, "chatid"))),
        "Bu chat ID: <code>-100123</code>"
    );
}

#[test]
fn only_the_admin_chat_starts_orders() {
    let mut bot = BotCore::new(store(ready_registry()));
    assert_eq!(
        reply_text(bot.handle_update(&text_update(99, 1, "/new"))),
        "Buyurtma faqat admin chatdan qabul qilinadi. Admin chatni /login orqali ulang."
    );
    assert!(matches!(bot.handle_update(&text_update(99, 2, "salom")), Reaction::Nothing));
    assert!(matches!(
        bot.handle_update(&text_update(30, 3, "yangi")),
        Reaction::StartOrder { chat_id: 30 }
    ));
}

#[test]
fn an_order_is_filled_in_and_sent() {
    let mut bot = BotCore::new(store(ready_registry()));
    assert!(matches!(bot.handle_update(&text_update(30, 1, "/new")), Reaction::StartOrder { .. }));
    bot.order_prompt_sent(30, 7);
    let answers = [
        ("1178", "Mijoz nomi?"),
        ("Ali", "Mahsulot nomi?"),
        ("chips", "Holat? Masalan: rulon"),
        ("rulon", "Material matni? Masalan: BOPP 20 + Metall BOPP 30"),
        ("pet 12 + pe pr 30", "Rang?"),
        ("oq", "Tiraj, kg?"),
        ("300", "Uzunligi/razmer, mm?"),
        ("530", "Eslatma? Bo'sh bo'lsa '-' yozing"),
        ("-", "Rasm yuboring. Rasm bo'lmasa '-' yozing"),
    ];
    for (answer, next) in answers {
        assert_eq!(reply_text(bot.handle_update(&text_update(30, 2, answer))), next);
    }
    match bot.handle_update(&text_update(30, 3, "-")) {
        Reaction::Finish { messages, error } => {
            assert!(error.is_none());
            assert_eq!(messages.len(), 3);
            match &messages[0] {
                Outgoing::Message { chat_id, text } => {
                    assert_eq!(*chat_id, 10);
                    assert!(text.starts_with("Buyurtma raqami: №1178  "));
                    assert!(text.contains("\n5. Rang soni: -\n"));
                }
                other => panic!("unexpected message: {other:?}"),
            }
            match &messages[1] {
                Outgoing::Message { chat_id, text } => {
                    assert_eq!(*chat_id, 20);
                    assert!(text.contains("Val soni: -\n"));
                    assert!(text.contains("<b>Yakuniy uzunlik: 12000</b>"));
                }
                other => panic!("unexpected message: {other:?}"),
            }
            match &messages[2] {
                Outgoing::Message { chat_id, text } => {
                    assert_eq!(*chat_id, 30);
                    assert_eq!(text, "Buyurtma yuborildi. Keyingi buyurtma uchun /new yozing.");
                }
                other => panic!("unexpected message: {other:?}"),
            }
        }
        other => panic!("unexpected reaction: {other:?}"),
    }
    assert!(matches!(bot.handle_update(&text_update(30, 4, "x")), Reaction::StartOrder { .. }));
}

#[test]
fn cancel_ends_the_order() {
    let mut bot = BotCore::new(store(ready_registry()));
    bot.order_prompt_sent(30, 7);
    assert_eq!(
        reply_text(bot.handle_update(&text_update(30, 2, "bekor"))),
        "Bekor qilindi. Yangi buyurtma uchun /new yozing."
    );
    assert!(matches!(bot.handle_update(&text_update(30, 3, "x")), Reaction::StartOrder { .. }));
}

#[test]
fn empty_answers_are_refused() {
    let mut bot = BotCore::new(store(ready_registry()));
    bot.order_prompt_sent(30, 7);
    assert_eq!(
        reply_text(bot.handle_update(&text_update(30, 2, " -- "))),
        "Bo'sh bo'lmasligi kerak."
    );
}

#[test]
fn a_complete_order_goes_to_three_chats() {
    let order = OrderDraft {
        order_number: Some("1178".to_string()),
        date: Some("05/01/25".to_string()),
        customer: Some("Ali".to_string()),
        product: Some("chips".to_string()),
        status: Some("rulon".to_string()),
        material_display: Some("pet 12 + pe pr 30".to_string()),
        color: Some("oq".to_string()),
        kg: Some(Decimal { units: 300, scale: 0 }),
        width_mm: Some(Decimal { units: 530, scale: 0 }),
        roll_count: Some(Decimal { units: 5, scale: 0 }),
        first_material: Some("pet".to_string()),
        first_micron: Some("12".to_string()),
        second_material: Some("pe pr".to_string()),
        second_micron: Some("30".to_string()),
        photo_file_id: Some("photo".to_string()),
        ..OrderDraft::default()
    };
    let (messages, error) = finish_order(30, 10, 20, &order);
    assert!(error.is_none());
    assert_eq!(messages.len(), 3);
    match &messages[0] {
        Outgoing::Photo { chat_id, photo, caption } => {
            assert_eq!((*chat_id, photo.as_str()), (10, "photo"));
            assert!(caption.starts_with("Buyurtma raqami: №1178  05/01/25"));
        }
        other => panic!("unexpected message: {other:?}"),
    }
    match &messages[1] {
        Outgoing::Message { chat_id, text } => {
            assert_eq!(*chat_id, 20);
            assert!(text.contains("12000"));
        }
        other => panic!("unexpected message: {other:?}"),
    }
    match &messages[2] {
        Outgoing::Message { chat_id, text } => {
            assert_eq!(*chat_id, 30);
            assert_eq!(text, "Buyurtma yuborildi. Keyingi buyurtma uchun /new yozing.");
        }
        other => panic!("unexpected message: {other:?}"),
    }
}

#[test]
fn failed_calculation_goes_back_to_the_admin() {
    let order = OrderDraft {
        kg: Some(Decimal { units: 300, scale: 0 }),
        width_mm: Some(Decimal { units: 530, scale: 0 }),
        first_material: Some("xyz".to_string()),
        first_micron: Some("12".to_string()),
        ..OrderDraft::default()
    };
    let (messages, error) = finish_order(30, 10, 20, &order);
    assert!(error.is_none());
    assert_eq!(messages.len(), 1);
    match &messages[0] {
        Outgoing::Message { chat_id, text } => {
            assert_eq!(*chat_id, 30);
            assert_eq!(
                text,
                "Hisoblashda xato: noma'lum material: xyz\nQaytadan boshlash uchun /new yozing."
            );
        }
        other => panic!("unexpected message: {other:?}"),
    }
}

#[test]
fn picks_the_largest_photo() {
    let photos = Some(vec![
        PhotoSize { file_id: "a".to_string(), width: 10, height: 10, file_size: None },
        PhotoSize { file_id: "b".to_string(), width: 100, height: 100, file_size: Some(50) },
        PhotoSize { file_id: "c".to_string(), width: 20, height: 20, file_size: None },
    ]);
    assert_eq!(largest_photo_file_id(&photos), Some("c".to_string()));
    assert_eq!(largest_photo_file_id(&Some(Vec::new())), None);
    assert_eq!(largest_photo_file_id(&None), None);
}

#[test]
fn registry_is_ready_after_every_role() {
    let mut r = BotRegistry::default();
    assert!(!r.is_ready());
    r.set_role(ChatRole::Order, 1);
    r.set_role(ChatRole::Calc, 2);
    assert!(!r.is_ready());
    r.set_role(ChatRole::Admin, 3);
    assert!(r.is_ready());
    assert_eq!(ChatRole::from_credentials(" Hisob ", "@#12hsb "), Some(ChatRole::Calc));
    assert_eq!(ChatRole::Calc.label(), "hisob-kitob guruhi");
}

#[test]
fn login_sessions_start_and_end() {
    let mut logins = LoginSessions::new();
    logins.start(4, 9);
    let s = logins.get_mut(4).unwrap();
    assert_eq!(s.step, LoginStep::Login);
    assert_eq!(s.prompt_message_id, 9);
    logins.remove(4);
    assert!(logins.get_mut(4).is_none());
    assert_eq!(Step::Kg.next_prompt(), "Tiraj, kg?");
}
