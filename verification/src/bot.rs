//! The bot's decisions: what each incoming message changes and what the bot
//! sends back. Sending and receiving is left to the caller.
use vstd::prelude::*;

use crate::calc::{calculate_order, calculate_order_spec, unwrap_or};
use crate::form::{apply_answer, apply_answer_spec, Flow, FlowView};
use crate::formatter::{calc_message, calc_message_spec, order_message, order_message_spec};
use crate::order::{opt_view, DraftView, OrderDraft};
use crate::registry::{credentials_role, BotRegistry, ChatRole, RegistryStore};
use crate::state::{LoginSession, LoginSessions, LoginStep, Session, Sessions, Step};
use crate::telegram::{areas_fit, largest_photo, largest_photo_file_id, Message, Update};
use crate::text::{
    append_all, append_str, chars_of, digits_of, eq_str, nat_digits, owned, string_of, trim,
    trim_chars, trim_str,
};

verus! {

/// A number as `i64`'s `Display` writes it.
pub open spec fn int_text(n: i64) -> Seq<char> {
    if n < 0 {
        "-"@ + nat_digits((0 - n) as nat)
    } else {
        nat_digits(n as nat)
    }
}

pub fn int_text_exec(n: i64) -> (r: Vec<char>)
    ensures
        r@ == int_text(n),
{
    if n < 0 {
        let mut r = chars_of("-");
        let m = (0 - (n as i128)) as u128;
        let d = digits_of(m);
        append_all(&mut r, &d);
        r
    } else {
        digits_of(n as u128)
    }
}

// ---------------------------------------------------------------------------
// The setup message
// ---------------------------------------------------------------------------

pub open spec fn missing_roles(r: BotRegistry) -> Seq<char> {
    let a: Seq<Seq<char>> = if r.order_chat_id is None {
        seq!["ma'lumot guruhi"@]
    } else {
        Seq::empty()
    };
    let b: Seq<Seq<char>> = if r.calc_chat_id is None {
        a.push("hisob-kitob guruhi"@)
    } else {
        a
    };
    let c: Seq<Seq<char>> = if r.admin_chat_id is None {
        b.push("admin chat"@)
    } else {
        b
    };
    if c.len() == 0 {
        "hammasi ulangan"@
    } else {
        join_comma(c)
    }
}

pub open spec fn join_comma(parts: Seq<Seq<char>>) -> Seq<char>
    decreases parts.len(),
{
    if parts.len() == 0 {
        Seq::empty()
    } else if parts.len() == 1 {
        parts[0]
    } else {
        join_comma(parts.drop_last()) + ", "@ + parts.last()
    }
}

pub open spec fn setup_message_spec(chat_id: i64, r: BotRegistry) -> Seq<char> {
    "Bot setup rejimida.\nBu chat ID: <code>"@ + int_text(chat_id) + "</code>\nYetishmayapti: <b>"@
        + missing_roles(r)
        + "</b>\n\nMa'lumot guruhi, hisob guruhi va admin chatni /login orqali ulang."@
}

/// What the bot answers while it does not yet know all three chats.
pub fn setup_message(chat_id: i64, registry: &BotRegistry) -> (r: String)
    ensures
        r@ == setup_message_spec(chat_id, *registry),
{
    let mut missing: Vec<Vec<char>> = Vec::new();
    if registry.order_chat_id.is_none() {
        missing.push(chars_of("ma'lumot guruhi"));
    }
    if registry.calc_chat_id.is_none() {
        missing.push(chars_of("hisob-kitob guruhi"));
    }
    if registry.admin_chat_id.is_none() {
        missing.push(chars_of("admin chat"));
    }
    let ghost parts = crate::text::views(missing@);
    assert(parts =~= {
        let a: Seq<Seq<char>> = if registry.order_chat_id is None {
            seq!["ma'lumot guruhi"@]
        } else {
            Seq::empty()
        };
        let b: Seq<Seq<char>> = if registry.calc_chat_id is None {
            a.push("hisob-kitob guruhi"@)
        } else {
            a
        };
        if registry.admin_chat_id is None {
            b.push("admin chat"@)
        } else {
            b
        }
    });
    let mut joined: Vec<char> = Vec::new();
    if missing.len() == 0 {
        joined = chars_of("hammasi ulangan");
    } else {
        let mut k: usize = 0;
        while k < missing.len()
            invariant
                k <= missing.len(),
                parts == crate::text::views(missing@),
                joined@ == join_comma(parts.take(k as int)),
            decreases missing.len() - k,
        {
            assert(parts.take(k + 1).drop_last() =~= parts.take(k as int));
            if k > 0 {
                append_str(&mut joined, ", ");
            } else {
                assert(parts.take(1) =~= seq![parts[0]]);
            }
            append_all(&mut joined, &missing[k]);
            k = k + 1;
        }
        assert(parts.take(missing.len() as int) =~= parts);
    }
    let mut t = chars_of("Bot setup rejimida.\nBu chat ID: <code>");
    let id = int_text_exec(chat_id);
    append_all(&mut t, &id);
    append_str(&mut t, "</code>\nYetishmayapti: <b>");
    append_all(&mut t, &joined);
    append_str(
        &mut t,
        "</b>\n\nMa'lumot guruhi, hisob guruhi va admin chatni /login orqali ulang.",
    );
    string_of(&t)
}

// ---------------------------------------------------------------------------
// What the bot sends
// ---------------------------------------------------------------------------

#[derive(Debug)]
pub enum Outgoing {
    Message { chat_id: i64, text: String },
    Photo { chat_id: i64, photo: String, caption: String },
}

pub ghost enum OutView {
    Message(i64, Seq<char>),
    Photo(i64, Seq<char>, Seq<char>),
}

pub open spec fn out_view(o: Outgoing) -> OutView {
    match o {
        Outgoing::Message { chat_id, text } => OutView::Message(chat_id, text@),
        Outgoing::Photo { chat_id, photo, caption } => OutView::Photo(chat_id, photo@, caption@),
    }
}

pub open spec fn out_views(v: Seq<Outgoing>) -> Seq<OutView> {
    v.map_values(|o: Outgoing| out_view(o))
}

/// What the caller does after an update.
#[derive(Debug)]
pub enum Reaction {
    /// Nothing at all.
    Nothing,
    /// Delete the message, send `Login yozing` and hand its id to `login_prompt_sent`.
    AskLogin { chat_id: i64, message_id: i64 },
    /// Delete the answer; if `save`, write the registry to its file first; then
    /// edit the login prompt to `text`.
    Login { chat_id: i64, message_id: i64, save: bool, prompt_message_id: i64, text: String },
    /// Send `text` to the chat.
    Reply { chat_id: i64, text: String },
    /// Send the first question of an order and hand its id to `order_prompt_sent`.
    StartOrder { chat_id: i64 },
    /// Send the messages in turn; then fail with `error` if there is one.
    Finish { messages: Vec<Outgoing>, error: Option<String> },
}

pub ghost enum ReactionView {
    Nothing,
    AskLogin(i64, i64),
    Login(i64, i64, bool, i64, Seq<char>),
    Reply(i64, Seq<char>),
    StartOrder(i64),
    Finish(Seq<OutView>, Option<Seq<char>>),
}

pub open spec fn reaction_view(r: Reaction) -> ReactionView {
    match r {
        Reaction::Nothing => ReactionView::Nothing,
        Reaction::AskLogin { chat_id, message_id } => ReactionView::AskLogin(chat_id, message_id),
        Reaction::Login { chat_id, message_id, save, prompt_message_id, text } => ReactionView::Login(
            chat_id,
            message_id,
            save,
            prompt_message_id,
            text@,
        ),
        Reaction::Reply { chat_id, text } => ReactionView::Reply(chat_id, text@),
        Reaction::StartOrder { chat_id } => ReactionView::StartOrder(chat_id),
        Reaction::Finish { messages, error } => ReactionView::Finish(
            out_views(messages@),
            opt_view(error),
        ),
    }
}

pub open spec fn done_text() -> Seq<char> {
    "Buyurtma yuborildi. Keyingi buyurtma uchun /new yozing."@
}

/// The messages about a finished order: the order to the order group (with
/// its photo if it has one), the calculation to the calculation group and a
/// confirmation to the admin chat; or the calculation error to the admin chat.
/// A text that cannot be made stops the messages with its error.
pub open spec fn finish_spec(chat_id: i64, order_chat: i64, calc_chat: i64, d: DraftView) -> (
    Seq<OutView>,
    Option<Seq<char>>,
) {
    match calculate_order_spec(d) {
        Err(e) => (
            seq![
                OutView::Message(
                    chat_id,
                    "Hisoblashda xato: "@ + e + "\nQaytadan boshlash uchun /new yozing."@,
                ),
            ],
            None,
        ),
        Ok(res) => match order_message_spec(d) {
            Err(e) => (Seq::empty(), Some(e)),
            Ok(ot) => {
                let first = match d.photo_file_id {
                    Some(p) => OutView::Photo(order_chat, p, ot),
                    None => OutView::Message(order_chat, ot),
                };
                match calc_message_spec(d, res) {
                    Err(e) => (seq![first], Some(e)),
                    Ok(ct) => (
                        seq![first, OutView::Message(calc_chat, ct), OutView::Message(chat_id, done_text())],
                        None,
                    ),
                }
            },
        },
    }
}

#[verifier::rlimit(50)]
#[verifier::spinoff_prover]
pub fn finish_order(chat_id: i64, order_chat: i64, calc_chat: i64, order: &OrderDraft) -> (r: (
    Vec<Outgoing>,
    Option<String>,
))
    ensures
        (out_views(r.0@), opt_view(r.1)) == finish_spec(chat_id, order_chat, calc_chat, order@),
{
    let mut messages: Vec<Outgoing> = Vec::new();
    match calculate_order(order) {
        Err(e) => {
            let mut t = chars_of("Hisoblashda xato: ");
            let ev = chars_of(e.as_str());
            append_all(&mut t, &ev);
            append_str(&mut t, "\nQaytadan boshlash uchun /new yozing.");
            messages.push(Outgoing::Message { chat_id, text: string_of(&t) });
            assert(out_views(messages@) =~= finish_spec(chat_id, order_chat, calc_chat, order@).0);
            (messages, None)
        },
        Ok(result) => {
            let order_text = match order_message(order) {
                Ok(t) => t,
                Err(e) => {
                    assert(out_views(messages@) =~= Seq::<OutView>::empty());
                    return (messages, Some(e));
                },
            };
            let ghost ot = order_text@;
            match &order.photo_file_id {
                Some(photo) => messages.push(
                    Outgoing::Photo { chat_id: order_chat, photo: photo.clone(), caption: order_text },
                ),
                None => messages.push(Outgoing::Message { chat_id: order_chat, text: order_text }),
            }
            let ghost first = out_views(messages@)[0];
            let calc_text = match calc_message(order, &result) {
                Ok(t) => t,
                Err(e) => {
                    assert(out_views(messages@) =~= seq![first]);
                    return (messages, Some(e));
                },
            };
            messages.push(Outgoing::Message { chat_id: calc_chat, text: calc_text });
            messages.push(
                Outgoing::Message {
                    chat_id,
                    text: owned("Buyurtma yuborildi. Keyingi buyurtma uchun /new yozing."),
                },
            );
            assert(out_views(messages@) =~= finish_spec(chat_id, order_chat, calc_chat, order@).0);
            (messages, None)
        },
    }
}

// ---------------------------------------------------------------------------
// The bot
// ---------------------------------------------------------------------------

/// The bot's state: order forms, logins and the registry of chats.
pub struct BotCore {
    pub sessions: Sessions,
    pub logins: LoginSessions,
    pub registry: RegistryStore,
}

pub open spec fn is_login_cmd(t: Seq<char>) -> bool {
    t == "/login"@ || t == "login"@
}

pub open spec fn is_chatid_cmd(t: Seq<char>) -> bool {
    t == "/chatid"@ || t == "chatid"@
}

pub open spec fn is_new_cmd(t: Seq<char>) -> bool {
    t == "/start"@ || t == "/new"@ || t == "new"@ || t == "yangi"@
}

pub open spec fn is_cancel_cmd(t: Seq<char>) -> bool {
    t == "/cancel"@ || t == "cancel"@ || t == "bekor"@
}

pub open spec fn chat_id_text(chat_id: i64) -> Seq<char> {
    "Bu chat ID: <code>"@ + int_text(chat_id) + "</code>"@
}

pub open spec fn not_admin_text() -> Seq<char> {
    "Buyurtma faqat admin chatdan qabul qilinadi. Admin chatni /login orqali ulang."@
}

pub open spec fn cancelled_text() -> Seq<char> {
    "Bekor qilindi. Yangi buyurtma uchun /new yozing."@
}

pub open spec fn is_admin(r: BotRegistry, chat_id: i64) -> bool {
    r.admin_chat_id == Some(chat_id)
}

/// The answer to a login prompt: the login is kept and the password asked
/// for; the password ends the login, gives the role that the credentials
/// unlock (the registry is then written) or says they are wrong.
pub open spec fn login_answer_spec(s: LoginSession, text: Seq<char>) -> (bool, Option<ChatRole>, Seq<char>) {
    match s.step {
        LoginStep::Login => (false, None, "Parol yozing"@),
        LoginStep::Password => match credentials_role(unwrap_or(opt_view(s.login), Seq::<char>::empty()), text) {
            Some(role) => (true, Some(role), "Qabul qilindi: <b>"@ + role.label_spec() + "</b>"@),
            None => (false, None, "Login yoki parol noto'g'ri."@),
        },
    }
}

/// The answer `text` to a login prompt in `chat_id` took the bot from
/// `before` to `after` and gave `r`.
pub open spec fn login_answered(
    before: BotCore,
    after: BotCore,
    chat_id: i64,
    message_id: i64,
    text: Seq<char>,
    r: ReactionView,
) -> bool {
    let s = before.logins.logins()[chat_id];
    let (save, role, reply) = login_answer_spec(s, text);
    let expected = match role {
        Some(role) => before.registry.value_spec().with_role(role, chat_id),
        None => before.registry.value_spec(),
    };
    &&& r == ReactionView::Login(chat_id, message_id, save, s.prompt_message_id, reply)
    &&& after.sessions == before.sessions
    &&& s.step == LoginStep::Login ==> {
        &&& after.logins.logins() == before.logins.logins().insert(
            chat_id,
            LoginSession {
                step: LoginStep::Password,
                prompt_message_id: s.prompt_message_id,
                login: after.logins.logins()[chat_id].login,
            },
        )
        &&& opt_view(after.logins.logins()[chat_id].login) == Some(text)
        &&& after.registry == before.registry
    }
    &&& s.step == LoginStep::Password ==> {
        &&& after.logins.logins() == before.logins.logins().remove(chat_id)
        &&& after.registry.path_spec() == before.registry.path_spec()
        &&& after.registry.value_spec() == expected
    }
}

/// The text of a message, trimmed; an empty one where it has none.
pub open spec fn message_text(m: Message) -> Seq<char> {
    trim(
        match m.text {
            Some(t) => t@,
            None => Seq::empty(),
        },
    )
}

/// Every size of a photo in the update has an area that fits in `i64`.
pub open spec fn photos_fit(u: Update) -> bool {
    u.message matches Some(m) ==> (m.photo matches Some(ps) ==> areas_fit(ps@))
}

/// The answer `t` (with the photo `photo`) to the current question of the
/// order form of `chat_id` took the bot from `before` to `after` and gave `r`.
pub open spec fn order_answered(
    before: BotCore,
    after: BotCore,
    chat_id: i64,
    t: Seq<char>,
    photo: Option<Seq<char>>,
    r: ReactionView,
) -> bool {
    let reg = before.registry.value_spec();
    let s = before.sessions.sessions()[chat_id];
    let (d, step, f) = apply_answer_spec(s.draft@, s.step, t, photo);
    let now = after.sessions.sessions()[chat_id];
    &&& after.logins == before.logins
    &&& after.registry == before.registry
    &&& match f {
        FlowView::Done(order) => {
            let (messages, error) = finish_spec(
                chat_id,
                reg.order_chat_id->0,
                reg.calc_chat_id->0,
                order,
            );
            &&& after.sessions.sessions() == before.sessions.sessions().remove(chat_id)
            &&& r == ReactionView::Finish(messages, error)
        },
        FlowView::Ask(text) => {
            &&& r == ReactionView::Reply(chat_id, text)
            &&& after.sessions.sessions() == before.sessions.sessions().insert(chat_id, now)
            &&& now.draft@ == d && now.step == step && now.prompt_message_id == s.prompt_message_id
        },
        FlowView::Error(text) => {
            &&& r == ReactionView::Reply(chat_id, text)
            &&& after.sessions.sessions() == before.sessions.sessions().insert(chat_id, now)
            &&& now.draft@ == d && now.step == step && now.prompt_message_id == s.prompt_message_id
        },
    }
}

/// What an update does to the bot, and what the bot does about it.
pub open spec fn update_handled(before: BotCore, after: BotCore, u: Update, r: ReactionView) -> bool {
    match u.message {
        None => r == ReactionView::Nothing && after == before,
        Some(m) => {
            let chat_id = m.chat.id;
            let t = message_text(m);
            let reg = before.registry.value_spec();
            if is_login_cmd(t) {
                r == ReactionView::AskLogin(chat_id, m.message_id) && after == before
            } else if before.logins.logins().contains_key(chat_id) {
                login_answered(before, after, chat_id, m.message_id, t, r)
            } else if is_chatid_cmd(t) {
                r == ReactionView::Reply(chat_id, chat_id_text(chat_id)) && after == before
            } else if !reg.ready() {
                r == ReactionView::Reply(chat_id, setup_message_spec(chat_id, reg)) && after == before
            } else if is_new_cmd(t) {
                &&& after == before
                &&& r == if is_admin(reg, chat_id) {
                    ReactionView::StartOrder(chat_id)
                } else {
                    ReactionView::Reply(chat_id, not_admin_text())
                }
            } else if is_cancel_cmd(t) {
                &&& r == ReactionView::Reply(chat_id, cancelled_text())
                &&& after.sessions.sessions() == before.sessions.sessions().remove(chat_id)
                &&& after.logins == before.logins
                &&& after.registry == before.registry
            } else if !before.sessions.sessions().contains_key(chat_id) {
                &&& after == before
                &&& r == if is_admin(reg, chat_id) {
                    ReactionView::StartOrder(chat_id)
                } else {
                    ReactionView::Nothing
                }
            } else {
                order_answered(before, after, chat_id, t, largest_photo(m.photo), r)
            }
        },
    }
}

impl BotCore {
    pub fn new(registry: RegistryStore) -> (r: BotCore)
        ensures
            r.sessions.sessions() == Map::<i64, Session>::empty(),
            r.logins.logins() == Map::<i64, LoginSession>::empty(),
            r.registry == registry,
    {
        BotCore { sessions: Sessions::new(), logins: LoginSessions::new(), registry }
    }

    pub fn is_admin_chat(&self, chat_id: i64) -> (r: bool)
        ensures
            r == is_admin(self.registry.value_spec(), chat_id),
    {
        match self.registry.value().admin_chat_id {
            Some(id) => id == chat_id,
            None => false,
        }
    }

    /// The login prompt was sent to `chat_id` as message `prompt_message_id`.
    pub fn login_prompt_sent(&mut self, chat_id: i64, prompt_message_id: i64)
        ensures
            final(self).logins.logins() == old(self).logins.logins().insert(
                chat_id,
                LoginSession { step: LoginStep::Login, prompt_message_id, login: None },
            ),
            final(self).sessions == old(self).sessions,
            final(self).registry == old(self).registry,
    {
        self.logins.start(chat_id, prompt_message_id);
    }

    /// The first question of an order was sent to `chat_id` as message
    /// `prompt_message_id`.
    pub fn order_prompt_sent(&mut self, chat_id: i64, prompt_message_id: i64)
        ensures
            final(self).sessions.sessions().dom() == old(self).sessions.sessions().dom().insert(
                chat_id,
            ),
            final(self).sessions.sessions()[chat_id].step == Step::OrderNumber,
            final(self).sessions.sessions()[chat_id].prompt_message_id == prompt_message_id,
            crate::state::fresh_draft(final(self).sessions.sessions()[chat_id].draft@),
            forall|k: i64|
                k != chat_id && old(self).sessions.sessions().contains_key(k)
                    ==> #[trigger] final(self).sessions.sessions()[k] == old(self).sessions.sessions()[k],
            final(self).logins == old(self).logins,
            final(self).registry == old(self).registry,
    {
        self.sessions.start(chat_id, prompt_message_id);
    }

    /// An answer in a chat that is logging in.
    fn login_answer(&mut self, chat_id: i64, message_id: i64, text: &str) -> (r: Reaction)
        requires
            old(self).logins.logins().contains_key(chat_id),
        ensures
            login_answered(*old(self), *final(self), chat_id, message_id, text@, reaction_view(r)),
    {
        let session = match self.logins.get_mut(chat_id) {
            Some(s) => s,
            None => {
                return Reaction::Nothing;
            },
        };
        match session.step {
            LoginStep::Login => {
                session.login = Some(owned(text));
                session.step = LoginStep::Password;
                let prompt_message_id = session.prompt_message_id;
                Reaction::Login {
                    chat_id,
                    message_id,
                    save: false,
                    prompt_message_id,
                    text: owned("Parol yozing"),
                }
            },
            LoginStep::Password => {
                let login = match &session.login {
                    Some(l) => l.clone(),
                    None => String::new(),
                };
                let prompt_message_id = session.prompt_message_id;
                self.logins.remove(chat_id);
                assert(self.logins.logins() =~= old(self).logins.logins().remove(chat_id));
                match ChatRole::from_credentials(login.as_str(), text) {
                    Some(role) => {
                        self.registry.set_role(role, chat_id);
                        let mut t = chars_of("Qabul qilindi: <b>");
                        append_str(&mut t, role.label());
                        append_str(&mut t, "</b>");
                        Reaction::Login {
                            chat_id,
                            message_id,
                            save: true,
                            prompt_message_id,
                            text: string_of(&t),
                        }
                    },
                    None => Reaction::Login {
                        chat_id,
                        message_id,
                        save: false,
                        prompt_message_id,
                        text: owned("Login yoki parol noto'g'ri."),
                    },
                }
            },
        }
    }
    /// Takes one update from Telegram: changes the order forms, the logins
    /// and the registry as it calls for, and says what to send.
    #[verifier::rlimit(50)]
    #[verifier::spinoff_prover]
    pub fn handle_update(&mut self, update: &Update) -> (r: Reaction)
        requires
            photos_fit(*update),
        ensures
            update_handled(*old(self), *final(self), *update, reaction_view(r)),
    {
        let message = match &update.message {
            None => {
                return Reaction::Nothing;
            },
            Some(m) => m,
        };
        let chat_id = message.chat.id;
        let message_id = message.message_id;
        let photo = largest_photo_file_id(&message.photo);
        let trimmed: Vec<char> = match &message.text {
            Some(t) => trim_str(t.as_str()),
            None => {
                let empty: Vec<char> = Vec::new();
                let r = trim_chars(&empty);
                r
            },
        };
        assert(trimmed@ == message_text(*message));
        let text = string_of(&trimmed);
        if eq_str(&trimmed, "/login") || eq_str(&trimmed, "login") {
            return Reaction::AskLogin { chat_id, message_id };
        }
        if self.logins.contains(chat_id) {
            return self.login_answer(chat_id, message_id, text.as_str());
        }
        if eq_str(&trimmed, "/chatid") || eq_str(&trimmed, "chatid") {
            let mut t = chars_of("Bu chat ID: <code>");
            let id = int_text_exec(chat_id);
            append_all(&mut t, &id);
            append_str(&mut t, "</code>");
            return Reaction::Reply { chat_id, text: string_of(&t) };
        }
        let registry: BotRegistry = *self.registry.value();
        if !registry.is_ready() {
            return Reaction::Reply { chat_id, text: setup_message(chat_id, &registry) };
        }
        if eq_str(&trimmed, "/start") || eq_str(&trimmed, "/new") || eq_str(&trimmed, "new")
            || eq_str(&trimmed, "yangi") {
            if !self.is_admin_chat(chat_id) {
                return Reaction::Reply {
                    chat_id,
                    text: owned(
                        "Buyurtma faqat admin chatdan qabul qilinadi. Admin chatni /login orqali ulang.",
                    ),
                };
            }
            return Reaction::StartOrder { chat_id };
        }
        if eq_str(&trimmed, "/cancel") || eq_str(&trimmed, "cancel") || eq_str(&trimmed, "bekor") {
            self.sessions.remove(chat_id);
            return Reaction::Reply {
                chat_id,
                text: owned("Bekor qilindi. Yangi buyurtma uchun /new yozing."),
            };
        }
        if !self.sessions.contains(chat_id) {
            if !self.is_admin_chat(chat_id) {
                return Reaction::Nothing;
            }
            return Reaction::StartOrder { chat_id };
        }
        let flow = match self.sessions.get_mut(chat_id) {
            Some(session) => apply_answer(&mut session.draft, &mut session.step, text.as_str(), photo),
            None => {
                return Reaction::Nothing;
            },
        };
        match flow {
            Flow::Ask(prompt) => Reaction::Reply { chat_id, text: owned(prompt) },
            Flow::Error(error) => Reaction::Reply { chat_id, text: error },
            Flow::Done(order) => {
                self.sessions.remove(chat_id);
                assert(self.sessions.sessions() =~= old(self).sessions.sessions().remove(chat_id));
                let order_chat = match registry.order_chat_id {
                    Some(id) => id,
                    None => 0,
                };
                let calc_chat = match registry.calc_chat_id {
                    Some(id) => id,
                    None => 0,
                };
                let (messages, error) = finish_order(chat_id, order_chat, calc_chat, &order);
                Reaction::Finish { messages, error }
            },
        }
    }
}

/// Answering a login prompt with a login and then with a password gives the
/// chat the role that the two unlock (and the registry is written), or
/// leaves the registry as it was when they unlock none; either way the
/// login is over.
pub proof fn lemma_login_then_password(
    b0: BotCore,
    b1: BotCore,
    b2: BotCore,
    chat_id: i64,
    first_message: i64,
    second_message: i64,
    login: Seq<char>,
    password: Seq<char>,
    r1: ReactionView,
    r2: ReactionView,
)
    requires
        b0.logins.logins().contains_key(chat_id),
        b0.logins.logins()[chat_id].step == LoginStep::Login,
        login_answered(b0, b1, chat_id, first_message, login, r1),
        login_answered(b1, b2, chat_id, second_message, password, r2),
    ensures
        !b2.logins.logins().contains_key(chat_id),
        b2.sessions == b0.sessions,
        match credentials_role(login, password) {
            Some(role) => {
                &&& b2.registry.value_spec() == b0.registry.value_spec().with_role(role, chat_id)
                &&& r2 matches ReactionView::Login(_, _, save, _, _) && save
            },
            None => {
                &&& b2.registry.value_spec() == b0.registry.value_spec()
                &&& r2 matches ReactionView::Login(_, _, save, _, _) && !save
            },
        },
{
    assert(b1.logins.logins().contains_key(chat_id));
    assert(b1.logins.logins()[chat_id].step == LoginStep::Password);
    assert(unwrap_or(opt_view(b1.logins.logins()[chat_id].login), Seq::<char>::empty()) == login);
}

} // verus!
