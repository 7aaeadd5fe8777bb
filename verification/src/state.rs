//! The conversations that the bot holds: order forms and logins, by chat.
use vstd::prelude::*;

use std::collections::HashMap;

use crate::order::{empty_draft, DraftView, OrderDraft};

verus! {

broadcast use vstd::std_specs::hash::group_hash_axioms;

/// The question an order form is waiting on.
#[derive(Debug, Clone, Copy, PartialEq, Eq, Structural)]
pub enum Step {
    OrderNumber,
    Customer,
    Product,
    Status,
    MaterialDisplay,
    Color,
    Kg,
    Width,
    FirstMaterial,
    FirstMicron,
    SecondMaterial,
    SecondMicron,
    ThirdMaterial,
    ThirdMicron,
    Note,
    Photo,
}

impl Step {
    pub open spec fn prompt_spec(self) -> Seq<char> {
        match self {
            Step::Customer => "Mijoz nomi?"@,
            Step::Product => "Mahsulot nomi?"@,
            Step::Status => "Holat? Masalan: rulon"@,
            Step::MaterialDisplay => "Material matni? Masalan: BOPP 20 + Metall BOPP 30"@,
            Step::Color => "Rang?"@,
            Step::Kg => "Tiraj, kg?"@,
            Step::Width => "Uzunligi/razmer, mm?"@,
            Step::FirstMaterial => "1-qavat material?"@,
            Step::FirstMicron => "1-qavat mikron?"@,
            Step::SecondMaterial => "2-qavat material? Bo'sh bo'lsa '-' yozing"@,
            Step::SecondMicron => "2-qavat mikron?"@,
            Step::ThirdMaterial => "3-qavat material? Bo'sh bo'lsa '-' yozing"@,
            Step::ThirdMicron => "3-qavat mikron?"@,
            Step::Note => "Eslatma? Bo'sh bo'lsa '-' yozing"@,
            Step::Photo => "Rasm yuboring. Rasm bo'lmasa '-' yozing"@,
            Step::OrderNumber => "Buyurtma raqamini yozing."@,
        }
    }

    /// The question asked at this step.
    pub fn next_prompt(self) -> (r: &'static str)
        ensures
            r@ == self.prompt_spec(),
    {
        match self {
            Step::Customer => "Mijoz nomi?",
            Step::Product => "Mahsulot nomi?",
            Step::Status => "Holat? Masalan: rulon",
            Step::MaterialDisplay => "Material matni? Masalan: BOPP 20 + Metall BOPP 30",
            Step::Color => "Rang?",
            Step::Kg => "Tiraj, kg?",
            Step::Width => "Uzunligi/razmer, mm?",
            Step::FirstMaterial => "1-qavat material?",
            Step::FirstMicron => "1-qavat mikron?",
            Step::SecondMaterial => "2-qavat material? Bo'sh bo'lsa '-' yozing",
            Step::SecondMicron => "2-qavat mikron?",
            Step::ThirdMaterial => "3-qavat material? Bo'sh bo'lsa '-' yozing",
            Step::ThirdMicron => "3-qavat mikron?",
            Step::Note => "Eslatma? Bo'sh bo'lsa '-' yozing",
            Step::Photo => "Rasm yuboring. Rasm bo'lmasa '-' yozing",
            Step::OrderNumber => "Buyurtma raqamini yozing.",
        }
    }
}

/// An order form in progress.
#[derive(Debug)]
pub struct Session {
    pub step: Step,
    pub draft: OrderDraft,
    pub prompt_message_id: i64,
}

/// Calls `HashMap::get_mut`: the value under `k`, to change in place.
#[verifier::external_body]
fn map_get_mut<'a, V>(m: &'a mut HashMap<i64, V>, k: i64) -> (r: Option<&'a mut V>)
    ensures
        match r {
            Some(v) => old(m)@.contains_key(k) && *v == old(m)@[k] && final(m)@ == old(m)@.insert(
                k,
                *final(v),
            ),
            None => !old(m)@.contains_key(k) && final(m)@ == old(m)@,
        },
{
    m.get_mut(&k)
}

/// Today's date as `dd/mm/yy`, from chrono's `Local::now` formatted with
/// `%d/%m/%y`: three zero-padded pairs of digits (day, month, year in the
/// century) joined by `/`. Which date it is, is not stated.
#[verifier::external_body]
fn today() -> (r: String)
    ensures
        r@.len() == 8,
        r@[2] == '/' && r@[5] == '/',
        forall|i: int| 0 <= i < 8 && i != 2 && i != 5 ==> crate::text::is_digit(#[trigger] r@[i]),
{
    chrono::Local::now().format("%d/%m/%y").to_string()
}

/// A date written as `dd/mm/yy`.
pub open spec fn date_text(t: Seq<char>) -> bool {
    &&& t.len() == 8
    &&& t[2] == '/' && t[5] == '/'
    &&& forall|i: int| 0 <= i < 8 && i != 2 && i != 5 ==> crate::text::is_digit(#[trigger] t[i])
}

/// A fresh order with only the date filled in.
pub open spec fn fresh_draft(d: DraftView) -> bool {
    d.date matches Some(t) && date_text(t) && d == DraftView { date: d.date, ..empty_draft() }
}

/// The order forms in progress, by chat.
pub struct Sessions {
    values: HashMap<i64, Session>,
}

impl Sessions {
    pub closed spec fn sessions(&self) -> Map<i64, Session> {
        self.values@
    }

    pub fn new() -> (r: Sessions)
        ensures
            r.sessions() == Map::<i64, Session>::empty(),
    {
        Sessions { values: HashMap::new() }
    }

    /// An order dated today.
    pub fn initial_draft() -> (r: OrderDraft)
        ensures
            fresh_draft(r@),
    {
        let mut d = OrderDraft::default();
        d.date = Some(today());
        d
    }

    /// Starts a new order form in `chat_id`, replacing any form it had.
    pub fn start(&mut self, chat_id: i64, prompt_message_id: i64)
        ensures
            final(self).sessions().dom() == old(self).sessions().dom().insert(chat_id),
            forall|k: i64|
                k != chat_id && old(self).sessions().contains_key(k) ==> final(self).sessions()[k]
                    == old(self).sessions()[k],
            final(self).sessions()[chat_id].step == Step::OrderNumber,
            final(self).sessions()[chat_id].prompt_message_id == prompt_message_id,
            fresh_draft(final(self).sessions()[chat_id].draft@),
    {
        let session = Session {
            step: Step::OrderNumber,
            draft: Self::initial_draft(),
            prompt_message_id,
        };
        self.values.insert(chat_id, session);
    }

    pub fn contains(&self, chat_id: i64) -> (r: bool)
        ensures
            r == self.sessions().contains_key(chat_id),
    {
        self.values.contains_key(&chat_id)
    }

    pub fn remove(&mut self, chat_id: i64)
        ensures
            final(self).sessions() == old(self).sessions().remove(chat_id),
    {
        self.values.remove(&chat_id);
    }

    pub fn get_mut(&mut self, chat_id: i64) -> (r: Option<&mut Session>)
        ensures
            match r {
                Some(s) => old(self).sessions().contains_key(chat_id) && *s == old(
                    self,
                ).sessions()[chat_id] && final(self).sessions() == old(self).sessions().insert(
                    chat_id,
                    *final(s),
                ),
                None => !old(self).sessions().contains_key(chat_id) && final(self).sessions()
                    == old(self).sessions(),
            },
    {
        map_get_mut(&mut self.values, chat_id)
    }
}

#[derive(Debug, Clone, Copy, PartialEq, Eq, Structural)]
pub enum LoginStep {
    Login,
    Password,
}

/// A login in progress.
#[derive(Debug, Clone)]
pub struct LoginSession {
    pub step: LoginStep,
    pub prompt_message_id: i64,
    pub login: Option<String>,
}

/// The logins in progress, by chat.
pub struct LoginSessions {
    values: HashMap<i64, LoginSession>,
}

impl LoginSessions {
    pub closed spec fn logins(&self) -> Map<i64, LoginSession> {
        self.values@
    }

    pub fn new() -> (r: LoginSessions)
        ensures
            r.logins() == Map::<i64, LoginSession>::empty(),
    {
        LoginSessions { values: HashMap::new() }
    }

    /// Starts a login in `chat_id`: the login is asked first.
    pub fn start(&mut self, chat_id: i64, prompt_message_id: i64)
        ensures
            final(self).logins() == old(self).logins().insert(
                chat_id,
                LoginSession { step: LoginStep::Login, prompt_message_id, login: None },
            ),
    {
        self.values.insert(
            chat_id,
            LoginSession { step: LoginStep::Login, prompt_message_id, login: None },
        );
    }

    pub fn contains(&self, chat_id: i64) -> (r: bool)
        ensures
            r == self.logins().contains_key(chat_id),
    {
        self.values.contains_key(&chat_id)
    }

    pub fn remove(&mut self, chat_id: i64)
        ensures
            final(self).logins() == old(self).logins().remove(chat_id),
    {
        self.values.remove(&chat_id);
    }

    pub fn get_mut(&mut self, chat_id: i64) -> (r: Option<&mut LoginSession>)
        ensures
            match r {
                Some(s) => old(self).logins().contains_key(chat_id) && *s == old(self).logins()[chat_id]
                    && final(self).logins() == old(self).logins().insert(chat_id, *final(s)),
                None => !old(self).logins().contains_key(chat_id) && final(self).logins() == old(
                    self,
                ).logins(),
            },
    {
        map_get_mut(&mut self.values, chat_id)
    }
}

/// A login that was started and not removed is still waiting for its login.
pub proof fn lemma_started_login_waits_for_login(s: Map<i64, LoginSession>, chat_id: i64, prompt: i64)
    ensures
        s.insert(chat_id, LoginSession { step: LoginStep::Login, prompt_message_id: prompt, login: None })[chat_id].step == LoginStep::Login,
        !s.insert(chat_id, LoginSession { step: LoginStep::Login, prompt_message_id: prompt, login: None }).remove(chat_id).contains_key(chat_id),
{
}

} // verus!
