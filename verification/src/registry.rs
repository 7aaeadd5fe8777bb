//! Which chat plays which role for the bot.
use vstd::prelude::*;

use crate::text::{eq_str, lower_chars, lower_seq, trim, trim_str};

verus! {

/// The three chats that the bot needs.
#[derive(Debug, Clone, Copy, PartialEq, Eq, Structural)]
pub struct BotRegistry {
    pub order_chat_id: Option<i64>,
    pub calc_chat_id: Option<i64>,
    pub admin_chat_id: Option<i64>,
}

impl Default for BotRegistry {
    fn default() -> (r: Self)
        ensures
            r.order_chat_id is None,
            r.calc_chat_id is None,
            r.admin_chat_id is None,
    {
        BotRegistry { order_chat_id: None, calc_chat_id: None, admin_chat_id: None }
    }
}

#[derive(Debug, Clone, Copy, PartialEq, Eq, Structural)]
pub enum ChatRole {
    Order,
    Calc,
    Admin,
}

impl BotRegistry {
    pub open spec fn ready(self) -> bool {
        self.order_chat_id is Some && self.calc_chat_id is Some && self.admin_chat_id is Some
    }

    /// The registry with `role` played by `chat_id`.
    pub open spec fn with_role(self, role: ChatRole, chat_id: i64) -> BotRegistry {
        match role {
            ChatRole::Order => BotRegistry { order_chat_id: Some(chat_id), ..self },
            ChatRole::Calc => BotRegistry { calc_chat_id: Some(chat_id), ..self },
            ChatRole::Admin => BotRegistry { admin_chat_id: Some(chat_id), ..self },
        }
    }

    /// All three chats are known.
    pub fn is_ready(&self) -> (r: bool)
        ensures
            r == self.ready(),
    {
        self.order_chat_id.is_some() && self.calc_chat_id.is_some() && self.admin_chat_id.is_some()
    }

    pub fn set_role(&mut self, role: ChatRole, chat_id: i64)
        ensures
            *final(self) == old(self).with_role(role, chat_id),
    {
        match role {
            ChatRole::Order => self.order_chat_id = Some(chat_id),
            ChatRole::Calc => self.calc_chat_id = Some(chat_id),
            ChatRole::Admin => self.admin_chat_id = Some(chat_id),
        }
    }
}

/// Once each of the three roles has been given a chat, in any order and
/// whatever else happened before, the registry is ready.
pub proof fn lemma_ready_after_every_role(
    r: BotRegistry,
    first: (ChatRole, i64),
    second: (ChatRole, i64),
    third: (ChatRole, i64),
)
    requires
        first.0 != second.0,
        first.0 != third.0,
        second.0 != third.0,
    ensures
        r.with_role(first.0, first.1).with_role(second.0, second.1).with_role(
            third.0,
            third.1,
        ).ready(),
{
}

/// Giving a role to a chat changes no other role.
pub proof fn lemma_set_role_keeps_other_roles(r: BotRegistry, role: ChatRole, chat_id: i64)
    ensures
        role != ChatRole::Order ==> r.with_role(role, chat_id).order_chat_id == r.order_chat_id,
        role != ChatRole::Calc ==> r.with_role(role, chat_id).calc_chat_id == r.calc_chat_id,
        role != ChatRole::Admin ==> r.with_role(role, chat_id).admin_chat_id == r.admin_chat_id,
{
}

/// The role that a login and password unlock: the login is compared trimmed
/// and in lower case, the password trimmed.
pub open spec fn credentials_role(login: Seq<char>, password: Seq<char>) -> Option<ChatRole> {
    let l = lower_seq(trim(login));
    let p = trim(password);
    if l == "guruh"@ && p == "@#12asn"@ {
        Some(ChatRole::Order)
    } else if l == "hisob"@ && p == "@#12hsb"@ {
        Some(ChatRole::Calc)
    } else if l == "chat"@ && p == "@#12"@ {
        Some(ChatRole::Admin)
    } else {
        None
    }
}

impl ChatRole {
    pub fn from_credentials(login: &str, password: &str) -> (r: Option<ChatRole>)
        ensures
            r == credentials_role(login@, password@),
    {
        let t = trim_str(login);
        let l = lower_chars(&t);
        let p = trim_str(password);
        if eq_str(&l, "guruh") && eq_str(&p, "@#12asn") {
            Some(ChatRole::Order)
        } else if eq_str(&l, "hisob") && eq_str(&p, "@#12hsb") {
            Some(ChatRole::Calc)
        } else if eq_str(&l, "chat") && eq_str(&p, "@#12") {
            Some(ChatRole::Admin)
        } else {
            None
        }
    }

    pub open spec fn label_spec(self) -> Seq<char> {
        match self {
            ChatRole::Order => "ma'lumot tashlaydigan guruh"@,
            ChatRole::Calc => "hisob-kitob guruhi"@,
            ChatRole::Admin => "admin chat"@,
        }
    }

    pub fn label(self) -> (r: &'static str)
        ensures
            r@ == self.label_spec(),
    {
        match self {
            ChatRole::Order => "ma'lumot tashlaydigan guruh",
            ChatRole::Calc => "hisob-kitob guruhi",
            ChatRole::Admin => "admin chat",
        }
    }
}

/// The registry together with the file it is kept in.
#[derive(Debug, Clone)]
pub struct RegistryStore {
    path: String,
    value: BotRegistry,
}

impl RegistryStore {
    pub closed spec fn path_spec(&self) -> Seq<char> {
        self.path@
    }

    pub closed spec fn value_spec(&self) -> BotRegistry {
        self.value
    }

    /// A store for the file at `path`, from what reading that file gave.
    pub fn load(path: String, loaded: Result<BotRegistry, String>) -> (r: Result<RegistryStore, String>)
        ensures
            match (r, loaded) {
                (Ok(s), Ok(v)) => s.path_spec() == path@ && s.value_spec() == v,
                (Err(a), Err(b)) => a@ == b@,
                _ => false,
            },
    {
        let value = loaded?;
        Ok(RegistryStore { path, value })
    }

    pub fn value(&self) -> (r: &BotRegistry)
        ensures
            *r == self.value_spec(),
    {
        &self.value
    }

    pub fn path(&self) -> (r: &str)
        ensures
            r@ == self.path_spec(),
    {
        self.path.as_str()
    }

    /// Gives `role` to `chat_id`; the caller then writes `value()` to `path()`.
    pub fn set_role(&mut self, role: ChatRole, chat_id: i64)
        ensures
            final(self).value_spec() == old(self).value_spec().with_role(role, chat_id),
            final(self).path_spec() == old(self).path_spec(),
    {
        self.value.set_role(role, chat_id);
    }
}

} // verus!
