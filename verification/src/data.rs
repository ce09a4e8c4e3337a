//! The records that the tool keeps between runs: the account, the
//! user-agent, the serialized cookie state and the webhook address, and the
//! migration of records written by earlier layouts.
use vstd::prelude::*;
use vstd::string::*;

use vstd::pervasive::unreached;

use crate::session::fresh_user_agent;

verus! {

/// The provider account: a mail address and a password.
#[derive(Debug, Clone, PartialEq, Eq)]
pub struct Account {
    pub email: String,
    pub password: String,
}

impl Account {
    /// Make an account record from its two parts.
    pub fn new(email: String, password: String) -> (r: Account)
        ensures
            r.email@ == email@,
            r.password@ == password@,
    {
        Account { email, password }
    }
}

/// Everything the tool keeps between runs.
#[derive(Debug, Clone, PartialEq, Eq)]
pub struct Data {
    account: Account,
    ua: String,
    cookie: Option<String>,
    webhook: Option<String>,
}

impl Data {
    pub closed spec fn spec_account(&self) -> Account {
        self.account
    }

    pub closed spec fn spec_ua(&self) -> Seq<char> {
        self.ua@
    }

    pub closed spec fn spec_cookie(&self) -> Option<Seq<char>> {
        match self.cookie {
            Some(c) => Some(c@),
            None => None,
        }
    }

    pub closed spec fn spec_webhook(&self) -> Option<Seq<char>> {
        match self.webhook {
            Some(w) => Some(w@),
            None => None,
        }
    }

    /// Assemble a record from its parts.
    pub fn assemble(
        account: Account,
        ua: String,
        cookie: Option<String>,
        webhook: Option<String>,
    ) -> (r: Data)
        ensures
            r.spec_account() == account,
            r.spec_ua() == ua@,
            r.spec_cookie() == (match cookie {
                Some(c) => Some(c@),
                None => None::<Seq<char>>,
            }),
            r.spec_webhook() == (match webhook {
                Some(w) => Some(w@),
                None => None::<Seq<char>>,
            }),
    {
        Data { account, ua, cookie, webhook }
    }

    /// The stored account.
    pub fn get_account(&self) -> (r: &Account)
        ensures
            r == self.spec_account(),
    {
        &self.account
    }

    /// The stored user-agent.
    pub fn get_ua(&self) -> (r: String)
        ensures
            r@ == self.spec_ua(),
    {
        self.ua.clone()
    }

    /// The serialized cookie state, if any was saved.
    pub fn get_cookie(&self) -> (r: Option<String>)
        ensures
            (match r {
                Some(c) => Some(c@),
                None => None,
            }) == self.spec_cookie(),
    {
        match &self.cookie {
            Some(c) => Some(c.clone()),
            None => None,
        }
    }

    /// The webhook address, if one was set.
    pub fn get_webhook(&self) -> (r: Option<String>)
        ensures
            (match r {
                Some(w) => Some(w@),
                None => None,
            }) == self.spec_webhook(),
    {
        match &self.webhook {
            Some(w) => Some(w.clone()),
            None => None,
        }
    }
}

/// The record store's state: a record, or nothing saved yet.
pub struct OptionData(pub Option<Data>);

impl OptionData {
    pub open spec fn spec_is_some(&self) -> bool {
        self.0 is Some
    }

    pub open spec fn spec_data(&self) -> Data
        recommends
            self.spec_is_some(),
    {
        self.0->Some_0
    }

    /// Whether a record has been saved.
    pub fn is_some(&self) -> (r: bool)
        ensures
            r == self.spec_is_some(),
    {
        match self.0 {
            Some(_) => true,
            None => false,
        }
    }

    /// The record; the caller must know one is there.
    pub fn unwrap(&self) -> (r: &Data)
        requires
            self.spec_is_some(),
        ensures
            r == self.spec_data(),
    {
        match &self.0 {
            Some(d) => d,
            None => unreached(),
        }
    }

    /// Replace the account: the webhook survives, the user-agent is drawn
    /// fresh, and any cookie state is dropped.
    pub fn save_account(&mut self, account: Account)
        ensures
            final(self).spec_is_some(),
            final(self).spec_data().spec_account() == account,
            final(self).spec_data().spec_cookie() is None,
            final(self).spec_data().spec_webhook() == (match old(self).0 {
                Some(d) => d.spec_webhook(),
                None => None::<Seq<char>>,
            }),
    {
        let webhook = match &self.0 {
            Some(d) => d.get_webhook(),
            None => None,
        };
        let ua = fresh_user_agent();
        self.0 = Some(Data { account, ua, cookie: None, webhook });
    }

    /// Store fresh cookie state; there must already be a record.
    pub fn save_cookie(&mut self, cookie: String)
        requires
            old(self).spec_is_some(),
        ensures
            final(self).spec_is_some(),
            final(self).spec_data().spec_cookie() == Some(cookie@),
            final(self).spec_data().spec_account() == old(self).spec_data().spec_account(),
            final(self).spec_data().spec_ua() == old(self).spec_data().spec_ua(),
            final(self).spec_data().spec_webhook() == old(self).spec_data().spec_webhook(),
    {
        match &mut self.0 {
            Some(d) => {
                d.cookie = Some(cookie);
            },
            None => {},
        }
    }

    /// Store the webhook address; without a record nothing changes and the
    /// caller is told so.
    pub fn save_webhook(&mut self, url: Option<String>) -> (r: bool)
        ensures
            r == old(self).spec_is_some(),
            final(self).spec_is_some() == old(self).spec_is_some(),
            old(self).spec_is_some() ==> {
                &&& final(self).spec_data().spec_webhook() == (match url {
                    Some(u) => Some(u@),
                    None => None::<Seq<char>>,
                })
                &&& final(self).spec_data().spec_account() == old(
                    self,
                ).spec_data().spec_account()
                &&& final(self).spec_data().spec_ua() == old(self).spec_data().spec_ua()
                &&& final(self).spec_data().spec_cookie() == old(
                    self,
                ).spec_data().spec_cookie()
            },
            !old(self).spec_is_some() ==> final(self).0 == old(self).0,
    {
        match &mut self.0 {
            Some(d) => {
                d.webhook = url;
                true
            },
            None => false,
        }
    }
}

// ---------------------------------------------------------------------------
// Migration of records written by earlier layouts
// ---------------------------------------------------------------------------

/// The oldest record layout: no webhook yet.
#[derive(Debug, Clone, PartialEq, Eq)]
pub struct OldDataV1 {
    pub account: Account,
    pub ua: String,
    pub cookie: Option<String>,
}

/// The later record layout, with the webhook.
#[derive(Debug, Clone, PartialEq, Eq)]
pub struct OldDataV2 {
    pub account: Account,
    pub ua: String,
    pub cookie: Option<String>,
    pub webhook: Option<String>,
}

/// What an old save file held, if anything.
pub enum OldData {
    V1(OldDataV1),
    V2(OldDataV2),
    Missing,
}

/// Carry an old record over into the current layout.  The oldest layout had
/// no webhook, so none is carried; a missing file carries nothing.
pub fn upgrade_old_data(old_data: OldData) -> (r: Option<Data>)
    ensures
        (match old_data {
            OldData::V1(d) => r matches Some(n) && n.spec_account() == d.account
                && n.spec_ua() == d.ua@ && n.spec_cookie() == (match d.cookie {
                Some(c) => Some(c@),
                None => None::<Seq<char>>,
            }) && n.spec_webhook() is None,
            OldData::V2(d) => r matches Some(n) && n.spec_account() == d.account
                && n.spec_ua() == d.ua@ && n.spec_cookie() == (match d.cookie {
                Some(c) => Some(c@),
                None => None::<Seq<char>>,
            }) && n.spec_webhook() == (match d.webhook {
                Some(w) => Some(w@),
                None => None::<Seq<char>>,
            }),
            OldData::Missing => r is None,
        }),
{
    match old_data {
        OldData::V1(d) => Some(
            Data { account: d.account, ua: d.ua, cookie: d.cookie, webhook: None },
        ),
        OldData::V2(d) => Some(
            Data { account: d.account, ua: d.ua, cookie: d.cookie, webhook: d.webhook },
        ),
        OldData::Missing => None,
    }
}

} // verus!
