//! The mailbox slot: new mail in the inboxes below the user's mail
//! directory.

use vstd::prelude::*;
use vstd::string::StringExecFns;

use crate::collector::BlockError;
use crate::text::{dec, push_dec};

verus! {

/// The user's mail directory.
pub open spec fn mail_dir_of(home: Seq<char>) -> Seq<char> {
    home + "/.local/share/mail/"@
}

/// The pattern of the files that are new mail in some account's inbox.
pub open spec fn new_mail_pattern_of(home: Seq<char>) -> Seq<char> {
    home + "/.local/share/mail/*/INBOX/new/*"@
}

/// What the slot shows for a number of new mails: nothing for none.
pub open spec fn mail_text_of(count: nat) -> Option<Seq<char>> {
    if count == 0 {
        None
    } else {
        Some("📬 "@ + dec(count))
    }
}

/// The mailbox: where new mail lies.
pub struct Mailbox {
    pattern: String,
}

impl Mailbox {
    /// The pattern that the new mail matches.
    pub closed spec fn pattern_view(&self) -> Seq<char> {
        self.pattern@
    }

    /// The directory whose presence enables the mailbox.
    pub fn mail_dir(home: &str) -> (r: String)
        ensures
            r@ == mail_dir_of(home@),
    {
        let mut s = String::from_str(home);
        s.append("/.local/share/mail/");
        s
    }

    /// The mailbox of the user with this home, if the mail directory
    /// exists; else the slot is left out for good.
    pub fn new(home: &str, mail_dir_exists: bool) -> (r: Result<Mailbox, BlockError>)
        ensures
            mail_dir_exists <==> r is Ok,
            r matches Ok(m) ==> m.pattern_view() == new_mail_pattern_of(home@),
    {
        if !mail_dir_exists {
            return Err(BlockError::new("mailbox does not exist"));
        }
        let mut pattern = String::from_str(home);
        pattern.append("/.local/share/mail/*/INBOX/new/*");
        Ok(Mailbox { pattern })
    }

    /// The pattern that the new mail matches.
    pub fn pattern(&self) -> (r: &str)
        ensures
            r@ == self.pattern_view(),
    {
        self.pattern.as_str()
    }

    /// The slot's text for a number of new mails.
    pub fn text(count: u64) -> (r: Option<String>)
        ensures
            match mail_text_of(count as nat) {
                Some(t) => r matches Some(s) && s@ == t,
                None => r is None,
            },
    {
        if count == 0 {
            None
        } else {
            let mut s = String::from_str("📬 ");
            push_dec(&mut s, count);
            Some(s)
        }
    }
}

} // verus!
