//! The news slot: unread items of the feed reader's cache.

use vstd::prelude::*;
use vstd::string::StringExecFns;

use crate::text::{idec, push_int};

verus! {

/// The feed reader's cache database.
pub open spec fn news_db_of(home: Seq<char>) -> Seq<char> {
    home + "/.local/share/newsboat/cache.db"@
}

/// The file that is present while the feed reader refreshes its feeds.
pub open spec fn news_update_marker_of(home: Seq<char>) -> Seq<char> {
    home + "/.config/newsboat/.update"@
}

/// What the slot shows: a refresh mark while feeds are refreshed, else the
/// number of unread items, and nothing when there is none.
pub open spec fn news_text_of(refreshing: bool, unread: int) -> Option<Seq<char>> {
    if refreshing {
        Some("📰 🔃"@)
    } else if unread == 0 {
        None
    } else {
        Some("📰 "@ + idec(unread))
    }
}

/// The path of the feed reader's cache database.
pub fn news_db(home: &str) -> (r: String)
    ensures
        r@ == news_db_of(home@),
{
    let mut s = String::from_str(home);
    s.append("/.local/share/newsboat/cache.db");
    s
}

/// The path of the marker of a running refresh.
pub fn news_update_marker(home: &str) -> (r: String)
    ensures
        r@ == news_update_marker_of(home@),
{
    let mut s = String::from_str(home);
    s.append("/.config/newsboat/.update");
    s
}

/// The slot's text.
pub fn news_text(refreshing: bool, unread: i64) -> (r: Option<String>)
    ensures
        match news_text_of(refreshing, unread as int) {
            Some(t) => r matches Some(s) && s@ == t,
            None => r is None,
        },
{
    if refreshing {
        Some(String::from_str("📰 🔃"))
    } else if unread == 0 {
        None
    } else {
        let mut s = String::from_str("📰 ");
        push_int(&mut s, unread);
        Some(s)
    }
}

} // verus!
