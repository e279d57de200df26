//! The network-link slot: the wireless interface's link quality and whether
//! the interface is up.

use vstd::prelude::*;
use vstd::string::StringExecFns;

use crate::battery::{parse_i32, parse_i32_of};
use crate::text::{idec, push_int, same_text, texts};

verus! {

/// What `str::lines` returns for a text.
pub uninterp spec fn lines_of(s: Seq<char>) -> Seq<Seq<char>>;

/// What `str::split_whitespace` returns for a text.
pub uninterp spec fn words_of(s: Seq<char>) -> Seq<Seq<char>>;

/// Relies on `str::lines`: the lines of a text, a function of the text
/// alone.
#[verifier::external_body]
fn lines(s: &str) -> (r: Vec<String>)
    ensures
        texts(r@) == lines_of(s@),
{
    s.lines().map(|l| l.to_string()).collect()
}

/// Relies on `str::split_whitespace`: the words of a text, a function of
/// the text alone.
#[verifier::external_body]
fn words(s: &str) -> (r: Vec<String>)
    ensures
        texts(r@) == words_of(s@),
{
    s.split_whitespace().map(|w| w.to_string()).collect()
}

/// The first of the lines that starts with `w`: the wireless interface's.
pub open spec fn first_w_line(ls: Seq<Seq<char>>) -> Option<Seq<char>>
    decreases ls.len(),
{
    if ls.len() == 0 {
        None
    } else if ls[0].len() > 0 && ls[0][0] == 'w' {
        Some(ls[0])
    } else {
        first_w_line(ls.drop_first())
    }
}

/// A word without its last character (the interface name ends in `:`).
pub open spec fn without_last(w: Seq<char>) -> Seq<char> {
    if w.len() > 0 {
        w.drop_last()
    } else {
        w
    }
}

/// The link quality a word writes: an integer, with or without a trailing
/// `.`.
pub open spec fn quality_of(w: Seq<char>) -> Option<int> {
    if w.len() > 0 && w.last() == '.' {
        parse_i32_of(w.drop_last())
    } else {
        parse_i32_of(w)
    }
}

/// The interface's name and link quality from the wireless statistics: the
/// first word of the interface's line names it, the third is its quality.
pub open spec fn link_of(content: Seq<char>) -> Option<(Seq<char>, int)> {
    match first_w_line(lines_of(content)) {
        None => None,
        Some(line) => {
            let ws = words_of(line);
            if ws.len() >= 3 {
                match quality_of(ws[2]) {
                    Some(q) => Some((without_last(ws[0]), q)),
                    None => None,
                }
            } else {
                None
            }
        },
    }
}

/// The quality as a percentage of the best quality, 70, cut towards zero.
pub open spec fn link_percent_of(q: int) -> int {
    if q >= 0 {
        q * 100 / 70
    } else {
        -((-q) * 100 / 70)
    }
}

/// What the slot shows: a globe when the interface is up, a cross when not,
/// then the quality's percentage.
pub open spec fn link_text_of(up: bool, q: int) -> Seq<char> {
    (if up {
        "🌍"@
    } else {
        "❎"@
    }) + " "@ + idec(link_percent_of(q)) + "%"@
}

/// Whether an operational-state file says the interface is up: its first
/// line is `up`.
pub open spec fn is_up_of(operstate: Seq<char>) -> bool {
    lines_of(operstate).len() > 0 && lines_of(operstate)[0] == "up"@
}

proof fn lemma_first_w_skip(ls: Seq<Seq<char>>, i: int)
    requires
        0 <= i <= ls.len(),
        forall|j: int| 0 <= j < i ==> !(ls[j].len() > 0 && ls[j][0] == 'w'),
    ensures
        first_w_line(ls) == first_w_line(ls.skip(i)),
    decreases i,
{
    if i > 0 {
        assert forall|j: int| 0 <= j < i - 1 implies !(ls.drop_first()[j].len() > 0
            && ls.drop_first()[j][0] == 'w') by {
            assert(ls.drop_first()[j] == ls[j + 1]);
        }
        lemma_first_w_skip(ls.drop_first(), i - 1);
        assert(!(ls[0].len() > 0 && ls[0][0] == 'w'));
        assert(ls.drop_first().skip(i - 1) =~= ls.skip(i));
    } else {
        assert(ls.skip(0) =~= ls);
    }
}

/// The wireless interface: its statistics and state are read anew on each
/// tick.
pub struct Internet {}

impl Internet {
    pub fn new() -> (r: Internet) {
        Internet {}
    }

    /// The interface's name and link quality, if the statistics list a
    /// wireless interface with a readable quality.
    pub fn link(content: &str) -> (r: Option<(String, i32)>)
        ensures
            match link_of(content@) {
                Some((id, q)) => r matches Some((a, b)) && a@ == id && b as int == q,
                None => r is None,
            },
    {
        let ls = lines(content);
        let ghost lv = texts(ls@);
        let mut i: usize = 0;
        while i < ls.len()
            invariant
                i <= ls@.len(),
                lv == texts(ls@),
                lv == lines_of(content@),
                forall|j: int| 0 <= j < i ==> !(lv[j].len() > 0 && lv[j][0] == 'w'),
            decreases ls@.len() - i,
        {
            let line = ls[i].as_str();
            let starts_w = line.unicode_len() > 0 && line.get_char(0) == 'w';
            if starts_w {
                proof {
                    lemma_first_w_skip(lv, i as int);
                    assert(lv.skip(i as int)[0] == lv[i as int]);
                }
                let ws = words(line);
                if ws.len() < 3 {
                    return None;
                }
                let w2 = ws[2].as_str();
                let n2 = w2.unicode_len();
                let q = if n2 > 0 && w2.get_char(n2 - 1) == '.' {
                    let head = w2.substring_char(0, n2 - 1);
                    assert(head@ =~= w2@.drop_last());
                    parse_i32(head)
                } else {
                    parse_i32(w2)
                };
                let q = match q {
                    Some(q) => q,
                    None => return None,
                };
                let w0 = ws[0].as_str();
                let n0 = w0.unicode_len();
                let id = if n0 > 0 {
                    let head = w0.substring_char(0, n0 - 1);
                    assert(head@ =~= w0@.drop_last());
                    String::from_str(head)
                } else {
                    String::from_str(w0)
                };
                proof {
                    assert(texts(ws@)[0] == w0@);
                    assert(texts(ws@)[2] == w2@);
                }
                return Some((id, q));
            }
            i = i + 1;
        }
        proof {
            lemma_first_w_skip(lv, i as int);
        }
        None
    }

    /// The file that holds the interface's operational state.
    pub fn operstate_path(id: &str) -> (r: String)
        ensures
            r@ == "/sys/class/net/"@ + id@ + "/operstate"@,
    {
        let mut s = String::from_str("/sys/class/net/");
        s.append(id);
        s.append("/operstate");
        s
    }

    /// Whether the operational-state file says the interface is up.
    pub fn is_up(operstate: &str) -> (r: bool)
        ensures
            r == is_up_of(operstate@),
    {
        let ls = lines(operstate);
        proof {
            if ls@.len() > 0 {
                assert(texts(ls@)[0] == ls@[0]@);
            }
        }
        ls.len() > 0 && same_text(ls[0].as_str(), "up")
    }

    /// The slot's text.
    pub fn text(up: bool, quality: i32) -> (r: String)
        ensures
            r@ == link_text_of(up, quality as int),
    {
        let mut s = if up {
            String::from_str("🌍")
        } else {
            String::from_str("❎")
        };
        s.append(" ");
        let q = quality as i64;
        let pct: i64 = if q >= 0 {
            q * 100 / 70
        } else {
            -((-q) * 100 / 70)
        };
        push_int(&mut s, pct);
        s.append("%");
        s
    }
}

} // verus!
