//! The battery slot: which power supplies are batteries, and how the text
//! read from a battery's files becomes one segment of the slot.

use vstd::prelude::*;
use vstd::string::StringExecFns;

use crate::text::{idec, join, join_strings, push_int, same_text, texts};

verus! {

/// What `str::trim` returns for a text.
pub uninterp spec fn trim_of(s: Seq<char>) -> Seq<char>;

/// Relies on `str::trim`: the text without its leading and trailing
/// whitespace, a function of the text alone.
#[verifier::external_body]
fn trim(s: &str) -> (r: &str)
    ensures
        r@ == trim_of(s@),
{
    s.trim()
}

/// `s` with every `c` taken out.
pub open spec fn without(s: Seq<char>, c: char) -> Seq<char>
    decreases s.len(),
{
    if s.len() == 0 {
        s
    } else if s.last() == c {
        without(s.drop_last(), c)
    } else {
        without(s.drop_last(), c).push(s.last())
    }
}

/// Takes every `c` out of `s`.
pub fn remove_char(s: &str, c: char) -> (r: String)
    ensures
        r@ == without(s@, c),
{
    let n = s.unicode_len();
    let mut out = String::new();
    let mut i: usize = 0;
    while i < n
        invariant
            n == s@.len(),
            i <= n,
            out@ == without(s@.take(i as int), c),
        decreases n - i,
    {
        proof {
            assert(s@.take(i + 1).drop_last() =~= s@.take(i as int));
        }
        if s.get_char(i) != c {
            let one = s.substring_char(i, i + 1);
            out.append(one);
            assert(one@ =~= seq![s@[i as int]]);
        }
        i = i + 1;
    }
    proof {
        assert(s@.take(i as int) =~= s@);
    }
    out
}

pub open spec fn is_digit(c: char) -> bool {
    '0' <= c && c <= '9'
}

/// The value of a run of decimal digits.
pub open spec fn digits_value(s: Seq<char>) -> int
    decreases s.len(),
{
    if s.len() == 0 {
        0
    } else {
        digits_value(s.drop_last()) * 10 + (s.last() as int - '0' as int)
    }
}

pub open spec fn all_digits(s: Seq<char>) -> bool {
    forall|i: int| 0 <= i < s.len() ==> is_digit(#[trigger] s[i])
}

/// The integer that a text writes: an optional sign, then at least one
/// decimal digit and nothing else.
pub open spec fn signed_value(s: Seq<char>) -> Option<int> {
    if s.len() > 0 && (s[0] == '-' || s[0] == '+') {
        let rest = s.drop_first();
        if rest.len() > 0 && all_digits(rest) {
            if s[0] == '-' {
                Some(-digits_value(rest))
            } else {
                Some(digits_value(rest))
            }
        } else {
            None
        }
    } else if s.len() > 0 && all_digits(s) {
        Some(digits_value(s))
    } else {
        None
    }
}

/// The `i32` that a text writes, if it writes one in range.
pub open spec fn parse_i32_of(s: Seq<char>) -> Option<int> {
    match signed_value(s) {
        Some(v) => if i32::MIN <= v <= i32::MAX {
            Some(v)
        } else {
            None
        },
        None => None,
    }
}

proof fn lemma_digits_grow(s: Seq<char>, k: int)
    requires
        all_digits(s),
        0 <= k <= s.len(),
    ensures
        0 <= digits_value(s.take(k)) <= digits_value(s),
    decreases s.len(),
{
    if s.len() > 0 {
        let p = s.drop_last();
        assert(all_digits(p)) by {
            assert forall|i: int| 0 <= i < p.len() implies is_digit(#[trigger] p[i]) by {
                assert(p[i] == s[i]);
            }
        }
        assert(is_digit(s[s.len() - 1]));
        if k == s.len() {
            assert(s.take(k) =~= s);
            lemma_digits_grow(p, 0);
        } else {
            assert(p.take(k) =~= s.take(k));
            lemma_digits_grow(p, k);
        }
    }
}

/// Reads an `i32` written in decimal with an optional sign.
pub fn parse_i32(s: &str) -> (r: Option<i32>)
    ensures
        match parse_i32_of(s@) {
            Some(v) => r == Some(v as i32),
            None => r is None,
        },
{
    let n = s.unicode_len();
    if n == 0 {
        return None;
    }
    let c0 = s.get_char(0);
    let neg = c0 == '-';
    let start: usize = if c0 == '-' || c0 == '+' { 1 } else { 0 };
    if start == n {
        return None;
    }
    let ghost body = s@.subrange(start as int, n as int);
    proof {
        if start == 1 {
            assert(body =~= s@.drop_first());
        } else {
            assert(body =~= s@);
        }
    }
    let mut acc: i64 = 0;
    let mut i: usize = start;
    while i < n
        invariant
            n == s@.len(),
            start <= i <= n,
            body == s@.subrange(start as int, n as int),
            s@.len() > 0,
            start <= 1,
            start == 1 <==> (s@[0] == '-' || s@[0] == '+'),
            start == 1 ==> body == s@.drop_first(),
            start == 0 ==> body == s@,
            neg == (s@[0] == '-'),
            all_digits(body.take(i - start)),
            acc == digits_value(body.take(i - start)),
            0 <= acc <= 2147483648,
        decreases n - i,
    {
        let c = s.get_char(i);
        let ghost pre = body.take(i - start);
        let ghost post = body.take(i - start + 1);
        proof {
            assert(post.drop_last() =~= pre);
            assert(post.last() == c);
        }
        if !('0' <= c && c <= '9') {
            proof {
                assert(!all_digits(body)) by {
                    assert(body[i - start] == c);
                }
            }
            return None;
        }
        acc = acc * 10 + (c as u32 - '0' as u32) as i64;
        proof {
            assert forall|j: int| 0 <= j < post.len() implies is_digit(#[trigger] post[j]) by {
                if j < pre.len() {
                    assert(post[j] == pre[j]);
                }
            }
        }
        if acc > 2147483648 {
            proof {
                if all_digits(body) {
                    lemma_digits_grow(body, i - start + 1);
                }
            }
            return None;
        }
        i = i + 1;
    }
    proof {
        assert(body.take(i - start) =~= body);
    }
    if neg {
        Some((-acc) as i32)
    } else if acc > 2147483647 {
        None
    } else {
        Some(acc as i32)
    }
}

/// The glyph for a battery status; an unknown status stands as it is.
pub open spec fn status_glyph_of(status: Seq<char>) -> Seq<char> {
    if status == "Discharging"@ {
        "🔋"@
    } else if status == "Charging"@ || status == "Not charging"@ {
        "🔌"@
    } else if status == "Unknown"@ {
        "♻️"@
    } else if status == "Full"@ {
        "⚡"@
    } else {
        status
    }
}

/// Power is not shown while a battery is charged.
pub open spec fn is_charging(status: Seq<char>) -> bool {
    status == "Charging"@ || status == "Not charging"@
}

/// A battery's segment: status glyph, a warning mark below 25%, the
/// charge, and the power drawn unless it is being charged.
pub open spec fn segment_of(capacity: int, status: Seq<char>, watts: Option<Seq<char>>) -> Seq<
    char,
> {
    let mark = if capacity < 25 {
        "❗"@
    } else {
        " "@
    };
    let head = status_glyph_of(status) + mark + idec(capacity) + "%"@;
    match watts {
        Some(w) => if is_charging(status) {
            head
        } else {
            head + " ("@ + w + "W)"@
        },
        None => head,
    }
}

/// The charge a capacity file holds: trimmed, `$` taken out, read as an
/// integer.
pub open spec fn capacity_of(raw: Seq<char>) -> Option<int> {
    parse_i32_of(without(trim_of(raw), '$'))
}

/// The status a status file holds: trimmed, commas taken out.
pub open spec fn status_of(raw: Seq<char>) -> Seq<char> {
    without(trim_of(raw), ',')
}

/// One battery's segment from the text of its capacity and status files
/// and its power draw already written with two decimals; `None` when the
/// capacity is not an integer.
pub fn battery_segment(capacity: &str, status: &str, watts: Option<String>) -> (r: Option<String>)
    ensures
        match capacity_of(capacity@) {
            Some(cap) => r matches Some(t) && t@ == segment_of(
                cap,
                status_of(status@),
                match watts {
                    Some(w) => Some(w@),
                    None => None,
                },
            ),
            None => r is None,
        },
{
    let cleaned = remove_char(trim(capacity), '$');
    let cap = match parse_i32(cleaned.as_str()) {
        Some(c) => c,
        None => return None,
    };
    let st = remove_char(trim(status), ',');
    let charging = same_text(st.as_str(), "Charging") || same_text(st.as_str(), "Not charging");
    let mut out = if same_text(st.as_str(), "Discharging") {
        String::from_str("🔋")
    } else if charging {
        String::from_str("🔌")
    } else if same_text(st.as_str(), "Unknown") {
        String::from_str("♻️")
    } else if same_text(st.as_str(), "Full") {
        String::from_str("⚡")
    } else {
        st.clone()
    };
    if cap < 25 {
        out.append("❗");
    } else {
        out.append(" ");
    }
    push_int(&mut out, cap as i64);
    out.append("%");
    match watts {
        Some(w) => {
            if !charging {
                out.append(" (");
                out.append(w.as_str());
                out.append("W)");
            }
        },
        None => {},
    }
    Some(out)
}

/// The slot's text from its batteries' segments: nothing when there is
/// none, else the segments joined.
pub fn battery_line(segments: &Vec<String>) -> (r: Option<String>)
    ensures
        segments@.len() == 0 ==> (r is None),
        segments@.len() > 0 ==> (r matches Some(t) && t@ == join(texts(segments@), " | "@)),
{
    if segments.len() == 0 {
        None
    } else {
        Some(join_strings(segments, " | "))
    }
}

/// The directory whose entries are the power supplies.
pub open spec fn supply_dir() -> Seq<char> {
    "/sys/class/power_supply/"@
}

/// A power supply is a battery when its name starts with `BAT`.
pub open spec fn is_battery_name(name: Seq<char>) -> bool {
    name.len() >= 3 && name.take(3) == "BAT"@
}

/// The paths of the batteries among the named power supplies, in order.
pub open spec fn battery_paths(names: Seq<Seq<char>>) -> Seq<Seq<char>>
    decreases names.len(),
{
    if names.len() == 0 {
        Seq::empty()
    } else if is_battery_name(names.last()) {
        battery_paths(names.drop_last()).push(supply_dir() + names.last())
    } else {
        battery_paths(names.drop_last())
    }
}

/// The batteries of the machine, by the path of their directory.
pub struct Battery {
    batteries: Vec<String>,
}

impl Battery {
    /// The paths of the batteries, in the order they were found.
    pub closed spec fn paths(&self) -> Seq<Seq<char>> {
        texts(self.batteries@)
    }

    /// Picks the batteries out of the names of the power supplies.
    pub fn new(names: &Vec<String>) -> (r: Battery)
        ensures
            r.paths() == battery_paths(texts(names@)),
    {
        let mut batteries: Vec<String> = Vec::new();
        let mut i: usize = 0;
        while i < names.len()
            invariant
                i <= names@.len(),
                texts(batteries@) == battery_paths(texts(names@.take(i as int))),
            decreases names@.len() - i,
        {
            let name = names[i].as_str();
            proof {
                assert(texts(names@.take(i + 1)).drop_last() =~= texts(names@.take(i as int)));
                assert(texts(names@.take(i + 1)).last() == name@);
            }
            let n = name.unicode_len();
            if n >= 3 && same_text(name.substring_char(0, 3), "BAT") {
                let mut path = String::from_str("/sys/class/power_supply/");
                path.append(name);
                batteries.push(path);
                proof {
                    assert(texts(batteries@) =~= battery_paths(texts(names@.take(i + 1))));
                }
            } else {
                proof {
                    assert(!is_battery_name(name@)) by {
                        if n >= 3 {
                            assert(name@.take(3) =~= name@.subrange(0, 3));
                        }
                    }
                }
            }
            i = i + 1;
        }
        proof {
            assert(names@.take(i as int) =~= names@);
        }
        Battery { batteries }
    }

    /// The paths of the batteries.
    pub fn batteries(&self) -> (r: &Vec<String>)
        ensures
            texts(r@) == self.paths(),
    {
        &self.batteries
    }
}

} // verus!
