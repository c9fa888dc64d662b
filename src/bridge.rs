//! Reading the output of the tunnel program: its public address and what its
//! lines say about the tunnel's state.
use vstd::prelude::*;
use crate::model::BridgeStatus;
use crate::text::{contains_text, find_text, first_at, has_infix, split_words, words};

verus! {

/// What `str::to_lowercase` makes of a text.
pub uninterp spec fn lower_of(s: Seq<char>) -> Seq<char>;

/// Relies on str::to_lowercase: the result depends on the characters alone.
#[verifier::external_body]
fn lowercase_text(s: &str) -> (r: String)
    ensures
        r@ == lower_of(s@),
{
    s.to_lowercase()
}

pub open spec fn quote_like(c: char) -> bool {
    c == '"' || c == '\'' || c == ',' || c == '.'
}

pub open spec fn strip_front(s: Seq<char>) -> Seq<char>
    decreases s.len(),
{
    if s.len() > 0 && quote_like(s[0]) {
        strip_front(s.subrange(1, s.len() as int))
    } else {
        s
    }
}

pub open spec fn strip_back(s: Seq<char>) -> Seq<char>
    decreases s.len(),
{
    if s.len() > 0 && quote_like(s.last()) {
        strip_back(s.drop_last())
    } else {
        s
    }
}

/// A text without the quotes, commas and dots around it.
pub open spec fn strip_quotes(s: Seq<char>) -> Seq<char> {
    strip_back(strip_front(s))
}

fn quote_char(c: char) -> (r: bool)
    ensures
        r == quote_like(c),
{
    c == '"' || c == '\'' || c == ',' || c == '.'
}

/// Removes quotes, commas and dots from both ends of a text.
pub fn trim_quotes(s: &str) -> (r: String)
    ensures
        r@ == strip_quotes(s@),
{
    let n = s.unicode_len();
    let mut a: usize = 0;
    assert(s@.subrange(0, n as int) =~= s@);
    while a < n && quote_char(s.get_char(a))
        invariant
            a <= n,
            n == s@.len(),
            strip_front(s@) == strip_front(s@.subrange(a as int, n as int)),
        decreases n - a,
    {
        assert(s@.subrange(a as int, n as int).subrange(1, n - a) =~= s@.subrange(
            a as int + 1,
            n as int,
        ));
        a = a + 1;
    }
    let ghost front = s@.subrange(a as int, n as int);
    assert(front.len() == 0 || front[0] == s@[a as int]);
    assert(strip_front(front) == front);
    let mut b: usize = n;
    while b > a && quote_char(s.get_char(b - 1))
        invariant
            a <= b <= n,
            n == s@.len(),
            front == s@.subrange(a as int, n as int),
            strip_back(front) == strip_back(s@.subrange(a as int, b as int)),
        decreases b,
    {
        assert(s@.subrange(a as int, b as int).drop_last() =~= s@.subrange(a as int, b as int - 1));
        b = b - 1;
    }
    let ghost back = s@.subrange(a as int, b as int);
    assert(back.len() == 0 || back.last() == s@[b - 1]);
    assert(strip_back(back) == back);
    String::from_str(s.substring_char(a, b))
}

/// The first word, from index `from` on, in which `p` occurs.
pub open spec fn first_word_with(ws: Seq<Seq<char>>, p: Seq<char>, from: int) -> Option<int>
    decreases ws.len() - from,
{
    if from < 0 || from >= ws.len() {
        None
    } else if has_infix(ws[from], p) {
        Some(from)
    } else {
        first_word_with(ws, p, from + 1)
    }
}

/// The tunnel address in a line of output: the first word holding
/// "bore.pub:", without quotes, commas and dots around it; failing that, the
/// word after the first " at ", when it holds "bore.pub".
pub open spec fn bore_address(text: Seq<char>) -> Option<Seq<char>> {
    let ws = words(text);
    match first_word_with(ws, "bore.pub:"@, 0) {
        Some(i) => Some(strip_quotes(ws[i])),
        None => match first_at(text, " at "@, 0) {
            Some(a) => {
                let rest = words(text.subrange(a + 4, text.len() as int));
                if rest.len() > 0 && has_infix(rest[0], "bore.pub"@) {
                    Some(rest[0])
                } else {
                    None
                }
            },
            None => None,
        },
    }
}

/// Finds the tunnel address ("bore.pub:PORT") in a line of output.
pub fn extract_bore_address(text: &str) -> (r: Option<String>)
    ensures
        match r {
            Some(a) => bore_address(text@) == Some(a@),
            None => bore_address(text@) is None,
        },
{
    let ws = split_words(text);
    let ghost wv = ws@.map_values(|t: String| t@);
    let key = "bore.pub:";
    let mut i: usize = 0;
    while i < ws.len()
        invariant
            i <= ws@.len(),
            wv == ws@.map_values(|t: String| t@),
            wv == words(text@),
            key@ == "bore.pub:"@,
            first_word_with(wv, key@, 0) == first_word_with(wv, key@, i as int),
        decreases ws@.len() - i,
    {
        assert(wv[i as int] == ws@[i as int]@);
        if contains_text(ws[i].as_str(), key) {
            return Some(trim_quotes(ws[i].as_str()));
        }
        i = i + 1;
    }
    let marker = " at ";
    proof {
        reveal_strlit(" at ");
    }
    match find_text(text, marker) {
        Some(a) => {
            let n = text.unicode_len();
            let rest = text.substring_char(a + 4, n);
            let rest_words = split_words(rest);
            if rest_words.len() == 0 {
                return None;
            }
            assert(rest_words@.map_values(|t: String| t@)[0] == rest_words@[0]@);
            if contains_text(rest_words[0].as_str(), "bore.pub") {
                Some(String::from_str(rest_words[0].as_str()))
            } else {
                None
            }
        },
        None => None,
    }
}

/// The state after one line of the tunnel program's output, given the state
/// before it: a line that announces listening with a readable address
/// connects; otherwise a line that mentions an error fails; otherwise a
/// tunnel that was starting is now running, and any other state stays.
pub fn parse_bore_output(line: &str, status: &mut BridgeStatus)
    ensures
        ({
            let lower = lower_of(line@);
            let announces = has_infix(lower, "listening"@) && has_infix(line@, "bore.pub"@);
            let fails = has_infix(lower, "error"@);
            &&& (announces && bore_address(line@) is Some) ==> (*final(status) matches BridgeStatus::Connected(a)
                && Some(a@) == bore_address(line@))
            &&& !(announces && bore_address(line@) is Some) && fails ==> (*final(status) matches BridgeStatus::Error(e)
                && e@ == line@)
            &&& !(announces && bore_address(line@) is Some) && !fails && *old(status)
                == BridgeStatus::Starting ==> *final(status) == BridgeStatus::Running
            &&& !(announces && bore_address(line@) is Some) && !fails && *old(status)
                != BridgeStatus::Starting ==> *final(status) == *old(status)
        }),
{
    let lower = lowercase_text(line);
    if contains_text(lower.as_str(), "listening") && contains_text(line, "bore.pub") {
        match extract_bore_address(line) {
            Some(addr) => {
                *status = BridgeStatus::Connected(addr);
                return;
            },
            None => {},
        }
    }
    if contains_text(lower.as_str(), "error") {
        *status = BridgeStatus::Error(String::from_str(line));
        return;
    }
    if let BridgeStatus::Starting = status {
        *status = BridgeStatus::Running;
    }
}

} // verus!
