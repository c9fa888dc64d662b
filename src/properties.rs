//! The `server.properties` text: `key=value` lines, `#` comments.
use vstd::prelude::*;
use crate::launch::{trim_text, trimmed};
use crate::text::{
    decimal_digits, decimal_text, find_text, first_at, join_lines, join_text_lines, lines_of,
    parse_u32_text,
    starts_with, starts_with_text, text_lines, u32_text_value, views,
};

verus! {

/// Lines whose trimmed text starts with `prefix` replaced by `line`, which is
/// appended when there is none.
pub open spec fn with_prefixed_line(
    ls: Seq<Seq<char>>,
    prefix: Seq<char>,
    line: Seq<char>,
) -> Seq<Seq<char>> {
    let replaced = ls.map_values(
        |l: Seq<char>|
            if starts_with(trimmed(l), prefix) {
                line
            } else {
                l
            },
    );
    if exists|i: int| 0 <= i < ls.len() && starts_with(trimmed(#[trigger] ls[i]), prefix) {
        replaced
    } else {
        replaced.push(line)
    }
}

/// Replaces every line whose trimmed text starts with `prefix` by `line`,
/// appending `line` when none does.
pub fn set_prefixed_line(content: &str, prefix: &str, line: &str) -> (r: String)
    ensures
        r@ == join_lines(with_prefixed_line(lines_of(content@), prefix@, line@)),
{
    let ls = text_lines(content);
    let ghost lv = views(ls@);
    let mut out: Vec<String> = Vec::new();
    let mut found = false;
    let mut i: usize = 0;
    while i < ls.len()
        invariant
            i <= ls@.len(),
            lv == views(ls@),
            out@.len() == i,
            forall|j: int|
                0 <= j < i ==> #[trigger] out@[j]@ == (if starts_with(trimmed(lv[j]), prefix@) {
                    line@
                } else {
                    lv[j]
                }),
            found <==> exists|j: int| 0 <= j < i && starts_with(trimmed(#[trigger] lv[j]), prefix@),
        decreases ls@.len() - i,
    {
        assert(lv[i as int] == ls@[i as int]@);
        let t = trim_text(ls[i].as_str());
        if starts_with_text(t, prefix) {
            out.push(String::from_str(line));
            found = true;
        } else {
            out.push(String::from_str(ls[i].as_str()));
        }
        i = i + 1;
    }
    if !found {
        out.push(String::from_str(line));
    }
    let ghost want = with_prefixed_line(lv, prefix@, line@);
    assert(views(out@) =~= want);
    join_text_lines(&out)
}

/// The rest of the first line whose trimmed text starts with `prefix`, after
/// the prefix, from index `from` on.
pub open spec fn prefixed_value_from(ls: Seq<Seq<char>>, prefix: Seq<char>, from: int) -> Option<
    Seq<char>,
>
    decreases ls.len() - from,
{
    if from < 0 || from >= ls.len() {
        None
    } else if starts_with(trimmed(ls[from]), prefix) {
        Some(trimmed(ls[from]).subrange(prefix.len() as int, trimmed(ls[from]).len() as int))
    } else {
        prefixed_value_from(ls, prefix, from + 1)
    }
}

/// The value of the first line whose trimmed text starts with `prefix`.
pub fn prefixed_value(content: &str, prefix: &str) -> (r: Option<String>)
    ensures
        match r {
            Some(v) => prefixed_value_from(lines_of(content@), prefix@, 0) == Some(v@),
            None => prefixed_value_from(lines_of(content@), prefix@, 0) is None,
        },
{
    let ls = text_lines(content);
    let ghost lv = views(ls@);
    let mut i: usize = 0;
    while i < ls.len()
        invariant
            i <= ls@.len(),
            lv == views(ls@),
            lv == lines_of(content@),
            prefixed_value_from(lv, prefix@, 0) == prefixed_value_from(lv, prefix@, i as int),
        decreases ls@.len() - i,
    {
        assert(lv[i as int] == ls@[i as int]@);
        let t = trim_text(ls[i].as_str());
        if starts_with_text(t, prefix) {
            let m = prefix.unicode_len();
            let n = t.unicode_len();
            return Some(String::from_str(t.substring_char(m, n)));
        }
        i = i + 1;
    }
    None
}

/// Whether a line sets `key`: it is no comment, and the text before its first
/// `=`, trimmed, is the key.
pub open spec fn sets_key(l: Seq<char>, key: Seq<char>) -> bool {
    &&& !(trimmed(l).len() > 0 && trimmed(l)[0] == '#')
    &&& first_at(l, "="@, 0) matches Some(i) && trimmed(l.subrange(0, i)) == key
}

/// Lines that set `key` replaced by `key=value`, which is appended when
/// there is none.
pub open spec fn with_property(ls: Seq<Seq<char>>, key: Seq<char>, value: Seq<char>) -> Seq<
    Seq<char>,
> {
    let line = key + "="@ + value;
    let replaced = ls.map_values(
        |l: Seq<char>|
            if sets_key(l, key) {
                line
            } else {
                l
            },
    );
    if exists|i: int| 0 <= i < ls.len() && sets_key(#[trigger] ls[i], key) {
        replaced
    } else {
        replaced.push(line)
    }
}

fn line_sets_key(l: &str, key: &str) -> (r: bool)
    ensures
        r == sets_key(l@, key@),
{
    let t = trim_text(l);
    if t.unicode_len() > 0 && t.get_char(0) == '#' {
        return false;
    }
    proof {
        reveal_strlit("=");
    }
    match find_text(l, "=") {
        None => false,
        Some(i) => {
            let k = trim_text(l.substring_char(0, i));
            let a = String::from_str(k);
            let b = String::from_str(key);
            a == b
        },
    }
}

/// Sets `key` to `value` in a properties text: each line that sets the key
/// is replaced, comments are left alone, and the line is appended when no
/// line sets the key.
pub fn update_property(content: &str, key: &str, value: &str) -> (r: String)
    ensures
        r@ == join_lines(with_property(lines_of(content@), key@, value@)),
{
    let ls = text_lines(content);
    let ghost lv = views(ls@);
    let line = String::from_str(key).concat("=").concat(value);
    proof {
        reveal_strlit("=");
    }
    let mut out: Vec<String> = Vec::new();
    let mut found = false;
    let mut i: usize = 0;
    while i < ls.len()
        invariant
            i <= ls@.len(),
            lv == views(ls@),
            line@ == key@ + "="@ + value@,
            out@.len() == i,
            forall|j: int|
                0 <= j < i ==> #[trigger] out@[j]@ == (if sets_key(lv[j], key@) {
                    line@
                } else {
                    lv[j]
                }),
            found <==> exists|j: int| 0 <= j < i && sets_key(#[trigger] lv[j], key@),
        decreases ls@.len() - i,
    {
        assert(lv[i as int] == ls@[i as int]@);
        if line_sets_key(ls[i].as_str(), key) {
            out.push(String::from_str(line.as_str()));
            found = true;
        } else {
            out.push(String::from_str(ls[i].as_str()));
        }
        i = i + 1;
    }
    if !found {
        out.push(line);
    }
    assert(views(out@) =~= with_property(lv, key@, value@));
    join_text_lines(&out)
}

/// The player cap when the properties do not give a readable one.
pub const DEFAULT_MAX_PLAYERS: u32 = 20;

pub open spec fn default_properties_tail() -> Seq<char> {
    "\nenable-command-block=true\ngamemode=survival\ndifficulty=normal\nmax-players=20\nview-distance=10\nmotd=A Minecraft Server managed by Prismarine\n"@
}

/// The properties a new server starts with, listening on `port`.
pub fn default_properties(port: u16) -> (r: String)
    ensures
        r@ == "server-port="@ + decimal_digits(port as nat) + default_properties_tail(),
{
    let tail = "\nenable-command-block=true\ngamemode=survival\ndifficulty=normal\nmax-players=20\nview-distance=10\nmotd=A Minecraft Server managed by Prismarine\n";
    String::from_str("server-port=").concat(decimal_text(port as u64).as_str()).concat(tail)
}

/// The message of the day that a properties text sets; empty when none.
pub fn motd_of(content: &str) -> (r: String)
    ensures
        r@ == (match prefixed_value_from(lines_of(content@), "motd="@, 0) {
            Some(v) => v,
            None => Seq::empty(),
        }),
{
    match prefixed_value(content, "motd=") {
        Some(v) => v,
        None => String::new(),
    }
}

/// A properties text with its message of the day set.
pub fn with_motd(content: &str, motd: &str) -> (r: String)
    ensures
        r@ == join_lines(with_prefixed_line(lines_of(content@), "motd="@, "motd="@ + motd@)),
{
    let line = String::from_str("motd=").concat(motd);
    set_prefixed_line(content, "motd=", line.as_str())
}

/// The player cap that a properties text sets; 20 when it sets none or an
/// unreadable one.
pub fn max_players_of(content: &str) -> (r: u32)
    ensures
        r == (match prefixed_value_from(lines_of(content@), "max-players="@, 0) {
            Some(v) => match u32_text_value(v) {
                Some(n) => n,
                None => DEFAULT_MAX_PLAYERS,
            },
            None => DEFAULT_MAX_PLAYERS,
        }),
{
    match prefixed_value(content, "max-players=") {
        Some(v) => match parse_u32_text(v.as_str()) {
            Some(n) => n,
            None => DEFAULT_MAX_PLAYERS,
        },
        None => DEFAULT_MAX_PLAYERS,
    }
}

/// A properties text with its player cap set.
pub fn with_max_players(content: &str, max_players: u32) -> (r: String)
    ensures
        r@ == join_lines(
            with_prefixed_line(
                lines_of(content@),
                "max-players="@,
                "max-players="@ + decimal_digits(max_players as nat),
            ),
        ),
{
    let line = String::from_str("max-players=").concat(decimal_text(max_players as u64).as_str());
    set_prefixed_line(content, "max-players=", line.as_str())
}

} // verus!

verus! {

/// Whether `char::is_alphanumeric` holds of a character.
pub uninterp spec fn alphanumeric(c: char) -> bool;

/// Relies on char::is_alphanumeric: Unicode's Alphabetic or Numeric property,
/// a function of the character alone.
#[verifier::external_body]
fn is_alphanumeric_char(c: char) -> (r: bool)
    ensures
        r == alphanumeric(c),
{
    c.is_alphanumeric()
}

pub open spec fn file_name_char(c: char) -> bool {
    alphanumeric(c) || c == '-' || c == '_' || c == ' '
}

/// The characters of a plugin name that may stand in a file name.
pub open spec fn safe_name(s: Seq<char>) -> Seq<char>
    decreases s.len(),
{
    if s.len() == 0 {
        Seq::empty()
    } else if file_name_char(s.last()) {
        safe_name(s.drop_last()).push(s.last())
    } else {
        safe_name(s.drop_last())
    }
}

/// Keeps the letters, digits, dashes, underscores and spaces of a name.
pub fn keep_file_name_chars(s: &str) -> (r: String)
    ensures
        r@ == safe_name(s@),
{
    let n = s.unicode_len();
    let mut out = String::new();
    let mut i: usize = 0;
    assert(s@.subrange(0, 0) =~= Seq::<char>::empty());
    while i < n
        invariant
            n == s@.len(),
            i <= n,
            out@ == safe_name(s@.subrange(0, i as int)),
        decreases n - i,
    {
        let c = s.get_char(i);
        let ghost pre = s@.subrange(0, i as int + 1);
        assert(pre.drop_last() =~= s@.subrange(0, i as int));
        assert(pre.last() == c);
        if is_alphanumeric_char(c) || c == '-' || c == '_' || c == ' ' {
            let one = s.substring_char(i, i + 1);
            assert(one@ =~= seq![c]);
            out.append(one);
        }
        i = i + 1;
    }
    assert(s@.subrange(0, n as int) =~= s@);
    out
}

/// The file, in the plugins directory, that holds a plugin of this name:
/// its letters, digits, dashes, underscores and spaces, trimmed, then ".jar".
pub fn plugin_file_name(plugin_name: &str) -> (r: String)
    ensures
        r@ == trimmed(safe_name(plugin_name@)) + ".jar"@,
{
    let kept = keep_file_name_chars(plugin_name);
    let t = trim_text(kept.as_str());
    String::from_str(t).concat(".jar")
}

} // verus!
