//! Choice of the Java runtime for a game version.
use vstd::prelude::*;
use crate::paths::{join_path, joined, path_separator};
use crate::text::{
    contains_text, find_text, first_at, has_infix, lemma_split_nonempty, lines_of, parse_u32_text,
    parse_u8_text, split_on, split_text, starts_with, starts_with_text, text_lines, u32_text_value,
    u8_text_value, views,
};

verus! {

/// Where the application keeps the Java runtimes it installs.
#[derive(Debug, Clone)]
pub struct JavaManager {
    pub runtimes_path: String,
}

/// The Java major version for game version `1.<minor>.<patch>`.
pub open spec fn java_for(minor: u32, patch: u32) -> u8 {
    if minor > 20 || (minor == 20 && patch >= 5) {
        21
    } else if minor >= 17 {
        17
    } else {
        8
    }
}

/// A version field read as a number; unreadable fields count as zero.
pub open spec fn field_number(s: Seq<char>) -> u32 {
    match u32_text_value(s) {
        Some(v) => v,
        None => 0,
    }
}

/// The Java major version that a game version text asks for: a text with
/// fewer than two dot-separated fields gets the newest, 21.
pub open spec fn java_version_for_text(v: Seq<char>) -> u8 {
    let parts = split_on(v, '.');
    if parts.len() < 2 {
        21
    } else {
        java_for(
            field_number(parts[1]),
            if parts.len() > 2 {
                field_number(parts[2])
            } else {
                0
            },
        )
    }
}

fn field_or_zero(s: &str) -> (r: u32)
    ensures
        r == field_number(s@),
{
    match parse_u32_text(s) {
        Some(v) => v,
        None => 0,
    }
}

impl JavaManager {
    /// A manager whose runtimes live in `runtimes` under `base_path`, joined
    /// with the platform's separator.
    pub fn new(base_path: &str) -> (r: JavaManager)
        ensures
            exists|sep: char|
                (sep == '/' || sep == '\\') && r.runtimes_path@ == joined(
                    base_path@,
                    sep,
                    "runtimes"@,
                ),
    {
        let sep = path_separator();
        JavaManager { runtimes_path: join_path(base_path, sep, "runtimes") }
    }

    /// The Java major version for a game version such as "1.20.4".
    pub fn get_java_version_for_mc(mc_version: &str) -> (r: u8)
        ensures
            r == java_version_for_text(mc_version@),
    {
        let parts = split_text(mc_version, '.');
        let ghost views = parts@.map_values(|t: String| t@);
        if parts.len() < 2 {
            return 21;
        }
        assert(views[1] == parts@[1]@);
        let minor = field_or_zero(parts[1].as_str());
        let patch = if parts.len() > 2 {
            assert(views[2] == parts@[2]@);
            field_or_zero(parts[2].as_str())
        } else {
            0
        };
        if minor >= 20 {
            if minor == 20 && patch < 5 {
                return 17;
            }
            return 21;
        } else if minor >= 17 {
            return 17;
        }
        8
    }
}

/// The text between the first two double quotes of a line that mentions
/// "version", as in `openjdk version "17.0.1"`.
pub open spec fn quoted_version(line: Seq<char>) -> Option<Seq<char>> {
    if !has_infix(line, "version"@) {
        None
    } else {
        match first_at(line, "\""@, 0) {
            Some(a) => {
                let rest = line.subrange(a + 1, line.len() as int);
                match first_at(rest, "\""@, 0) {
                    Some(b) => Some(rest.subrange(0, b)),
                    None => None,
                }
            },
            None => None,
        }
    }
}

/// The major version in a version text: the second field of "1.8.0", the
/// first of "17.0.1".
pub open spec fn major_version(v: Seq<char>) -> Option<u8> {
    let parts = split_on(v, '.');
    if starts_with(v, "1."@) {
        if parts.len() >= 2 {
            u8_text_value(parts[1])
        } else {
            None
        }
    } else {
        u8_text_value(parts[0])
    }
}

/// The major version that `java -version` output reports, read from the
/// first line, from index `from` on, with a quoted version.
pub open spec fn reported_version_from(ls: Seq<Seq<char>>, from: int) -> Option<u8>
    decreases ls.len() - from,
{
    if from < 0 || from >= ls.len() {
        None
    } else {
        match quoted_version(ls[from]) {
            Some(v) => major_version(v),
            None => reported_version_from(ls, from + 1),
        }
    }
}

fn line_version(line: &str) -> (r: Option<String>)
    ensures
        match r {
            Some(v) => quoted_version(line@) == Some(v@),
            None => quoted_version(line@) is None,
        },
{
    if !contains_text(line, "version") {
        return None;
    }
    proof {
        reveal_strlit("\"");
    }
    let a = match find_text(line, "\"") {
        Some(a) => a,
        None => {
            return None;
        },
    };
    let n = line.unicode_len();
    let rest = line.substring_char(a + 1, n);
    match find_text(rest, "\"") {
        Some(b) => Some(String::from_str(rest.substring_char(0, b))),
        None => None,
    }
}

fn major_of(v: &str) -> (r: Option<u8>)
    ensures
        r == major_version(v@),
{
    let parts = split_text(v, '.');
    proof {
        lemma_split_nonempty(v@, '.');
    }
    let ghost pv = parts@.map_values(|t: String| t@);
    if starts_with_text(v, "1.") {
        if parts.len() >= 2 {
            assert(pv[1] == parts@[1]@);
            parse_u8_text(parts[1].as_str())
        } else {
            None
        }
    } else {
        assert(pv[0] == parts@[0]@);
        parse_u8_text(parts[0].as_str())
    }
}

impl JavaManager {
    /// The Java major version reported by `java -version` output, such as
    /// `openjdk version "17.0.1"` (17) or `java version "1.8.0_301"` (8).
    pub fn parse_java_version(output: &str) -> (r: Option<u8>)
        ensures
            r == reported_version_from(lines_of(output@), 0),
    {
        let ls = text_lines(output);
        let ghost lv = views(ls@);
        let mut i: usize = 0;
        while i < ls.len()
            invariant
                i <= ls@.len(),
                lv == views(ls@),
                lv == lines_of(output@),
                reported_version_from(lv, 0) == reported_version_from(lv, i as int),
            decreases ls@.len() - i,
        {
            assert(lv[i as int] == ls@[i as int]@);
            match line_version(ls[i].as_str()) {
                Some(v) => {
                    return major_of(v.as_str());
                },
                None => {},
            }
            i = i + 1;
        }
        None
    }
}

} // verus!
