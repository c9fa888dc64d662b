//! File-system paths as text: a base, the platform's separator, a name.
use vstd::prelude::*;

verus! {

/// The path of `part` inside `base`: the base is kept as it is, and the
/// separator goes between them unless the base is empty or already ends with
/// one.
pub open spec fn joined(base: Seq<char>, sep: char, part: Seq<char>) -> Seq<char> {
    if base.len() == 0 || base.last() == sep {
        base + part
    } else {
        base + seq![sep] + part
    }
}

/// Relies on std::path::MAIN_SEPARATOR: '/' on Unix-like systems, '\\' on
/// Windows.
#[verifier::external_body]
pub fn path_separator() -> (r: char)
    ensures
        r == '/' || r == '\\',
{
    std::path::MAIN_SEPARATOR
}

/// Joins a name onto a base path with a platform separator.
pub(crate) fn join_path(base: &str, sep: char, part: &str) -> (r: String)
    requires
        sep == '/' || sep == '\\',
    ensures
        r@ == joined(base@, sep, part@),
{
    let n = base.unicode_len();
    let b = String::from_str(base);
    if n == 0 || base.get_char(n - 1) == sep {
        b.concat(part)
    } else {
        let one = sep_text(sep);
        let r = b.concat(one).concat(part);
        assert(r@ =~= joined(base@, sep, part@));
        r
    }
}

fn sep_text(sep: char) -> (r: &'static str)
    requires
        sep == '/' || sep == '\\',
    ensures
        r@ == seq![sep],
{
    let r = if sep == '/' {
        "/"
    } else {
        "\\"
    };
    proof {
        reveal_strlit("/");
        reveal_strlit("\\");
    }
    assert(r@ =~= seq![sep]);
    r
}

} // verus!
