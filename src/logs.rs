//! Who is online, from a server's log: players join and leave.
use vstd::prelude::*;
use crate::launch::{trim_text, trimmed};
use crate::text::{contains_text, find_text, first_at, has_infix, lines_of, text_lines, views};

verus! {

/// The part of a text before the first occurrence of `p`; all of it when `p`
/// does not occur.
pub open spec fn before(s: Seq<char>, p: Seq<char>) -> Seq<char> {
    match first_at(s, p, 0) {
        Some(i) => s.subrange(0, i),
        None => s,
    }
}

/// The message of a log line: the text after its first ": ", up to the next
/// ": " if there is one.
pub open spec fn message_of(line: Seq<char>) -> Option<Seq<char>> {
    match first_at(line, ": "@, 0) {
        Some(a) => Some(before(line.subrange(a + 2, line.len() as int), ": "@)),
        None => None,
    }
}

/// The players online after one more log line.
pub open spec fn after_line(online: Set<Seq<char>>, line: Seq<char>) -> Set<Seq<char>> {
    match message_of(line) {
        Some(m) => if has_infix(m, " joined the game"@) {
            online.insert(trimmed(before(m, " joined"@)))
        } else if has_infix(m, " left the game"@) {
            online.remove(trimmed(before(m, " left"@)))
        } else {
            online
        },
        None => online,
    }
}

/// The players online after the given log lines, starting from nobody.
pub open spec fn online_after(ls: Seq<Seq<char>>) -> Set<Seq<char>>
    decreases ls.len(),
{
    if ls.len() == 0 {
        Set::empty()
    } else {
        after_line(online_after(ls.drop_last()), ls.last())
    }
}

fn before_text(s: &str, p: &str) -> (r: String)
    ensures
        r@ == before(s@, p@),
{
    match find_text(s, p) {
        Some(i) => String::from_str(s.substring_char(0, i)),
        None => String::from_str(s),
    }
}

fn message_text(line: &str) -> (r: Option<String>)
    ensures
        match r {
            Some(m) => message_of(line@) == Some(m@),
            None => message_of(line@) is None,
        },
{
    proof {
        reveal_strlit(": ");
    }
    match find_text(line, ": ") {
        Some(a) => {
            let n = line.unicode_len();
            let rest = line.substring_char(a + 2, n);
            Some(before_text(rest, ": "))
        },
        None => None,
    }
}

fn position_of(v: &Vec<String>, name: &String) -> (r: Option<usize>)
    ensures
        match r {
            Some(i) => i < v@.len() && v@[i as int]@ == name@,
            None => forall|j: int| 0 <= j < v@.len() ==> #[trigger] v@[j]@ != name@,
        },
{
    let mut i: usize = 0;
    while i < v.len()
        invariant
            i <= v@.len(),
            forall|j: int| 0 <= j < i ==> #[trigger] v@[j]@ != name@,
        decreases v@.len() - i,
    {
        if v[i] == *name {
            return Some(i);
        }
        i = i + 1;
    }
    None
}

pub open spec fn distinct(s: Seq<Seq<char>>) -> bool {
    forall|i: int, j: int| 0 <= i < s.len() && 0 <= j < s.len() && i != j ==> s[i] != s[j]
}

/// The players online according to a log: each line whose message says that
/// a player joined the game adds the player, one that says a player left
/// removes them. Each name comes once, in no particular order.
pub fn online_players(log: &str) -> (r: Vec<String>)
    ensures
        distinct(views(r@)),
        views(r@).to_set() == online_after(lines_of(log@)),
{
    let ls = text_lines(log);
    let ghost lv = views(ls@);
    let mut out: Vec<String> = Vec::new();
    let mut i: usize = 0;
    assert(lv.subrange(0, 0) =~= Seq::<Seq<char>>::empty());
    assert(views(out@).to_set() =~= Set::<Seq<char>>::empty());
    while i < ls.len()
        invariant
            i <= ls@.len(),
            lv == views(ls@),
            distinct(views(out@)),
            views(out@).to_set() == online_after(lv.subrange(0, i as int)),
        decreases ls@.len() - i,
    {
        let ghost pre = lv.subrange(0, i as int + 1);
        assert(pre.drop_last() =~= lv.subrange(0, i as int));
        assert(pre.last() == ls@[i as int]@);
        let ghost before_set = views(out@).to_set();
        match message_text(ls[i].as_str()) {
            Some(m) => {
                if contains_text(m.as_str(), " joined the game") {
                    let name = String::from_str(trim_text(before_text(m.as_str(), " joined").as_str()));
                    match position_of(&out, &name) {
                        Some(k) => {
                            assert(views(out@)[k as int] == name@);
                            assert(before_set.contains(name@));
                            assert(before_set.insert(name@) =~= before_set);
                        },
                        None => {
                            let ghost old_out = views(out@);
                            out.push(name);
                            assert(views(out@) =~= old_out.push(name@));
                            assert(views(out@).to_set() =~= before_set.insert(name@)) by {
                                assert forall|x: Seq<char>| views(out@).to_set().contains(x)
                                    <==> before_set.insert(name@).contains(x) by {
                                    if views(out@).to_set().contains(x) && x != name@ {
                                        let j = choose|j: int| 0 <= j < views(out@).len() && views(out@)[j] == x;
                                        assert(old_out[j] == x);
                                    }
                                    if before_set.contains(x) {
                                        let j = choose|j: int| 0 <= j < old_out.len() && old_out[j] == x;
                                        assert(views(out@)[j] == x);
                                    }
                                    if x == name@ {
                                        assert(views(out@)[old_out.len() as int] == x);
                                    }
                                }
                            }
                            assert(distinct(views(out@))) by {
                                assert forall|a: int, b: int|
                                    0 <= a < views(out@).len() && 0 <= b < views(out@).len() && a != b
                                        implies views(out@)[a] != views(out@)[b] by {
                                    if a < old_out.len() && b < old_out.len() {
                                        assert(views(out@)[a] == old_out[a]);
                                        assert(views(out@)[b] == old_out[b]);
                                    } else if a < old_out.len() {
                                        assert(views(out@)[a] == old_out[a]);
                                    } else if b < old_out.len() {
                                        assert(views(out@)[b] == old_out[b]);
                                    }
                                }
                            }
                        },
                    }
                } else if contains_text(m.as_str(), " left the game") {
                    let name = String::from_str(trim_text(before_text(m.as_str(), " left").as_str()));
                    match position_of(&out, &name) {
                        Some(k) => {
                            let ghost old_out = views(out@);
                            assert(old_out[k as int] == name@);
                            out.remove(k);
                            assert(views(out@) =~= old_out.remove(k as int));
                            assert(views(out@).to_set() =~= before_set.remove(name@)) by {
                                assert forall|x: Seq<char>| views(out@).to_set().contains(x)
                                    <==> before_set.remove(name@).contains(x) by {
                                    if views(out@).to_set().contains(x) {
                                        let j = choose|j: int| 0 <= j < views(out@).len() && views(out@)[j] == x;
                                        let oj = if j < k { j } else { j + 1 };
                                        assert(old_out[oj] == x);
                                        assert(oj != k);
                                        assert(old_out[oj] != old_out[k as int]);
                                    }
                                    if before_set.remove(name@).contains(x) {
                                        let j = choose|j: int| 0 <= j < old_out.len() && old_out[j] == x;
                                        assert(j != k);
                                        let nj = if j < k { j } else { j - 1 };
                                        assert(views(out@)[nj] == x);
                                    }
                                }
                            }
                            assert(distinct(views(out@))) by {
                                assert forall|a: int, b: int|
                                    0 <= a < views(out@).len() && 0 <= b < views(out@).len() && a != b
                                        implies views(out@)[a] != views(out@)[b] by {
                                    let oa = if a < k { a } else { a + 1 };
                                    let ob = if b < k { b } else { b + 1 };
                                    assert(views(out@)[a] == old_out[oa]);
                                    assert(views(out@)[b] == old_out[ob]);
                                }
                            }
                        },
                        None => {
                            assert(!before_set.contains(name@)) by {
                                if before_set.contains(name@) {
                                    let j = choose|j: int| 0 <= j < views(out@).len() && views(out@)[j] == name@;
                                    assert(out@[j]@ == name@);
                                }
                            }
                            assert(before_set.remove(name@) =~= before_set);
                        },
                    }
                }
            },
            None => {},
        }
        i = i + 1;
    }
    assert(lv.subrange(0, ls@.len() as int) =~= lv);
    out
}

} // verus!
