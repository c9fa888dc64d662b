//! JVM launch planning: heap sizes and garbage-collector tuning tiers.
use vstd::prelude::*;
use crate::text::{
    all_digits, is_digit, is_white_space, parse_u64_text, u64_text_value, unsigned_digits, white_space,
};

verus! {

/// Heap size, in megabytes, from which the large-heap tuning tier applies.
pub const LARGE_HEAP_MB: u64 = 12288;

/// What `str::to_uppercase` makes of a text.
pub uninterp spec fn upper_of(s: Seq<char>) -> Seq<char>;

pub open spec fn trim_front(s: Seq<char>) -> Seq<char>
    decreases s.len(),
{
    if s.len() > 0 && is_white_space(s[0]) {
        trim_front(s.subrange(1, s.len() as int))
    } else {
        s
    }
}

pub open spec fn trim_back(s: Seq<char>) -> Seq<char>
    decreases s.len(),
{
    if s.len() > 0 && is_white_space(s.last()) {
        trim_back(s.drop_last())
    } else {
        s
    }
}

/// What `str::trim` leaves of a text: no White_Space character at either end.
pub open spec fn trimmed(s: Seq<char>) -> Seq<char> {
    trim_back(trim_front(s))
}

/// Removes white space from both ends of a text, as `str::trim` does.
pub fn trim_text<'a>(s: &'a str) -> (r: &'a str)
    ensures
        r@ == trimmed(s@),
{
    let n = s.unicode_len();
    let mut a: usize = 0;
    assert(s@.subrange(0, n as int) =~= s@);
    while a < n && white_space(s.get_char(a))
        invariant
            a <= n,
            n == s@.len(),
            trim_front(s@) == trim_front(s@.subrange(a as int, n as int)),
        decreases n - a,
    {
        assert(s@.subrange(a as int, n as int).subrange(1, n - a) =~= s@.subrange(
            a as int + 1,
            n as int,
        ));
        a = a + 1;
    }
    let ghost front = s@.subrange(a as int, n as int);
    assert(front.len() == 0 || front[0] == s@[a as int]);
    assert(trim_front(front) == front);
    let mut b: usize = n;
    while b > a && white_space(s.get_char(b - 1))
        invariant
            a <= b <= n,
            n == s@.len(),
            front == s@.subrange(a as int, n as int),
            trim_back(front) == trim_back(s@.subrange(a as int, b as int)),
        decreases b,
    {
        assert(s@.subrange(a as int, b as int).drop_last() =~= s@.subrange(a as int, b as int - 1));
        b = b - 1;
    }
    let ghost back = s@.subrange(a as int, b as int);
    assert(back.len() == 0 || back.last() == s@[b - 1]);
    assert(trim_back(back) == back);
    s.substring_char(a, b)
}

/// Whether `u` is what ASCII upper-casing makes of `c`: lower-case letters
/// move to upper case, every other character stays.
pub open spec fn ascii_upper_of(c: char, u: char) -> bool {
    if 97 <= (c as u32) <= 122 {
        (u as u32) == (c as u32) - 32
    } else {
        u == c
    }
}

pub open spec fn is_ascii_text(s: Seq<char>) -> bool {
    forall|i: int| 0 <= i < s.len() ==> (#[trigger] s[i] as u32) < 128
}

/// `u` is `s` upper-cased the ASCII way, character for character.
pub open spec fn upper_pointwise(s: Seq<char>, u: Seq<char>) -> bool {
    u.len() == s.len() && forall|i: int| 0 <= i < s.len() ==> ascii_upper_of(#[trigger] s[i], u[i])
}

/// Relies on str::to_uppercase: the result depends on the characters alone,
/// and on ASCII text it is the ASCII upper case, character for character
/// (Unicode's case mapping of the ASCII letters).
#[verifier::external_body]
fn uppercase_text(s: &str) -> (r: String)
    ensures
        r@ == upper_of(s@),
        is_ascii_text(s@) ==> upper_pointwise(s@, r@),
{
    s.to_uppercase()
}

/// Megabytes denoted by an already trimmed, upper-case memory text: a `G`
/// suffix counts gibibytes, an `M` suffix or none counts mebibytes. A value
/// that does not fit in `u64` megabytes is unreadable.
pub open spec fn memory_mb_value(s: Seq<char>) -> Option<u64> {
    if s.len() > 0 && s.last() == 'G' {
        match u64_text_value(s.drop_last()) {
            Some(g) => if g * 1024 <= u64::MAX {
                Some((g * 1024) as u64)
            } else {
                None
            },
            None => None,
        }
    } else if s.len() > 0 && s.last() == 'M' {
        u64_text_value(s.drop_last())
    } else {
        u64_text_value(s)
    }
}

/// Megabytes denoted by a trimmed memory text, the suffix in either case.
pub open spec fn memory_mb_ci(s: Seq<char>) -> Option<u64> {
    if s.len() > 0 && (s.last() == 'G' || s.last() == 'g') {
        match u64_text_value(s.drop_last()) {
            Some(g) => if g * 1024 <= u64::MAX {
                Some((g * 1024) as u64)
            } else {
                None
            },
            None => None,
        }
    } else if s.len() > 0 && (s.last() == 'M' || s.last() == 'm') {
        u64_text_value(s.drop_last())
    } else {
        u64_text_value(s)
    }
}

proof fn lemma_char_eq(a: char, b: char)
    ensures
        (a == b) == ((a as u32) == (b as u32)),
{
}

proof fn lemma_upper_number(t: Seq<char>, u: Seq<char>)
    requires
        upper_pointwise(t, u),
    ensures
        u64_text_value(u) == u64_text_value(t),
{
    let dt = unsigned_digits(t);
    let du = unsigned_digits(u);
    if t.len() > 0 {
        assert(ascii_upper_of(t[0], u[0]));
        assert((t[0] == '+') == (u[0] == '+'));
    }
    assert(du.len() == dt.len());
    assert forall|i: int| 0 <= i < dt.len() implies ascii_upper_of(#[trigger] dt[i], du[i]) by {
        if t.len() > 0 && t[0] == '+' {
            assert(ascii_upper_of(t[i + 1], u[i + 1]));
        } else {
            assert(ascii_upper_of(t[i], u[i]));
        }
    }
    if all_digits(dt) {
        assert forall|i: int| 0 <= i < dt.len() implies du[i] == dt[i] by {
            assert(is_digit(dt[i]));
            assert(ascii_upper_of(dt[i], du[i]));
        }
        assert(du =~= dt);
    } else {
        let i = choose|i: int| 0 <= i < dt.len() && !is_digit(#[trigger] dt[i]);
        assert(ascii_upper_of(dt[i], du[i]));
        assert(!is_digit(du[i]));
    }
}

proof fn lemma_upper_memory(t: Seq<char>, u: Seq<char>)
    requires
        upper_pointwise(t, u),
    ensures
        memory_mb_value(u) == memory_mb_ci(t),
{
    if t.len() > 0 {
        let n = t.len() - 1;
        assert(ascii_upper_of(t[n], u[n]));
        assert(('G' as u32) == 71 && ('g' as u32) == 103 && ('M' as u32) == 77 && ('m' as u32) == 109);
        lemma_char_eq(u.last(), 'G');
        lemma_char_eq(t.last(), 'G');
        lemma_char_eq(t.last(), 'g');
        lemma_char_eq(u.last(), 'M');
        lemma_char_eq(t.last(), 'M');
        lemma_char_eq(t.last(), 'm');
        assert((u.last() == 'G') == (t.last() == 'G' || t.last() == 'g'));
        assert((u.last() == 'M') == (t.last() == 'M' || t.last() == 'm'));
        assert(upper_pointwise(t.drop_last(), u.drop_last())) by {
            assert forall|i: int| 0 <= i < t.drop_last().len() implies ascii_upper_of(
                #[trigger] t.drop_last()[i],
                u.drop_last()[i],
            ) by {
                assert(ascii_upper_of(t[i], u[i]));
            }
        }
        lemma_upper_number(t.drop_last(), u.drop_last());
    }
    lemma_upper_number(t, u);
}

/// Reads a trimmed, upper-case memory text ("4G", "2048M", "512") as megabytes.
pub fn memory_mb_from_normalized(s: &str) -> (r: Option<u64>)
    ensures
        r == memory_mb_value(s@),
{
    let n = s.unicode_len();
    if n > 0 {
        let last = s.get_char(n - 1);
        if last == 'G' || last == 'M' {
            let body = s.substring_char(0, n - 1);
            assert(body@ =~= s@.drop_last());
            let v = parse_u64_text(body);
            if last == 'M' {
                return v;
            }
            return match v {
                Some(g) => {
                    if g <= u64::MAX / 1024 {
                        Some(g * 1024)
                    } else {
                        None
                    }
                },
                None => None,
            };
        }
    }
    parse_u64_text(s)
}

/// Reads a memory size such as "4G", "2048m" or " 512 " as megabytes; case and
/// surrounding white space do not matter. `None` means unreadable.
pub fn parse_memory_mb(memory: &str) -> (r: Option<u64>)
    ensures
        r == memory_mb_value(upper_of(trimmed(memory@))),
        is_ascii_text(trimmed(memory@)) ==> r == memory_mb_ci(trimmed(memory@)),
{
    let t = trim_text(memory);
    let u = uppercase_text(t);
    proof {
        if is_ascii_text(t@) {
            lemma_upper_memory(t@, u@);
        }
    }
    memory_mb_from_normalized(u.as_str())
}

pub open spec fn baseline_head(max_memory: Seq<char>, min_memory: Seq<char>) -> Seq<Seq<char>> {
    seq![
        "-Xmx"@ + max_memory,
        "-Xms"@ + min_memory,
        "-XX:+UseG1GC"@,
        "-XX:+ParallelRefProcEnabled"@,
        "-XX:MaxGCPauseMillis=200"@,
        "-XX:+UnlockExperimentalVMOptions"@,
        "-XX:+DisableExplicitGC"@,
    ]
}

pub open spec fn large_heap_tier() -> Seq<Seq<char>> {
    seq![
        "-XX:G1NewSizePercent=40"@,
        "-XX:G1MaxNewSizePercent=50"@,
        "-XX:G1ReservePercent=15"@,
        "-XX:InitiatingHeapOccupancyPercent=15"@,
    ]
}

pub open spec fn default_heap_tier() -> Seq<Seq<char>> {
    seq![
        "-XX:G1NewSizePercent=30"@,
        "-XX:G1MaxNewSizePercent=40"@,
        "-XX:G1ReservePercent=20"@,
        "-XX:InitiatingHeapOccupancyPercent=20"@,
    ]
}

/// The tier flags for a heap of the given megabytes; none when it is unreadable.
pub open spec fn tier_for(max_mb: Option<u64>) -> Seq<Seq<char>> {
    match max_mb {
        Some(mb) => if mb >= LARGE_HEAP_MB {
            large_heap_tier()
        } else {
            default_heap_tier()
        },
        None => Seq::empty(),
    }
}

pub open spec fn baseline_tail(jar_path: Seq<char>) -> Seq<Seq<char>> {
    seq![
        "-XX:+AlwaysPreTouch"@,
        "-XX:G1HeapWastePercent=5"@,
        "-XX:G1MixedGCCountTarget=4"@,
        "-XX:G1MixedGCLiveThresholdPercent=90"@,
        "-XX:G1RSetUpdatingPauseTimePercent=5"@,
        "-XX:SurvivorRatio=32"@,
        "-XX:+PerfDisableSharedMem"@,
        "-XX:MaxTenuringThreshold=1"@,
        "-jar"@,
        jar_path,
        "nogui"@,
    ]
}

/// The full JVM argument list: heap bounds, the collector baseline, the
/// size tier (right after the seventh argument), then the jar and `nogui`.
pub open spec fn jvm_arguments_spec(
    max_memory: Seq<char>,
    min_memory: Seq<char>,
    jar_path: Seq<char>,
    max_mb: Option<u64>,
) -> Seq<Seq<char>> {
    baseline_head(max_memory, min_memory) + tier_for(max_mb) + baseline_tail(jar_path)
}

pub open spec fn texts(v: Seq<String>) -> Seq<Seq<char>> {
    v.map_values(|s: String| s@)
}

fn push_text(v: &mut Vec<String>, s: &str)
    ensures
        texts(final(v)@) == texts(old(v)@).push(s@),
{
    v.push(String::from_str(s));
    assert(texts(final(v)@) =~= texts(old(v)@).push(s@));
}

fn concat_text(a: &str, b: &str) -> (r: String)
    ensures
        r@ == a@ + b@,
{
    let s = String::from_str(a);
    s.concat(b)
}

/// Builds the JVM argument list for a server whose heap maximum reads as
/// `max_mb` megabytes.
pub fn jvm_arguments_for(max_memory: &str, min_memory: &str, jar_path: &str, max_mb: Option<u64>) -> (r: Vec<String>)
    ensures
        texts(r@) == jvm_arguments_spec(max_memory@, min_memory@, jar_path@, max_mb),
{
    let mut v: Vec<String> = Vec::new();
    let xmx = concat_text("-Xmx", max_memory);
    v.push(xmx);
    let xms = concat_text("-Xms", min_memory);
    v.push(xms);
    assert(texts(v@) =~= seq!["-Xmx"@ + max_memory@, "-Xms"@ + min_memory@]);
    push_text(&mut v, "-XX:+UseG1GC");
    push_text(&mut v, "-XX:+ParallelRefProcEnabled");
    push_text(&mut v, "-XX:MaxGCPauseMillis=200");
    push_text(&mut v, "-XX:+UnlockExperimentalVMOptions");
    push_text(&mut v, "-XX:+DisableExplicitGC");
    assert(texts(v@) =~= baseline_head(max_memory@, min_memory@));
    let ghost head = texts(v@);
    match max_mb {
        Some(mb) => {
            if mb >= LARGE_HEAP_MB {
                push_text(&mut v, "-XX:G1NewSizePercent=40");
                push_text(&mut v, "-XX:G1MaxNewSizePercent=50");
                push_text(&mut v, "-XX:G1ReservePercent=15");
                push_text(&mut v, "-XX:InitiatingHeapOccupancyPercent=15");
            } else {
                push_text(&mut v, "-XX:G1NewSizePercent=30");
                push_text(&mut v, "-XX:G1MaxNewSizePercent=40");
                push_text(&mut v, "-XX:G1ReservePercent=20");
                push_text(&mut v, "-XX:InitiatingHeapOccupancyPercent=20");
            }
        },
        None => {},
    }
    assert(texts(v@) =~= head + tier_for(max_mb));
    let ghost mid = texts(v@);
    push_text(&mut v, "-XX:+AlwaysPreTouch");
    push_text(&mut v, "-XX:G1HeapWastePercent=5");
    push_text(&mut v, "-XX:G1MixedGCCountTarget=4");
    push_text(&mut v, "-XX:G1MixedGCLiveThresholdPercent=90");
    push_text(&mut v, "-XX:G1RSetUpdatingPauseTimePercent=5");
    push_text(&mut v, "-XX:SurvivorRatio=32");
    push_text(&mut v, "-XX:+PerfDisableSharedMem");
    push_text(&mut v, "-XX:MaxTenuringThreshold=1");
    push_text(&mut v, "-jar");
    push_text(&mut v, jar_path);
    push_text(&mut v, "nogui");
    assert(texts(v@) =~= mid + baseline_tail(jar_path@));
    v
}

/// Builds the JVM argument list for a server with the given heap bounds and
/// jar. The tuning tier follows the maximum heap; an unreadable maximum gets
/// no tier flags.
pub fn jvm_arguments(max_memory: &str, min_memory: &str, jar_path: &str) -> (r: Vec<String>)
    ensures
        texts(r@) == jvm_arguments_spec(
            max_memory@,
            min_memory@,
            jar_path@,
            memory_mb_value(upper_of(trimmed(max_memory@))),
        ),
        is_ascii_text(trimmed(max_memory@)) ==> texts(r@) == jvm_arguments_spec(
            max_memory@,
            min_memory@,
            jar_path@,
            memory_mb_ci(trimmed(max_memory@)),
        ),
{
    let mb = parse_memory_mb(max_memory);
    jvm_arguments_for(max_memory, min_memory, jar_path, mb)
}

/// The argument list is a function of the inputs alone, so identical inputs
/// give identical lists; when the maximum heap reads as at least the
/// large-heap threshold, the four large-heap tier flags stand at positions
/// 7 to 10, right after the collector baseline's head.
pub proof fn lemma_large_heap_tier_positions(
    max_memory: Seq<char>,
    min_memory: Seq<char>,
    jar_path: Seq<char>,
    mb: u64,
)
    requires
        mb >= LARGE_HEAP_MB,
    ensures
        jvm_arguments_spec(max_memory, min_memory, jar_path, Some(mb)).len() == 22,
        jvm_arguments_spec(max_memory, min_memory, jar_path, Some(mb)).subrange(7, 11)
            == large_heap_tier(),
{
    let a = jvm_arguments_spec(max_memory, min_memory, jar_path, Some(mb));
    assert(a.subrange(7, 11) =~= large_heap_tier());
}

} // verus!
