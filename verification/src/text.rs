//! Text helpers over `String` / `&str`, specified over their `Seq<char>` views:
//! Unicode whitespace, trimming, whitespace tokenising, substring search,
//! joining and truncation, plus the std lower-casing used by search.

use vstd::prelude::*;
use vstd::string::StrSliceExecFns;

verus! {

/// Calls `String::push`. Claimed (std documentation): the character is
/// appended to the end of the string.
#[verifier::external_body]
pub(crate) fn push_char(s: &mut String, c: char)
    ensures
        final(s)@ == old(s)@.push(c),
{
    s.push(c)
}

/// The decimal digit character for `d < 10`.
pub open spec fn digit_char(d: nat) -> char {
    if d == 0 { '0' } else if d == 1 { '1' } else if d == 2 { '2' } else if d == 3 { '3' }
    else if d == 4 { '4' } else if d == 5 { '5' } else if d == 6 { '6' } else if d == 7 { '7' }
    else if d == 8 { '8' } else { '9' }
}

/// The decimal representation of `n`, without sign or leading zeros.
pub open spec fn decimal(n: nat) -> Seq<char>
    decreases n,
{
    if n < 10 {
        seq![digit_char(n)]
    } else {
        decimal(n / 10).push(digit_char(n % 10))
    }
}

fn digit(d: u64) -> (c: char)
    requires
        d < 10,
    ensures
        c == digit_char(d as nat),
{
    if d == 0 { '0' } else if d == 1 { '1' } else if d == 2 { '2' } else if d == 3 { '3' }
    else if d == 4 { '4' } else if d == 5 { '5' } else if d == 6 { '6' } else if d == 7 { '7' }
    else if d == 8 { '8' } else { '9' }
}

/// Append the decimal representation of `n` to `s`.
pub fn push_decimal(s: &mut String, n: u64)
    ensures
        final(s)@ == old(s)@ + decimal(n as nat),
    decreases n,
{
    if n < 10 {
        push_char(s, digit(n));
        assert(old(s)@.push(digit_char(n as nat)) =~= old(s)@ + decimal(n as nat));
    } else {
        push_decimal(s, n / 10);
        push_char(s, digit(n % 10));
        assert(old(s)@ + decimal((n / 10) as nat) + seq![digit_char((n % 10) as nat)] =~= old(s)@ + decimal(n as nat));
    }
}

/// Calls `str::eq`. Claimed (std documentation): two string slices are equal
/// exactly when they hold the same characters.
#[verifier::external_body]
pub(crate) fn str_eq(a: &str, b: &str) -> (r: bool)
    ensures
        r == (a@ == b@),
{
    a == b
}


/// Whether `c` has the Unicode `White_Space` property, which is what
/// `char::is_whitespace` (and so `str::trim` and `str::split_whitespace`)
/// tests: U+0009..U+000D, space, U+0085, U+00A0, U+1680, U+2000..U+200A,
/// U+2028, U+2029, U+202F, U+205F and U+3000.
pub open spec fn is_ws(c: char) -> bool {
    ||| '\u{9}' <= c <= '\u{D}'
    ||| c == ' '
    ||| c == '\u{85}'
    ||| c == '\u{A0}'
    ||| c == '\u{1680}'
    ||| '\u{2000}' <= c <= '\u{200A}'
    ||| c == '\u{2028}'
    ||| c == '\u{2029}'
    ||| c == '\u{202F}'
    ||| c == '\u{205F}'
    ||| c == '\u{3000}'
}

/// Whether `c` is Unicode whitespace.
pub fn is_whitespace(c: char) -> (r: bool)
    ensures
        r == is_ws(c),
{
    ('\u{9}' <= c && c <= '\u{D}') || c == ' ' || c == '\u{85}' || c == '\u{A0}' || c == '\u{1680}'
        || ('\u{2000}' <= c && c <= '\u{200A}') || c == '\u{2028}' || c == '\u{2029}' || c == '\u{202F}'
        || c == '\u{205F}' || c == '\u{3000}'
}

/// Whether every character of `s` is whitespace (true of the empty text).
pub open spec fn all_ws(s: Seq<char>) -> bool {
    forall|i: int| 0 <= i < s.len() ==> is_ws(#[trigger] s[i])
}

/// `s` without its leading whitespace.
pub open spec fn trim_start(s: Seq<char>) -> Seq<char>
    decreases s.len(),
{
    if s.len() > 0 && is_ws(s[0]) {
        trim_start(s.subrange(1, s.len() as int))
    } else {
        s
    }
}

/// `s` without its trailing whitespace.
pub open spec fn trim_end(s: Seq<char>) -> Seq<char>
    decreases s.len(),
{
    if s.len() > 0 && is_ws(s.last()) {
        trim_end(s.drop_last())
    } else {
        s
    }
}

/// `s` without leading and trailing whitespace (`str::trim`).
pub open spec fn trimmed(s: Seq<char>) -> Seq<char> {
    trim_end(trim_start(s))
}

/// The characters of `s`, one per element.
pub fn chars_of(s: &str) -> (v: Vec<char>)
    ensures
        v@ == s@,
{
    let n = s.unicode_len();
    let mut v: Vec<char> = Vec::new();
    let mut i: usize = 0;
    while i < n
        invariant
            n == s@.len(),
            i <= n,
            v@ == s@.subrange(0, i as int),
        decreases n - i,
    {
        let c = s.get_char(i);
        v.push(c);
        i = i + 1;
        assert(v@ =~= s@.subrange(0, i as int));
    }
    assert(v@ =~= s@);
    v
}

/// A `String` holding exactly the characters `v[from..to]`.
pub fn string_from(v: &Vec<char>, from: usize, to: usize) -> (s: String)
    requires
        from <= to <= v@.len(),
    ensures
        s@ == v@.subrange(from as int, to as int),
{
    let mut s = String::new();
    let mut i = from;
    while i < to
        invariant
            from <= i <= to,
            to <= v@.len(),
            s@ == v@.subrange(from as int, i as int),
        decreases to - i,
    {
        push_char(&mut s, v[i]);
        i = i + 1;
        assert(s@ =~= v@.subrange(from as int, i as int));
    }
    s
}

proof fn lemma_trim_start_step(s: Seq<char>, i: int)
    requires
        0 <= i < s.len(),
        is_ws(s[i]),
    ensures
        trim_start(s.subrange(i, s.len() as int)) == trim_start(s.subrange(i + 1, s.len() as int)),
{
    assert(s.subrange(i, s.len() as int).subrange(1, s.len() - i) =~= s.subrange(i + 1, s.len() as int));
}

proof fn lemma_trim_end_step(s: Seq<char>, j: int)
    requires
        0 < j <= s.len(),
        is_ws(s[j - 1]),
    ensures
        trim_end(s.subrange(0, j)) == trim_end(s.subrange(0, j - 1)),
{
    assert(s.subrange(0, j).drop_last() =~= s.subrange(0, j - 1));
}

/// `s` without leading and trailing whitespace.
pub fn trim(s: &str) -> (r: String)
    ensures
        r@ == trimmed(s@),
{
    let v = chars_of(s);
    let n = v.len();
    let mut i: usize = 0;
    assert(v@.subrange(0, n as int) =~= v@);
    while i < n && is_whitespace(v[i])
        invariant
            n == v@.len(),
            i <= n,
            trim_start(v@) == trim_start(v@.subrange(i as int, n as int)),
        decreases n - i,
    {
        proof {
            lemma_trim_start_step(v@, i as int);
        }
        i = i + 1;
    }
    proof {
        assert(v@.subrange(0, n as int) =~= v@);
        if i < n {
            assert(v@.subrange(i as int, n as int)[0] == v@[i as int]);
        }
    }
    let ghost mid = v@.subrange(i as int, n as int);
    assert(trim_start(v@) == mid);
    let mut j: usize = n;
    while j > i && is_whitespace(v[j - 1])
        invariant
            n == v@.len(),
            i <= j <= n,
            mid == v@.subrange(i as int, n as int),
            trim_end(mid) == trim_end(v@.subrange(i as int, j as int)),
        decreases j,
    {
        proof {
            let w = v@.subrange(i as int, n as int);
            lemma_trim_end_step(w, (j - i) as int);
            assert(w.subrange(0, (j - i) as int) =~= v@.subrange(i as int, j as int));
            assert(w.subrange(0, (j - i - 1) as int) =~= v@.subrange(i as int, j - 1));
        }
        j = j - 1;
    }
    proof {
        assert(mid.subrange(0, (n - i) as int) =~= mid);
        let t = v@.subrange(i as int, j as int);
        if j > i {
            assert(t.last() == v@[j - 1]);
        }
        assert(trim_end(t) == t);
    }
    string_from(&v, i, j)
}

/// Whether `s` is empty or all whitespace (its trimmed form is empty).
pub fn is_blank(s: &str) -> (r: bool)
    ensures
        r == (trimmed(s@).len() == 0),
{
    let t = trim(s);
    t.as_str().unicode_len() == 0
}

/// The whitespace-separated words of `s`, in order (`str::split_whitespace`):
/// the maximal runs of non-whitespace characters.
pub open spec fn words(s: Seq<char>) -> Seq<Seq<char>>
    decreases s.len(),
{
    if s.len() == 0 {
        Seq::empty()
    } else {
        let w = words(s.drop_last());
        let c = s.last();
        if is_ws(c) {
            w
        } else if s.len() >= 2 && !is_ws(s[s.len() - 2]) {
            w.update(w.len() - 1, w.last().push(c))
        } else {
            w.push(seq![c])
        }
    }
}

/// Split `s` into its whitespace-separated words.
pub fn split_whitespace(s: &str) -> (r: Vec<String>)
    ensures
        r@.map_values(|w: String| w@) == words(s@),
{
    let v = chars_of(s);
    let n = v.len();
    let mut out: Vec<String> = Vec::new();
    let mut cur = String::new();
    let mut i: usize = 0;
    while i < n
        invariant
            n == v@.len(),
            v@ == s@,
            i <= n,
            cur@.len() > 0 <==> (i > 0 && !is_ws(v@[i - 1])),
            cur@.len() > 0 ==> words(v@.subrange(0, i as int)) == out@.map_values(|w: String| w@).push(cur@),
            cur@.len() == 0 ==> words(v@.subrange(0, i as int)) == out@.map_values(|w: String| w@),
        decreases n - i,
    {
        let c = v[i];
        let ghost pre = v@.subrange(0, i as int);
        let ghost nxt = v@.subrange(0, i + 1);
        let ghost m = out@.map_values(|w: String| w@);
        let ghost old_cur = cur@;
        proof {
            assert(nxt.drop_last() =~= pre);
            assert(nxt.last() == c);
            if i > 0 {
                assert(nxt[nxt.len() - 2] == v@[i - 1]);
            }
        }
        if is_whitespace(c) {
            if cur.as_str().unicode_len() > 0 {
                let done = cur;
                cur = String::new();
                out.push(done);
                assert(out@.map_values(|w: String| w@) =~= m.push(old_cur));
            }
        } else {
            push_char(&mut cur, c);
            proof {
                if i > 0 && !is_ws(v@[i - 1]) {
                    assert(words(nxt) =~= m.push(cur@));
                } else {
                    assert(cur@ =~= seq![c]);
                    assert(words(nxt) =~= m.push(cur@));
                }
            }
        }
        i = i + 1;
    }
    assert(v@.subrange(0, n as int) =~= v@);
    if cur.as_str().unicode_len() > 0 {
        let ghost m = out@.map_values(|w: String| w@);
        let ghost last = cur@;
        out.push(cur);
        assert(out@.map_values(|w: String| w@) =~= m.push(last));
    }
    out
}

/// Whether `needle` occurs in `hay` starting at position `k`.
pub open spec fn occurs_at(hay: Seq<char>, needle: Seq<char>, k: int) -> bool {
    0 <= k && k + needle.len() <= hay.len() && hay.subrange(k, k + needle.len()) == needle
}

/// Whether `needle` occurs somewhere in `hay` (`str::contains`).
pub open spec fn contains(hay: Seq<char>, needle: Seq<char>) -> bool {
    exists|k: int| occurs_at(hay, needle, k)
}

fn occurs_here(hay: &Vec<char>, needle: &Vec<char>, k: usize) -> (r: bool)
    requires
        k + needle@.len() <= hay@.len(),
    ensures
        r == occurs_at(hay@, needle@, k as int),
{
    let m = needle.len();
    let mut j: usize = 0;
    while j < m
        invariant
            m == needle@.len(),
            k + m <= hay.len(),
            j <= m,
            forall|t: int| 0 <= t < j ==> hay@[k + t] == needle@[t],
        decreases m - j,
    {
        if hay[k + j] != needle[j] {
            assert(hay@.subrange(k as int, k + m)[j as int] != needle@[j as int]);
            return false;
        }
        j = j + 1;
    }
    assert(hay@.subrange(k as int, k + m) =~= needle@);
    true
}

/// Whether the characters `needle` occur in `hay`.
pub fn contains_chars(hay: &Vec<char>, needle: &Vec<char>) -> (r: bool)
    ensures
        r == contains(hay@, needle@),
{
    let n = hay.len();
    let m = needle.len();
    if m > n {
        return false;
    }
    if m == 0 {
        assert(hay@.subrange(0, 0) =~= needle@);
        assert(occurs_at(hay@, needle@, 0));
        return true;
    }
    let last = n - m;
    let mut k: usize = 0;
    while k <= last
        invariant
            n == hay@.len(),
            m == needle@.len(),
            0 < m <= n,
            last == n - m,
            k <= last + 1,
            forall|t: int| 0 <= t < k ==> !occurs_at(hay@, needle@, t),
        decreases last + 1 - k,
    {
        if occurs_here(hay, needle, k) {
            return true;
        }
        k = k + 1;
    }
    assert forall|t: int| !occurs_at(hay@, needle@, t) by {
        if 0 <= t && t + m <= n {
            assert(t < k);
        }
    }
    false
}

/// The parts joined with a newline between consecutive parts.
pub open spec fn join_lines(parts: Seq<Seq<char>>) -> Seq<char>
    decreases parts.len(),
{
    if parts.len() == 0 {
        Seq::empty()
    } else if parts.len() == 1 {
        parts[0]
    } else {
        join_lines(parts.drop_last()) + seq!['\n'] + parts.last()
    }
}

/// Join the parts with `"\n"` between them.
pub fn join_with_newlines(parts: &Vec<String>) -> (r: String)
    ensures
        r@ == join_lines(parts@.map_values(|p: String| p@)),
{
    let mut out = String::new();
    let mut i: usize = 0;
    while i < parts.len()
        invariant
            i <= parts@.len(),
            out@ == join_lines(parts@.map_values(|p: String| p@).subrange(0, i as int)),
        decreases parts@.len() - i,
    {
        let ghost ps = parts@.map_values(|p: String| p@);
        proof {
            assert(ps.subrange(0, i + 1).drop_last() =~= ps.subrange(0, i as int));
            assert(ps.subrange(0, i + 1).last() == parts@[i as int]@);
        }
        if i > 0 {
            push_char(&mut out, '\n');
        }
        out.append(parts[i].as_str());
        proof {
            if i == 0 {
                assert(out@ =~= join_lines(ps.subrange(0, 1)));
            } else {
                assert(out@ =~= join_lines(ps.subrange(0, i + 1)));
            }
        }
        i = i + 1;
    }
    assert(parts@.map_values(|p: String| p@).subrange(0, parts@.len() as int) =~= parts@.map_values(|p: String| p@));
    out
}

/// `s` cut to its first `max` characters followed by an ellipsis when it is
/// longer than `max` characters; `s` itself otherwise.
pub open spec fn truncated(s: Seq<char>, max: nat) -> Seq<char> {
    if s.len() <= max {
        s
    } else {
        s.take(max as int).push('…')
    }
}

/// Truncate `s` to at most `max` characters, marking a cut with `…`.
pub fn truncate_chars(s: &str, max: usize) -> (r: String)
    ensures
        r@ == truncated(s@, max as nat),
{
    let v = chars_of(s);
    if v.len() <= max {
        string_from(&v, 0, v.len())
    } else {
        let mut head = string_from(&v, 0, max);
        push_char(&mut head, '…');
        head
    }
}

/// The lower-case form of `s` under Unicode's default case mapping, as
/// `str::to_lowercase` computes it.
pub uninterp spec fn lowercase(s: Seq<char>) -> Seq<char>;

/// Calls `str::to_lowercase`. Claimed: the result depends on the text alone
/// and is named `lowercase`; the case tables are std's and are not restated.
#[verifier::external_body]
pub(crate) fn to_lowercase(s: &str) -> (r: String)
    ensures
        r@ == lowercase(s@),
{
    s.to_lowercase()
}

} // verus!
