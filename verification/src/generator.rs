//! Password generator: random passwords of a requested length drawn from the
//! selected character sets, with at least one character of every selected set.
//!
//! Randomness comes from the OS CSPRNG through the unbiased
//! [`random_below`](crate::crypto::random_below); the placement of the
//! guaranteed characters is hidden by a Fisher-Yates shuffle.

use vstd::prelude::*;

use crate::crypto::random_below;
use crate::error::KeyhavenError;
use crate::model::PasswordGenDefaults;
use crate::text::{decimal, push_char, push_decimal};
use zeroize::Zeroize;

verus! {

/// Upper-case letters.
pub const UPPER: [char; 26] = [
    'A', 'B', 'C', 'D', 'E', 'F', 'G', 'H', 'I', 'J', 'K', 'L', 'M', 'N', 'O', 'P', 'Q', 'R', 'S', 'T',
    'U', 'V', 'W', 'X', 'Y', 'Z',
];

/// Lower-case letters.
pub const LOWER: [char; 26] = [
    'a', 'b', 'c', 'd', 'e', 'f', 'g', 'h', 'i', 'j', 'k', 'l', 'm', 'n', 'o', 'p', 'q', 'r', 's', 't',
    'u', 'v', 'w', 'x', 'y', 'z',
];

/// Decimal digits.
pub const DIGITS: [char; 10] = ['0', '1', '2', '3', '4', '5', '6', '7', '8', '9'];

/// Symbols that are safe to type on common keyboards.
pub const SYMBOLS: [char; 24] = [
    '!', '@', '#', '$', '%', '^', '&', '*', '(', ')', '-', '_', '=', '+', '[', ']', '{', '}', ';', ':',
    ',', '.', '?', '/',
];

/// The shortest password that can be requested.
pub const MIN_LENGTH: u32 = 1;

/// The longest password that can be requested.
pub const MAX_LENGTH: u32 = 512;

/// What to generate: a length and which character sets to draw from.
#[derive(Debug, Clone, Copy, PartialEq, Eq, Structural)]
pub struct PasswordGenOptions {
    pub length: u32,
    pub upper: bool,
    pub lower: bool,
    pub digits: bool,
    pub symbols: bool,
}

impl From<PasswordGenDefaults> for PasswordGenOptions {
    fn from(d: PasswordGenDefaults) -> (o: Self) {
        PasswordGenOptions { length: d.length, upper: d.upper, lower: d.lower, digits: d.digits, symbols: d.symbols }
    }
}

impl vstd::std_specs::convert::FromSpecImpl<PasswordGenDefaults> for PasswordGenOptions {
    open spec fn obeys_from_spec() -> bool {
        true
    }

    open spec fn from_spec(d: PasswordGenDefaults) -> Self {
        PasswordGenOptions { length: d.length, upper: d.upper, lower: d.lower, digits: d.digits, symbols: d.symbols }
    }
}

impl Default for PasswordGenOptions {
    /// The stored generator defaults.
    fn default() -> (o: Self)
        ensures
            o == (PasswordGenOptions { length: 20, upper: true, lower: true, digits: true, symbols: true }),
    {
        PasswordGenOptions::from(PasswordGenDefaults::default())
    }
}

/// How many character sets the options select.
pub open spec fn set_count(o: PasswordGenOptions) -> nat {
    (if o.upper { 1nat } else { 0nat }) + (if o.lower { 1nat } else { 0nat }) + (if o.digits { 1nat } else { 0nat })
        + (if o.symbols { 1nat } else { 0nat })
}

/// Whether `c` belongs to one of the selected sets.
pub open spec fn allowed(o: PasswordGenOptions, c: char) -> bool {
    ||| o.upper && UPPER@.contains(c)
    ||| o.lower && LOWER@.contains(c)
    ||| o.digits && DIGITS@.contains(c)
    ||| o.symbols && SYMBOLS@.contains(c)
}

/// Whether some character of `pw` belongs to `set`.
pub open spec fn has_one_of(pw: Seq<char>, set: Seq<char>) -> bool {
    exists|k: int| 0 <= k < pw.len() && set.contains(#[trigger] pw[k])
}

/// Whether `pw` is a password the options ask for: of the requested length,
/// only characters of the selected sets, and at least one of each.
pub open spec fn complies(o: PasswordGenOptions, pw: Seq<char>) -> bool {
    &&& pw.len() == o.length
    &&& forall|k: int| 0 <= k < pw.len() ==> allowed(o, #[trigger] pw[k])
    &&& o.upper ==> has_one_of(pw, UPPER@)
    &&& o.lower ==> has_one_of(pw, LOWER@)
    &&& o.digits ==> has_one_of(pw, DIGITS@)
    &&& o.symbols ==> has_one_of(pw, SYMBOLS@)
}

/// The message of the invalid-input error the options are rejected with, if any:
/// no set selected, a length outside 1..=512, or a length below the number of
/// selected sets (checked in that order).
pub open spec fn rejection(o: PasswordGenOptions) -> Option<Seq<char>> {
    if set_count(o) == 0 {
        Some("select at least one character set"@)
    } else if o.length < 1 || o.length > 512 {
        Some("length must be between 1 and 512"@)
    } else if o.length < set_count(o) {
        Some("length must be at least "@ + decimal(set_count(o)) + " to include one of each selected set"@)
    } else {
        None
    }
}

/// A uniformly chosen character of `set`.
fn pick(set: &[char]) -> (c: char)
    requires
        0 < set@.len() <= u32::MAX,
    ensures
        set@.contains(c),
{
    let i = random_below(set.len() as u32);
    let c = set[i as usize];
    assert(set@[i as int] == c);
    c
}

/// Append the characters of `set` to `v`.
fn append_set(v: &mut Vec<char>, set: &[char])
    ensures
        final(v)@ == old(v)@ + set@,
{
    let mut i: usize = 0;
    while i < set.len()
        invariant
            i <= set@.len(),
            v@ == old(v)@ + set@.subrange(0, i as int),
        decreases set@.len() - i,
    {
        v.push(set[i]);
        i = i + 1;
        assert(v@ =~= old(v)@ + set@.subrange(0, i as int));
    }
    assert(set@.subrange(0, set@.len() as int) =~= set@);
}

/// Swapping two positions keeps a character of `set` somewhere.
proof fn lemma_swap_keeps_one_of(c: Seq<char>, i: int, j: int, set: Seq<char>)
    requires
        0 <= i < c.len(),
        0 <= j < c.len(),
        has_one_of(c, set),
    ensures
        has_one_of(c.update(i, c[j]).update(j, c[i]), set),
{
    let d = c.update(i, c[j]).update(j, c[i]);
    let k = choose|k: int| 0 <= k < c.len() && set.contains(#[trigger] c[k]);
    if k == i {
        assert(d[j] == c[i]);
    } else if k == j {
        assert(d[i] == c[j] || i == j);
        if i == j {
            assert(d[j] == c[j]);
        }
    } else {
        assert(d[k] == c[k]);
    }
}

/// The selected character sets, in the order upper, lower, digits, symbols.
pub open spec fn selected_sets(o: PasswordGenOptions) -> Seq<Seq<char>> {
    let s0 = Seq::<Seq<char>>::empty();
    let s1 = if o.upper { s0.push(UPPER@) } else { s0 };
    let s2 = if o.lower { s1.push(LOWER@) } else { s1 };
    let s3 = if o.digits { s2.push(DIGITS@) } else { s2 };
    if o.symbols { s3.push(SYMBOLS@) } else { s3 }
}

/// The combined pool: the selected sets one after another, in the same order.
pub open spec fn pool_of(o: PasswordGenOptions) -> Seq<char> {
    let s0 = Seq::<char>::empty();
    let s1 = if o.upper { s0 + UPPER@ } else { s0 };
    let s2 = if o.lower { s1 + LOWER@ } else { s1 };
    let s3 = if o.digits { s2 + DIGITS@ } else { s2 };
    if o.symbols { s3 + SYMBOLS@ } else { s3 }
}

/// Whether `required[k]` is a character of `sets[k]` for every `k`.
pub open spec fn each_drawn_from(required: Seq<char>, sets: Seq<Seq<char>>) -> bool {
    required.len() == sets.len() && forall|k: int| 0 <= k < sets.len() ==> sets[k].contains(#[trigger] required[k])
}

/// `s` with the characters at `i` and `j` exchanged.
pub open spec fn swapped(s: Seq<char>, i: int, j: int) -> Seq<char> {
    s.update(i, s[j]).update(j, s[i])
}

/// The first `k` steps of a Fisher-Yates shuffle of `s`: step `t` (from 0)
/// exchanges position `s.len() - 1 - t` with position `swaps[t]`.
pub open spec fn shuffled(s: Seq<char>, swaps: Seq<u32>, k: nat) -> Seq<char>
    decreases k,
{
    if k == 0 {
        s
    } else {
        swapped(shuffled(s, swaps, (k - 1) as nat), s.len() - k, swaps[k - 1] as int)
    }
}

/// The pool characters that `picks` index.
pub open spec fn filled(pool: Seq<char>, picks: Seq<u32>) -> Seq<char> {
    picks.map_values(|p: u32| pool[p as int])
}

/// Whether [`arrange`] can take these draws: every pick indexes `pool`, and
/// there is one swap per position from the last down to the second, each
/// below that position plus one.
pub open spec fn arrange_ok(required_len: nat, pool: Seq<char>, picks: Seq<u32>, swaps: Seq<u32>) -> bool {
    let n = required_len + picks.len();
    &&& forall|k: int| 0 <= k < picks.len() ==> (#[trigger] picks[k]) < pool.len()
    &&& swaps.len() == (if n == 0 { 0 } else { n - 1 })
    &&& forall|k: int| 0 <= k < swaps.len() ==> (#[trigger] swaps[k]) < n - k
}

/// The password made from the draws: the required characters, then the picked
/// pool characters, then the whole shuffled.
pub open spec fn arranged(required: Seq<char>, pool: Seq<char>, picks: Seq<u32>, swaps: Seq<u32>) -> Seq<char> {
    shuffled(required + filled(pool, picks), swaps, swaps.len())
}

/// Whether `pw` is what [`generate_password`] makes of `o` for some outcome of
/// its random draws: one character of each selected set, pool picks up to the
/// requested length, and Fisher-Yates swaps, all within their bounds.
pub open spec fn generated(o: PasswordGenOptions, required: Seq<char>, picks: Seq<u32>, swaps: Seq<u32>, pw: Seq<char>) -> bool {
    &&& each_drawn_from(required, selected_sets(o))
    &&& required.len() + picks.len() == o.length
    &&& arrange_ok(required.len(), pool_of(o), picks, swaps)
    &&& pw == arranged(required, pool_of(o), picks, swaps)
}

/// Whether `pw` is what [`generate_password`] makes of `o` for some outcome of
/// its draws.
pub open spec fn some_outcome(o: PasswordGenOptions, pw: Seq<char>) -> bool {
    exists|required: Seq<char>, picks: Seq<u32>, swaps: Seq<u32>| #[trigger] generated(o, required, picks, swaps, pw)
}

/// Calls `<Vec<char> as Zeroize>::zeroize`. Claimed (zeroize's source): the
/// characters and the spare capacity are overwritten and the vector is
/// cleared.
#[verifier::external_body]
fn wipe_chars(v: &mut Vec<char>)
    ensures
        final(v)@ == Seq::<char>::empty(),
{
    v.zeroize()
}

/// Lay out a password from its draws: `required` in order, then `pool[p]` for
/// each `p` of `picks`, then a Fisher-Yates shuffle whose `t`-th step
/// exchanges position `n - 1 - t` with `swaps[t]`. The working buffer is
/// wiped before returning.
pub fn arrange(required: &[char], pool: &[char], picks: &[u32], swaps: &[u32]) -> (pw: String)
    requires
        arrange_ok(required@.len(), pool@, picks@, swaps@),
    ensures
        pw@ == arranged(required@, pool@, picks@, swaps@),
{
    let ghost start = required@ + filled(pool@, picks@);
    let mut chars: Vec<char> = Vec::new();
    let mut i: usize = 0;
    while i < required.len()
        invariant
            i <= required@.len(),
            chars@ == required@.subrange(0, i as int),
        decreases required@.len() - i,
    {
        chars.push(required[i]);
        i = i + 1;
        assert(chars@ =~= required@.subrange(0, i as int));
    }
    assert(required@.subrange(0, required@.len() as int) =~= required@);
    let mut k: usize = 0;
    while k < picks.len()
        invariant
            arrange_ok(required@.len(), pool@, picks@, swaps@),
            start == required@ + filled(pool@, picks@),
            k <= picks@.len(),
            chars@ == start.subrange(0, required@.len() + k),
        decreases picks@.len() - k,
    {
        let p = picks[k];
        assert(p < pool@.len());
        chars.push(pool[p as usize]);
        k = k + 1;
        assert(chars@ =~= start.subrange(0, required@.len() + k));
    }
    assert(chars@ =~= start);
    let n = chars.len();
    let mut t: usize = 0;
    while t < swaps.len()
        invariant
            arrange_ok(required@.len(), pool@, picks@, swaps@),
            n == start.len(),
            n == required@.len() + picks@.len(),
            t <= swaps@.len(),
            chars@ == shuffled(start, swaps@, t as nat),
            chars@.len() == n,
        decreases swaps@.len() - t,
    {
        let i = n - 1 - t;
        let j = swaps[t] as usize;
        assert(j < n - t);
        let a = chars[i];
        let b = chars[j];
        let ghost before = chars@;
        chars.set(i, b);
        chars.set(j, a);
        t = t + 1;
        assert(chars@ =~= swapped(before, i as int, j as int));
    }
    let mut pw = String::new();
    let mut u: usize = 0;
    while u < n
        invariant
            n == chars@.len(),
            u <= n,
            pw@ == chars@.subrange(0, u as int),
        decreases n - u,
    {
        push_char(&mut pw, chars[u]);
        u = u + 1;
        assert(pw@ =~= chars@.subrange(0, u as int));
    }
    assert(chars@.subrange(0, n as int) =~= chars@);
    wipe_chars(&mut chars);
    pw
}

/// Add the guaranteed character of one set when it is selected.
fn push_required(required: &mut Vec<char>, selected: bool, set: &[char], Ghost(sets): Ghost<Seq<Seq<char>>>)
    requires
        0 < set@.len() <= u32::MAX,
        each_drawn_from(old(required)@, sets),
    ensures
        each_drawn_from(final(required)@, if selected { sets.push(set@) } else { sets }),
{
    if selected {
        let c = pick(set);
        required.push(c);
        assert(required@[sets.len() as int] == c);
    }
}

/// A Fisher-Yates shuffle keeps the length, keeps a character of `set`
/// somewhere, and keeps every character satisfying `p` when all of them did.
proof fn lemma_shuffle_keeps(s: Seq<char>, swaps: Seq<u32>, k: nat, set: Seq<char>, p: spec_fn(char) -> bool)
    requires
        k <= swaps.len(),
        k <= s.len(),
        forall|t: int| 0 <= t < swaps.len() ==> (#[trigger] swaps[t]) < s.len() - t,
    ensures
        shuffled(s, swaps, k).len() == s.len(),
        has_one_of(s, set) ==> has_one_of(shuffled(s, swaps, k), set),
        (forall|t: int| 0 <= t < s.len() ==> p(#[trigger] s[t])) ==> (forall|t: int|
            0 <= t < s.len() ==> p(#[trigger] shuffled(s, swaps, k)[t])),
    decreases k,
{
    if k > 0 {
        let km1 = (k - 1) as nat;
        lemma_shuffle_keeps(s, swaps, km1, set, p);
        let prev = shuffled(s, swaps, km1);
        let i = s.len() - k;
        let j = swaps[k - 1] as int;
        assert(j < s.len() - (k - 1));
        let cur = swapped(prev, i, j);
        assert(shuffled(s, swaps, k) == cur);
        if has_one_of(s, set) {
            lemma_swap_keeps_one_of(prev, i, j, set);
        }
        if forall|t: int| 0 <= t < s.len() ==> p(#[trigger] s[t]) {
            assert forall|t: int| 0 <= t < s.len() implies p(#[trigger] cur[t]) by {
                if t == j {
                    assert(cur[t] == prev[i]);
                } else if t == i {
                    assert(cur[t] == prev[j]);
                } else {
                    assert(cur[t] == prev[t]);
                }
            }
        }
    }
}

/// Every pool character is allowed, and the required characters cover every
/// selected set with allowed characters.
proof fn lemma_draws_comply(o: PasswordGenOptions, required: Seq<char>)
    requires
        each_drawn_from(required, selected_sets(o)),
    ensures
        forall|k: int| 0 <= k < pool_of(o).len() ==> allowed(o, #[trigger] pool_of(o)[k]),
        forall|k: int| 0 <= k < required.len() ==> allowed(o, #[trigger] required[k]),
        o.upper ==> has_one_of(required, UPPER@),
        o.lower ==> has_one_of(required, LOWER@),
        o.digits ==> has_one_of(required, DIGITS@),
        o.symbols ==> has_one_of(required, SYMBOLS@),
        required.len() == set_count(o),
{
    let e = Seq::<char>::empty();
    let p1 = if o.upper { e + UPPER@ } else { e };
    let p2 = if o.lower { p1 + LOWER@ } else { p1 };
    let p3 = if o.digits { p2 + DIGITS@ } else { p2 };
    let pool = pool_of(o);
    assert forall|k: int| 0 <= k < pool.len() implies allowed(o, #[trigger] pool[k]) by {
        if k < p1.len() {
            assert(p1[k] == pool[k]);
            assert(UPPER@[k] == p1[k]);
        } else if k < p2.len() {
            assert(p2[k] == pool[k]);
            assert(LOWER@[k - p1.len()] == p2[k]);
        } else if k < p3.len() {
            assert(p3[k] == pool[k]);
            assert(DIGITS@[k - p2.len()] == p3[k]);
        } else {
            assert(SYMBOLS@[k - p3.len()] == pool[k]);
        }
    }
    let sets = selected_sets(o);
    let s0 = Seq::<Seq<char>>::empty();
    let s1 = if o.upper { s0.push(UPPER@) } else { s0 };
    let s2 = if o.lower { s1.push(LOWER@) } else { s1 };
    let s3 = if o.digits { s2.push(DIGITS@) } else { s2 };
    assert forall|k: int| 0 <= k < required.len() implies allowed(o, #[trigger] required[k]) by {
        assert(sets[k].contains(required[k]));
        if k < s1.len() {
            assert(sets[k] == UPPER@);
        } else if k < s2.len() {
            assert(sets[k] == LOWER@);
        } else if k < s3.len() {
            assert(sets[k] == DIGITS@);
        } else {
            assert(sets[k] == SYMBOLS@);
        }
    }
    if o.upper {
        assert(sets[0] == UPPER@);
        assert(UPPER@.contains(required[0]));
    }
    if o.lower {
        let k = s1.len() as int;
        assert(sets[k] == LOWER@);
        assert(LOWER@.contains(required[k]));
    }
    if o.digits {
        let k = s2.len() as int;
        assert(sets[k] == DIGITS@);
        assert(DIGITS@.contains(required[k]));
    }
    if o.symbols {
        let k = s3.len() as int;
        assert(sets[k] == SYMBOLS@);
        assert(SYMBOLS@.contains(required[k]));
    }
}

/// A character of `a` or of `b` is a character of `a + b`, and nothing else is.
proof fn lemma_concat_contains(a: Seq<char>, b: Seq<char>, c: char)
    ensures
        (a + b).contains(c) <==> (a.contains(c) || b.contains(c)),
{
    let ab = a + b;
    if a.contains(c) {
        let i = choose|i: int| 0 <= i < a.len() && a[i] == c;
        assert(ab[i] == c);
    }
    if b.contains(c) {
        let i = choose|i: int| 0 <= i < b.len() && b[i] == c;
        assert(ab[a.len() + i] == c);
    }
    if ab.contains(c) {
        let i = choose|i: int| 0 <= i < ab.len() && ab[i] == c;
        if i < a.len() {
            assert(a[i] == c);
        } else {
            assert(b[i - a.len()] == c);
        }
    }
}

/// The fill pool is the union of the selected sets: a character is in the
/// pool exactly when it belongs to one of the selected sets, so every
/// character of every selected set can be drawn for any fill position.
pub proof fn lemma_pool_is_selected_sets(o: PasswordGenOptions, c: char)
    ensures
        pool_of(o).contains(c) <==> allowed(o, c),
{
    let e = Seq::<char>::empty();
    let p1 = if o.upper { e + UPPER@ } else { e };
    let p2 = if o.lower { p1 + LOWER@ } else { p1 };
    let p3 = if o.digits { p2 + DIGITS@ } else { p2 };
    assert(!e.contains(c));
    lemma_concat_contains(e, UPPER@, c);
    lemma_concat_contains(p1, LOWER@, c);
    lemma_concat_contains(p2, DIGITS@, c);
    lemma_concat_contains(p3, SYMBOLS@, c);
}

/// A password laid out from draws within their bounds complies with the
/// options.
proof fn lemma_generated_complies(o: PasswordGenOptions, required: Seq<char>, picks: Seq<u32>, swaps: Seq<u32>, pw: Seq<char>)
    requires
        generated(o, required, picks, swaps, pw),
    ensures
        complies(o, pw),
{
    lemma_draws_comply(o, required);
    let pool = pool_of(o);
    let s = required + filled(pool, picks);
    let p = |c: char| allowed(o, c);
    assert forall|t: int| 0 <= t < s.len() implies p(#[trigger] s[t]) by {
        if t >= required.len() {
            let q = picks[t - required.len()];
            assert(s[t] == pool[q as int]);
        }
    }
    let n = s.len();
    assert forall|t: int| 0 <= t < swaps.len() implies (#[trigger] swaps[t]) < s.len() - t by {}
    lemma_shuffle_keeps(s, swaps, swaps.len(), UPPER@, p);
    lemma_shuffle_keeps(s, swaps, swaps.len(), LOWER@, p);
    lemma_shuffle_keeps(s, swaps, swaps.len(), DIGITS@, p);
    lemma_shuffle_keeps(s, swaps, swaps.len(), SYMBOLS@, p);
    assert forall|set: Seq<char>| has_one_of(required, set) implies has_one_of(s, set) by {
        let k = choose|k: int| 0 <= k < required.len() && set.contains(#[trigger] required[k]);
        assert(s[k] == required[k]);
    }
    assert forall|t: int| 0 <= t < pw.len() implies allowed(o, #[trigger] pw[t]) by {
        assert(p(pw[t]));
    }
}

/// Generate a password for `opts`: exactly `opts.length` characters, only
/// from the selected sets, at least one from each selected set, in random
/// order. Options are rejected with [`KeyhavenError::InvalidInput`] when no
/// set is selected, the length is outside 1..=512, or the length is below the
/// number of selected sets.
///
/// The random draws are made in this order: one character of each selected
/// set, then `length - sets` indexes into the pool, then, for `i` from
/// `length - 1` down to 1, a swap position below `i + 1`; [`arrange`] lays
/// the password out from them.
pub fn generate_password(opts: PasswordGenOptions) -> (r: Result<String, KeyhavenError>)
    ensures
        match r {
            Ok(pw) => rejection(opts) is None && complies(opts, pw@) && some_outcome(opts, pw@),
            Err(e) => rejection(opts) matches Some(m) && e.is_invalid_input(m),
        },
{
    let count: u32 = (if opts.upper { 1u32 } else { 0 }) + (if opts.lower { 1u32 } else { 0 })
        + (if opts.digits { 1u32 } else { 0 }) + (if opts.symbols { 1u32 } else { 0 });
    if count == 0 {
        return Err(KeyhavenError::InvalidInput { message: "select at least one character set".to_string() });
    }
    if opts.length < MIN_LENGTH || opts.length > MAX_LENGTH {
        return Err(KeyhavenError::InvalidInput { message: "length must be between 1 and 512".to_string() });
    }
    if opts.length < count {
        let mut message = "length must be at least ".to_string();
        push_decimal(&mut message, count as u64);
        message.append(" to include one of each selected set");
        return Err(KeyhavenError::InvalidInput { message });
    }
    let length = opts.length as usize;
    let ghost o = opts;

    let mut pool: Vec<char> = Vec::new();
    if opts.upper {
        append_set(&mut pool, UPPER.as_slice());
    }
    if opts.lower {
        append_set(&mut pool, LOWER.as_slice());
    }
    if opts.digits {
        append_set(&mut pool, DIGITS.as_slice());
    }
    if opts.symbols {
        append_set(&mut pool, SYMBOLS.as_slice());
    }
    assert(pool@ =~= pool_of(o));
    assert(pool@.len() >= 10 && pool@.len() <= 86);

    let mut required: Vec<char> = Vec::new();
    let ghost s0 = Seq::<Seq<char>>::empty();
    let ghost s1 = if o.upper { s0.push(UPPER@) } else { s0 };
    let ghost s2 = if o.lower { s1.push(LOWER@) } else { s1 };
    let ghost s3 = if o.digits { s2.push(DIGITS@) } else { s2 };
    assert(each_drawn_from(required@, s0));
    push_required(&mut required, opts.upper, UPPER.as_slice(), Ghost(s0));
    push_required(&mut required, opts.lower, LOWER.as_slice(), Ghost(s1));
    push_required(&mut required, opts.digits, DIGITS.as_slice(), Ghost(s2));
    push_required(&mut required, opts.symbols, SYMBOLS.as_slice(), Ghost(s3));
    assert(each_drawn_from(required@, selected_sets(o)));
    proof { lemma_draws_comply(o, required@); }

    let fill = length - required.len();
    let mut picks: Vec<u32> = Vec::new();
    while picks.len() < fill
        invariant
            fill + required@.len() == length,
            picks@.len() <= fill,
            0 < pool@.len() <= 86,
            forall|k: int| 0 <= k < picks@.len() ==> (#[trigger] picks@[k]) < pool@.len(),
        decreases fill - picks@.len(),
    {
        let p = random_below(pool.len() as u32);
        picks.push(p);
    }

    let n = length;
    let mut swaps: Vec<u32> = Vec::new();
    let mut i: usize = n - 1;
    while i > 0
        invariant
            1 <= n <= 512,
            i < n,
            swaps@.len() == n - 1 - i,
            forall|k: int| 0 <= k < swaps@.len() ==> (#[trigger] swaps@[k]) < n - k,
        decreases i,
    {
        let j = random_below((i + 1) as u32);
        swaps.push(j);
        i = i - 1;
    }

    let pw = arrange(required.as_slice(), pool.as_slice(), picks.as_slice(), swaps.as_slice());
    let ghost drawn = required@;
    proof {
        assert(generated(o, drawn, picks@, swaps@, pw@));
        lemma_generated_complies(o, drawn, picks@, swaps@, pw@);
    }
    wipe_chars(&mut required);
    assert(rejection(opts) is None);
    assert(complies(opts, pw@));
    assert(some_outcome(opts, pw@));
    Ok(pw)
}

} // verus!
