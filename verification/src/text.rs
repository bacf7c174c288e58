//! Text as a sequence of characters: trimming, cutting, ordering, joining and
//! decimal notation, each as a specification function with an executable
//! function that meets it.

use vstd::prelude::*;

verus! {

/// `String::push` appends the given character to the end of the string.
pub assume_specification[ String::push ](s: &mut String, c: char)
    ensures
        final(s)@ == old(s)@.push(c),
;

// ── Specifications ──────────────────────────────────────────────────────────

/// How many times `c` stands in a row at the start of `s`.
pub open spec fn lead(s: Seq<char>, c: char) -> nat
    decreases s.len(),
{
    if s.len() > 0 && s[0] == c {
        1 + lead(s.drop_first(), c)
    } else {
        0
    }
}

/// How many times `c` stands in a row at the end of `s`.
pub open spec fn trail(s: Seq<char>, c: char) -> nat
    decreases s.len(),
{
    if s.len() > 0 && s.last() == c {
        1 + trail(s.drop_last(), c)
    } else {
        0
    }
}

/// `s` without the run of `c` at its start.
pub open spec fn trim_start(s: Seq<char>, c: char) -> Seq<char> {
    s.skip(lead(s, c) as int)
}

/// `s` without the run of `c` at its end.
pub open spec fn trim_end(s: Seq<char>, c: char) -> Seq<char> {
    s.take(s.len() - trail(s, c))
}

/// `s` without the runs of `c` at both of its ends.
pub open spec fn trim(s: Seq<char>, c: char) -> Seq<char> {
    trim_end(trim_start(s, c), c)
}

/// Where `c` first stands in `s`, or the length of `s` where it does not.
pub open spec fn first_at(s: Seq<char>, c: char) -> nat
    decreases s.len(),
{
    if s.len() == 0 || s[0] == c {
        0
    } else {
        1 + first_at(s.drop_first(), c)
    }
}

/// What stands before the first `c` of `s`: all of `s` where `c` does not occur.
pub open spec fn head(s: Seq<char>, c: char) -> Seq<char> {
    s.take(first_at(s, c) as int)
}

/// What stands after the first `c` of `s`, if `c` occurs.
pub open spec fn tail(s: Seq<char>, c: char) -> Option<Seq<char>> {
    if s.contains(c) {
        Some(s.skip(first_at(s, c) as int + 1))
    } else {
        None
    }
}

/// What stands after the last `c` of `s`: all of `s` where `c` does not occur.
pub open spec fn after_last(s: Seq<char>, c: char) -> Seq<char>
    decreases s.len(),
{
    if s.len() == 0 || s.last() == c {
        Seq::empty()
    } else {
        after_last(s.drop_last(), c).push(s.last())
    }
}

/// Whether `s` starts with `c`.
pub open spec fn begins(s: Seq<char>, c: char) -> bool {
    s.len() > 0 && s[0] == c
}

/// Whether `s` ends with `c`.
pub open spec fn ends(s: Seq<char>, c: char) -> bool {
    s.len() > 0 && s.last() == c
}

/// `s` with every `from` replaced by `to`.
pub open spec fn replaced(s: Seq<char>, from: char, to: char) -> Seq<char> {
    s.map_values(
        |c: char|
            if c == from {
                to
            } else {
                c
            },
    )
}

/// Dictionary order by character code, which is also the order of the UTF-8
/// encodings: a proper prefix comes first.
pub open spec fn precedes(a: Seq<char>, b: Seq<char>) -> bool
    decreases a.len(),
{
    if b.len() == 0 {
        false
    } else if a.len() == 0 {
        true
    } else if a[0] == b[0] {
        precedes(a.drop_first(), b.drop_first())
    } else {
        a[0] < b[0]
    }
}

/// The digit that stands for `d`.
pub open spec fn digit(d: nat) -> char {
    ('0' as u32 + d) as char
}

/// `n` in decimal notation.
pub open spec fn decimal(n: nat) -> Seq<char>
    decreases n,
{
    if n < 10 {
        seq![digit(n)]
    } else {
        decimal(n / 10).push(digit(n % 10))
    }
}

/// The parts in order with `sep` between each two.
pub open spec fn joined(parts: Seq<Seq<char>>, sep: Seq<char>) -> Seq<char>
    decreases parts.len(),
{
    if parts.len() == 0 {
        Seq::empty()
    } else if parts.len() == 1 {
        parts[0]
    } else {
        joined(parts.drop_last(), sep) + sep + parts.last()
    }
}

/// The texts of a list of strings.
pub open spec fn views(v: Seq<String>) -> Seq<Seq<char>> {
    v.map_values(|s: String| s@)
}

// ── Facts about the specifications ──────────────────────────────────────────

/// `lead` is the one length at which the run of `c` stops.
pub proof fn lemma_lead(s: Seq<char>, c: char, k: int)
    requires
        0 <= k <= s.len(),
        forall|i: int| 0 <= i < k ==> s[i] == c,
        k == s.len() || s[k] != c,
    ensures
        lead(s, c) == k,
    decreases s.len(),
{
    if k > 0 {
        assert forall|i: int| 0 <= i < k - 1 implies s.drop_first()[i] == c by {
            assert(s[i + 1] == c);
        }
        lemma_lead(s.drop_first(), c, k - 1);
    }
}

/// What `lead` counts.
pub proof fn lemma_lead_is(s: Seq<char>, c: char)
    ensures
        lead(s, c) <= s.len(),
        forall|i: int| 0 <= i < lead(s, c) ==> s[i] == c,
        lead(s, c) == s.len() || s[lead(s, c) as int] != c,
    decreases s.len(),
{
    if s.len() > 0 && s[0] == c {
        lemma_lead_is(s.drop_first(), c);
        assert forall|i: int| 0 <= i < lead(s, c) implies s[i] == c by {
            if i > 0 {
                assert(s[i] == s.drop_first()[i - 1]);
            }
        }
    }
}

/// `trail` is the one length at which the run of `c` stops.
pub proof fn lemma_trail(s: Seq<char>, c: char, k: int)
    requires
        0 <= k <= s.len(),
        forall|i: int| s.len() - k <= i < s.len() ==> s[i] == c,
        k == s.len() || s[s.len() - k - 1] != c,
    ensures
        trail(s, c) == k,
    decreases s.len(),
{
    if k > 0 {
        lemma_trail(s.drop_last(), c, k - 1);
    }
}

/// What `trail` counts.
pub proof fn lemma_trail_is(s: Seq<char>, c: char)
    ensures
        trail(s, c) <= s.len(),
        forall|i: int| s.len() - trail(s, c) <= i < s.len() ==> s[i] == c,
        trail(s, c) == s.len() || s[s.len() - trail(s, c) - 1] != c,
    decreases s.len(),
{
    if s.len() > 0 && s.last() == c {
        lemma_trail_is(s.drop_last(), c);
        assert forall|i: int| s.len() - trail(s, c) <= i < s.len() implies s[i] == c by {
            if i < s.len() - 1 {
                assert(s[i] == s.drop_last()[i]);
            }
        }
    }
}

/// `first_at` is the one place where `c` occurs with none before it.
pub proof fn lemma_first_at(s: Seq<char>, c: char, k: int)
    requires
        0 <= k <= s.len(),
        forall|i: int| 0 <= i < k ==> s[i] != c,
        k == s.len() || s[k] == c,
    ensures
        first_at(s, c) == k,
    decreases s.len(),
{
    if k > 0 {
        assert forall|i: int| 0 <= i < k - 1 implies s.drop_first()[i] != c by {
            assert(s[i + 1] != c);
        }
        lemma_first_at(s.drop_first(), c, k - 1);
    }
}

/// What `first_at` finds.
pub proof fn lemma_first_at_is(s: Seq<char>, c: char)
    ensures
        first_at(s, c) <= s.len(),
        forall|i: int| 0 <= i < first_at(s, c) ==> s[i] != c,
        first_at(s, c) == s.len() || s[first_at(s, c) as int] == c,
        s.contains(c) <==> first_at(s, c) < s.len(),
    decreases s.len(),
{
    if s.len() > 0 && s[0] != c {
        lemma_first_at_is(s.drop_first(), c);
        assert forall|i: int| 0 <= i < first_at(s, c) implies s[i] != c by {
            if i > 0 {
                assert(s[i] == s.drop_first()[i - 1]);
            }
        }
    }
    if first_at(s, c) < s.len() {
        assert(s[first_at(s, c) as int] == c);
    }
}

/// What is left after trimming neither starts nor ends with the trimmed
/// character.
pub proof fn lemma_trim_ends(s: Seq<char>, c: char)
    ensures
        !begins(trim(s, c), c),
        !ends(trim(s, c), c),
{
    lemma_lead_is(s, c);
    let t = trim_start(s, c);
    lemma_trail_is(t, c);
    if trim(s, c).len() > 0 {
        assert(trim(s, c)[0] == t[0]);
        assert(t[0] == s[lead(s, c) as int]);
    }
}

/// What follows the last `c` of a prefix extended by text without `c`.
pub proof fn lemma_after_last(s: Seq<char>, c: char, k: int)
    requires
        0 <= k <= s.len(),
        forall|i: int| k <= i < s.len() ==> s[i] != c,
        k == 0 || s[k - 1] == c,
    ensures
        after_last(s, c) == s.skip(k),
    decreases s.len(),
{
    if k < s.len() {
        lemma_after_last(s.drop_last(), c, k);
        assert(s.skip(k) == s.drop_last().skip(k).push(s.last()));
    } else {
        assert(s.skip(k) == Seq::<char>::empty());
    }
}

/// Of two texts exactly one holds: equal, or one precedes the other.
pub proof fn lemma_precedes_total(a: Seq<char>, b: Seq<char>)
    ensures
        a == b ==> !precedes(a, b) && !precedes(b, a),
        a != b ==> (precedes(a, b) <==> !precedes(b, a)),
    decreases a.len(),
{
    if a.len() > 0 && b.len() > 0 {
        let x = a.drop_first();
        let y = b.drop_first();
        lemma_precedes_total(x, y);
        if a[0] == b[0] {
            assert(a == seq![a[0]] + x);
            assert(b == seq![b[0]] + y);
        }
    } else if a.len() == b.len() {
        assert(a == b);
    }
}

/// The order is transitive.
pub proof fn lemma_precedes_trans(a: Seq<char>, b: Seq<char>, c: Seq<char>)
    requires
        precedes(a, b),
        precedes(b, c),
    ensures
        precedes(a, c),
    decreases a.len(),
{
    if a.len() > 0 && b.len() > 0 && c.len() > 0 && a[0] == b[0] && b[0] == c[0] {
        lemma_precedes_trans(a.drop_first(), b.drop_first(), c.drop_first());
    }
}

/// Decimal notation holds digits only, and is not empty.
pub proof fn lemma_decimal_digits(n: nat)
    ensures
        decimal(n).len() > 0,
        forall|i: int| 0 <= i < decimal(n).len() ==> '0' <= #[trigger] decimal(n)[i] <= '9',
    decreases n,
{
    if n >= 10 {
        lemma_decimal_digits(n / 10);
    }
}

/// Different numbers have different decimal notations.
pub proof fn lemma_decimal_injective(a: nat, b: nat)
    requires
        decimal(a) == decimal(b),
    ensures
        a == b,
    decreases a,
{
    lemma_decimal_digits(a / 10);
    lemma_decimal_digits(b / 10);
    assert(decimal(a).last() == digit(a % 10));
    assert(decimal(b).last() == digit(b % 10));
    if a >= 10 && b >= 10 {
        assert(decimal(a).drop_last() == decimal(a / 10));
        assert(decimal(b).drop_last() == decimal(b / 10));
        lemma_decimal_injective(a / 10, b / 10);
    } else if a >= 10 {
        assert(decimal(a).len() == decimal(a / 10).len() + 1);
    } else if b >= 10 {
        assert(decimal(b).len() == decimal(b / 10).len() + 1);
    }
}

// ── Executable functions ────────────────────────────────────────────────────

/// The characters of `s`, in order.
pub fn chars_of(s: &str) -> (r: Vec<char>)
    ensures
        r@ == s@,
{
    let mut out: Vec<char> = Vec::new();
    for c in it: s.chars()
        invariant
            it.seq() == s@,
            out@ == s@.take(it.index()),
    {
        out.push(c);
    }
    assert(s@.take(s@.len() as int) == s@);
    out
}

/// The text made of the characters `chars[from..to]`.
pub fn text_of(chars: &Vec<char>, from: usize, to: usize) -> (r: String)
    requires
        from <= to <= chars@.len(),
    ensures
        r@ == chars@.subrange(from as int, to as int),
{
    let mut out = String::new();
    let mut i: usize = from;
    while i < to
        invariant
            from <= i <= to <= chars@.len(),
            out@ == chars@.subrange(from as int, i as int),
        decreases to - i,
    {
        out.push(chars[i]);
        i += 1;
        assert(chars@.subrange(from as int, i as int) == chars@.subrange(from as int, i - 1).push(
            chars@[i - 1],
        ));
    }
    out
}

/// Whether two texts are the same.
pub fn same(a: &str, b: &str) -> (r: bool)
    ensures
        r == (a@ == b@),
{
    a.to_owned() == b.to_owned()
}

/// Whether `s` starts with the text `p`.
pub fn starts_with(s: &str, p: &str) -> (r: bool)
    ensures
        r == p@.is_prefix_of(s@),
{
    let a = chars_of(s);
    let b = chars_of(p);
    if b.len() > a.len() {
        return false;
    }
    let mut i: usize = 0;
    while i < b.len()
        invariant
            a@ == s@,
            b@ == p@,
            i <= b@.len() <= a@.len(),
            forall|j: int| 0 <= j < i ==> a@[j] == b@[j],
        decreases b@.len() - i,
    {
        if a[i] != b[i] {
            assert(s@.subrange(0, p@.len() as int)[i as int] != p@[i as int]);
            return false;
        }
        i += 1;
    }
    true
}

/// Whether `s` starts with the character `c`.
pub fn begins_with(s: &str, c: char) -> (r: bool)
    ensures
        r == begins(s@, c),
{
    let a = chars_of(s);
    a.len() > 0 && a[0] == c
}

/// Whether `s` ends with the character `c`.
pub fn ends_with(s: &str, c: char) -> (r: bool)
    ensures
        r == ends(s@, c),
{
    let a = chars_of(s);
    a.len() > 0 && a[a.len() - 1] == c
}

/// How many characters of `a`, from the start, are `c`.
fn lead_of(a: &Vec<char>, c: char) -> (r: usize)
    ensures
        r == lead(a@, c),
        r <= a@.len(),
{
    let mut i: usize = 0;
    while i < a.len() && a[i] == c
        invariant
            i <= a@.len(),
            forall|j: int| 0 <= j < i ==> a@[j] == c,
        decreases a@.len() - i,
    {
        i += 1;
    }
    proof {
        lemma_lead(a@, c, i as int);
    }
    i
}

/// The index behind the last character of `a[from..]` that is not `c`.
fn trimmed_end(a: &Vec<char>, from: usize, c: char) -> (r: usize)
    requires
        from <= a@.len(),
    ensures
        from <= r <= a@.len(),
        r == a@.len() - trail(a@.skip(from as int), c),
{
    let ghost t = a@.skip(from as int);
    let mut k: usize = a.len();
    while k > from && a[k - 1] == c
        invariant
            from <= k <= a@.len(),
            t == a@.skip(from as int),
            forall|j: int| k <= j < a@.len() ==> a@[j] == c,
        decreases k,
    {
        k -= 1;
    }
    proof {
        assert forall|j: int| t.len() - (a@.len() - k) <= j < t.len() implies t[j] == c by {
            assert(t[j] == a@[j + from]);
        }
        lemma_trail(t, c, a@.len() - k);
    }
    k
}

/// `s` without the run of `c` at its start.
pub fn without_lead(s: &str, c: char) -> (r: String)
    ensures
        r@ == trim_start(s@, c),
{
    let a = chars_of(s);
    let k = lead_of(&a, c);
    text_of(&a, k, a.len())
}

/// `s` without the run of `c` at its end.
pub fn without_trail(s: &str, c: char) -> (r: String)
    ensures
        r@ == trim_end(s@, c),
{
    let a = chars_of(s);
    let k = trimmed_end(&a, 0, c);
    assert(a@.skip(0) == a@);
    text_of(&a, 0, k)
}

/// `s` without the runs of `c` at both of its ends.
pub fn trimmed(s: &str, c: char) -> (r: String)
    ensures
        r@ == trim(s@, c),
{
    let a = chars_of(s);
    let from = lead_of(&a, c);
    let to = trimmed_end(&a, from, c);
    assert(a@.subrange(from as int, to as int) == a@.skip(from as int).take(to - from));
    text_of(&a, from, to)
}

/// Cuts `s` at the first `c`: what stands before it, and what stands after it
/// if it occurs.
pub fn cut(s: &str, c: char) -> (r: (String, Option<String>))
    ensures
        r.0@ == head(s@, c),
        match r.1 {
            Some(t) => tail(s@, c) == Some(t@),
            None => tail(s@, c) is None,
        },
{
    let a = chars_of(s);
    let mut i: usize = 0;
    while i < a.len() && a[i] != c
        invariant
            i <= a@.len(),
            forall|j: int| 0 <= j < i ==> a@[j] != c,
        decreases a@.len() - i,
    {
        i += 1;
    }
    proof {
        lemma_first_at(s@, c, i as int);
        lemma_first_at_is(s@, c);
        assert(s@.subrange(0, i as int) == s@.take(i as int));
    }
    let before = text_of(&a, 0, i);
    if i < a.len() {
        let after = text_of(&a, i + 1, a.len());
        assert(after@ == s@.skip(i + 1));
        (before, Some(after))
    } else {
        (before, None)
    }
}

/// What stands after the last `c` of `s`.
pub fn last_piece(s: &str, c: char) -> (r: String)
    ensures
        r@ == after_last(s@, c),
{
    let a = chars_of(s);
    let mut k: usize = a.len();
    while k > 0 && a[k - 1] != c
        invariant
            k <= a@.len(),
            forall|j: int| k <= j < a@.len() ==> a@[j] != c,
        decreases k,
    {
        k -= 1;
    }
    proof {
        lemma_after_last(s@, c, k as int);
        assert(a@.subrange(k as int, a@.len() as int) == s@.skip(k as int));
    }
    text_of(&a, k, a.len())
}

/// `s` with every `from` replaced by `to`.
pub fn replace_all(s: &str, from: char, to: char) -> (r: String)
    ensures
        r@ == replaced(s@, from, to),
{
    let mut out = String::new();
    for c in it: s.chars()
        invariant
            it.seq() == s@,
            out@ == replaced(s@, from, to).take(it.index()),
    {
        if c == from {
            out.push(to);
        } else {
            out.push(c);
        }
    }
    assert(replaced(s@, from, to).take(s@.len() as int) == replaced(s@, from, to));
    out
}

/// Whether `a` comes before `b` in dictionary order.
pub fn comes_before(a: &str, b: &str) -> (r: bool)
    ensures
        r == precedes(a@, b@),
{
    let x = chars_of(a);
    let y = chars_of(b);
    let mut i: usize = 0;
    assert(x@.skip(0) == x@);
    assert(y@.skip(0) == y@);
    while i < x.len() && i < y.len() && x[i] == y[i]
        invariant
            x@ == a@,
            y@ == b@,
            i <= x@.len(),
            i <= y@.len(),
            precedes(a@, b@) == precedes(x@.skip(i as int), y@.skip(i as int)),
        decreases x@.len() - i,
    {
        assert(x@.skip(i as int).drop_first() == x@.skip(i + 1));
        assert(y@.skip(i as int).drop_first() == y@.skip(i + 1));
        i += 1;
    }
    if i == y.len() {
        false
    } else if i == x.len() {
        true
    } else {
        x[i] < y[i]
    }
}

/// The digit that stands for `d`.
fn digit_char(d: u8) -> (r: char)
    requires
        d < 10,
    ensures
        r == digit(d as nat),
{
    ('0' as u8 + d) as char
}

/// `n` in decimal notation.
pub fn to_decimal(n: u128) -> (r: String)
    ensures
        r@ == decimal(n as nat),
    decreases n,
{
    let last = digit_char((n % 10) as u8);
    if n < 10 {
        let mut out = String::new();
        out.push(last);
        out
    } else {
        let mut out = to_decimal(n / 10);
        out.push(last);
        out
    }
}

/// The parts in order with `sep` between each two.
pub fn join(parts: &Vec<String>, sep: &str) -> (r: String)
    ensures
        r@ == joined(views(parts@), sep@),
{
    let mut out = String::new();
    let mut i: usize = 0;
    let ghost all = views(parts@);
    while i < parts.len()
        invariant
            all == views(parts@),
            i <= parts@.len(),
            out@ == joined(all.take(i as int), sep@),
        decreases parts@.len() - i,
    {
        if i > 0 {
            out.append(sep);
        }
        out.append(parts[i].as_str());
        assert(all.take(i + 1).drop_last() == all.take(i as int));
        i += 1;
    }
    assert(all.take(i as int) == all);
    out
}

// ── Laws ────────────────────────────────────────────────────────────────────

/// Trimming takes off exactly what was put before a text and behind it, where
/// the text itself neither starts nor ends with the same character.
pub proof fn law_trimming_takes_off_what_was_put_on(a: nat, core: Seq<char>, b: nat, c: char)
    requires
        core.len() > 0 ==> core[0] != c && core[core.len() - 1] != c,
    ensures
        trim(Seq::new(a, |i: int| c) + core + Seq::new(b, |i: int| c), c) == core,
        trim_start(Seq::new(a, |i: int| c) + core, c) == core,
        trim_end(core + Seq::new(b, |i: int| c), c) == core,
{
    let front = Seq::new(a, |i: int| c);
    let back = Seq::new(b, |i: int| c);
    let s = front + core + back;
    if core.len() > 0 {
        lemma_lead(s, c, a as int);
        assert(trim_start(s, c) =~= core + back);
    } else {
        lemma_lead(s, c, s.len() as int);
        assert(trim_start(s, c) =~= Seq::empty());
        lemma_trail(Seq::empty(), c, 0);
        assert(trim(s, c) =~= core);
    }
    lemma_lead(front + core, c, a as int);
    assert(trim_start(front + core, c) =~= core);
    lemma_trail(core + back, c, b as int);
    assert(trim_end(core + back, c) =~= core);
}

/// A text is cut at the first of a character: what stands before it holds none,
/// and what stands behind it is not looked at.
pub proof fn law_cutting_finds_the_first(a: Seq<char>, b: Seq<char>, c: char)
    requires
        !a.contains(c),
    ensures
        head(a.push(c) + b, c) == a,
        tail(a.push(c) + b, c) == Some(b),
        head(a, c) == a,
        tail(a, c) is None,
{
    let s = a.push(c) + b;
    assert forall|i: int| 0 <= i < a.len() implies a[i] != c by {
        assert(a.contains(a[i]));
    }
    assert(s[a.len() as int] == c);
    lemma_first_at(s, c, a.len() as int);
    lemma_first_at(a, c, a.len() as int);
    assert(head(s, c) =~= a);
    assert(s.skip(a.len() as int + 1) =~= b);
    assert(head(a, c) =~= a);
}

/// The last piece of a text stands behind the last of a character.
pub proof fn law_last_piece_follows_the_last(a: Seq<char>, b: Seq<char>, c: char)
    requires
        !b.contains(c),
    ensures
        after_last(a.push(c) + b, c) == b,
        after_last(b, c) == b,
{
    let s = a.push(c) + b;
    let k = a.len() as int + 1;
    assert forall|i: int| 0 <= i < b.len() implies b[i] != c by {
        assert(b.contains(b[i]));
    }
    assert forall|i: int| k <= i < s.len() implies s[i] != c by {
        assert(s[i] == b[i - k]);
    }
    lemma_after_last(s, c, k);
    assert(s.skip(k) =~= b);
    lemma_after_last(b, c, 0);
    assert(b.skip(0) =~= b);
}

/// What a text starts and ends with is its first and its last character.
pub proof fn law_ends_of_a_text(s: Seq<char>, c: char, d: char)
    ensures
        begins(seq![d] + s, c) == (d == c),
        ends(s.push(d), c) == (d == c),
        !begins(Seq::empty(), c),
        !ends(Seq::empty(), c),
{
}

/// Replacing a character changes that character only, everywhere.
pub proof fn law_replacing_is_by_character(s: Seq<char>, from: char, to: char)
    ensures
        replaced(s, from, to).len() == s.len(),
        forall|i: int|
            0 <= i < s.len() ==> #[trigger] replaced(s, from, to)[i] == if s[i] == from {
                to
            } else {
                s[i]
            },
{
}

/// The first character in which two texts differ decides their order, and a
/// text comes before every text that goes on after it.
pub proof fn law_first_difference_decides(
    same: Seq<char>,
    x: char,
    a: Seq<char>,
    y: char,
    b: Seq<char>,
)
    requires
        x != y,
    ensures
        precedes(same + seq![x] + a, same + seq![y] + b) == (x < y),
        precedes(same, same + seq![x] + a),
        !precedes(same + seq![x] + a, same),
        !precedes(same, same),
    decreases same.len(),
{
    let s = same + seq![x] + a;
    let t = same + seq![y] + b;
    if same.len() > 0 {
        let rest = same.drop_first();
        law_first_difference_decides(rest, x, a, y, b);
        assert(s.drop_first() =~= rest + seq![x] + a);
        assert(t.drop_first() =~= rest + seq![y] + b);
    } else {
        assert(s[0] == x && t[0] == y);
    }
}

/// Decimal notation writes the ten digits, the last digit of a number last.
pub proof fn law_decimal_notation(n: nat, d: nat)
    requires
        d < 10,
    ensures
        decimal(d) == seq!["0123456789"@[d as int]],
        n > 0 ==> decimal(10 * n + d) == decimal(n).push(decimal(d)[0]),
{
    reveal_strlit("0123456789");
    assert(digit(d) == "0123456789"@[d as int]);
    assert((10 * n + d) / 10 == n && (10 * n + d) % 10 == d) by (nonlinear_arith)
        requires
            d < 10,
    ;
}

/// Texts are joined in order, with the separator between each two and nowhere
/// else.
pub proof fn law_joining_in_parts(x: Seq<Seq<char>>, y: Seq<Seq<char>>, sep: Seq<char>)
    ensures
        joined(Seq::empty(), sep) == Seq::<char>::empty(),
        forall|s: Seq<char>| joined(#[trigger] seq![s], sep) == s,
        x.len() > 0 && y.len() > 0 ==> joined(x + y, sep) == joined(x, sep) + sep + joined(y, sep),
    decreases y.len(),
{
    if x.len() > 0 && y.len() > 0 {
        let front = y.drop_last();
        law_joining_in_parts(x, front, sep);
        assert((x + y).drop_last() =~= x + front);
        assert((x + y).last() == y.last());
        if front.len() == 0 {
            assert(x + front =~= x);
        } else {
            assert(joined(x + y, sep) =~= joined(x, sep) + sep + joined(y, sep));
        }
    }
}

/// The texts of a list of strings are those of its strings, in order.
pub proof fn law_views_are_by_string(v: Seq<String>)
    ensures
        views(v).len() == v.len(),
        forall|i: int| 0 <= i < v.len() ==> #[trigger] views(v)[i] == v[i]@,
{
}

/// Two texts are the same where they hold the same characters, and one starts
/// with another where the other goes on to it.
pub proof fn law_texts_are_compared_by_character(
    a: &str,
    b: &str,
    is_same: bool,
    starts: bool,
    rest: Seq<char>,
    n: u128,
    digits: String,
    before: bool,
)
    requires
        call_ensures(same, (a, b), is_same),
        call_ensures(starts_with, (a, b), starts),
        call_ensures(to_decimal, (n,), digits),
        call_ensures(comes_before, (a, b), before),
    ensures
        is_same <==> a@ == b@,
        a@ == b@ + rest ==> starts,
        starts ==> a@.len() >= b@.len() && forall|i: int|
            0 <= i < b@.len() ==> #[trigger] a@[i] == b@[i],
        digits@ == decimal(n as nat),
        before ==> !is_same,
        before <==> precedes(a@, b@),
{
    lemma_precedes_total(a@, b@);
    if a@ == b@ + rest {
        assert(b@ =~= a@.subrange(0, b@.len() as int));
    }
    if starts {
        assert forall|i: int| 0 <= i < b@.len() implies #[trigger] a@[i] == b@[i] by {
            assert(a@.subrange(0, b@.len() as int)[i] == b@[i]);
        }
    }
}

} // verus!
