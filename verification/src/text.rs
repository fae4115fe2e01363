//! Character-level text utilities with their specifications.
//!
//! Text is handled as sequences of `char`.  Each executable helper is proved
//! against a spec function that states its meaning directly.

use vstd::prelude::*;

verus! {

// ───────────────────────────── specifications ─────────────────────────────

/// Unicode `White_Space` characters (the set `char::is_whitespace` accepts).
pub open spec fn is_ws(c: char) -> bool {
    ||| ('\u{9}' <= c && c <= '\u{d}')
    ||| c == ' '
    ||| c == '\u{85}'
    ||| c == '\u{a0}'
    ||| c == '\u{1680}'
    ||| ('\u{2000}' <= c && c <= '\u{200a}')
    ||| c == '\u{2028}'
    ||| c == '\u{2029}'
    ||| c == '\u{202f}'
    ||| c == '\u{205f}'
    ||| c == '\u{3000}'
}

/// `s` without its leading whitespace.
pub open spec fn trim_start(s: Seq<char>) -> Seq<char>
    decreases s.len(),
{
    if s.len() > 0 && is_ws(s[0]) {
        trim_start(s.drop_first())
    } else {
        s
    }
}

/// `s` without its trailing whitespace.
pub open spec fn trim_end(s: Seq<char>) -> Seq<char>
    decreases s.len(),
{
    if s.len() > 0 && is_ws(s.last()) {
        trim_end(s.drop_last())
    } else {
        s
    }
}

/// `s` without leading and trailing whitespace.
pub open spec fn trim(s: Seq<char>) -> Seq<char> {
    trim_end(trim_start(s))
}

/// `p` is a prefix of `s`.
pub open spec fn starts_with(s: Seq<char>, p: Seq<char>) -> bool {
    p.len() <= s.len() && s.subrange(0, p.len() as int) == p
}

/// `p` is a suffix of `s`.
pub open spec fn ends_with(s: Seq<char>, p: Seq<char>) -> bool {
    p.len() <= s.len() && s.subrange(s.len() - p.len(), s.len() as int) == p
}

/// `p` occurs in `s` at position `i`.
pub open spec fn occurs_at(s: Seq<char>, p: Seq<char>, i: int) -> bool {
    0 <= i && i + p.len() <= s.len() && s.subrange(i, i + p.len()) == p
}

/// `p` occurs somewhere in `s` (the empty pattern occurs in every text).
#[verifier::opaque]
pub open spec fn contains(s: Seq<char>, p: Seq<char>) -> bool {
    exists|i: int| occurs_at(s, p, i)
}

/// `c` occurs in `s`.
pub open spec fn has_char(s: Seq<char>, c: char) -> bool {
    exists|i: int| 0 <= i < s.len() && s[i] == c
}

/// Position of the first `c` in `s`, or -1 when there is none.
pub open spec fn char_pos(s: Seq<char>, c: char) -> int
    decreases s.len(),
{
    if s.len() == 0 {
        -1
    } else if s[0] == c {
        0
    } else {
        let r = char_pos(s.drop_first(), c);
        if r < 0 {
            -1
        } else {
            r + 1
        }
    }
}

/// The pieces of `s` between `'\n'` characters (one more piece than newlines).
pub open spec fn split_newlines(s: Seq<char>) -> Seq<Seq<char>>
    decreases s.len(),
{
    if s.len() == 0 {
        seq![Seq::<char>::empty()]
    } else {
        let p = split_newlines(s.drop_last());
        if s.last() == '\n' {
            p.push(Seq::<char>::empty())
        } else {
            p.update(p.len() - 1, p.last().push(s.last()))
        }
    }
}

/// A line terminated by `'\n'` loses one trailing `'\r'`.
pub open spec fn strip_cr(l: Seq<char>) -> Seq<char> {
    if l.len() > 0 && l.last() == '\r' {
        l.drop_last()
    } else {
        l
    }
}

/// The lines of `s`, as `str::lines` yields them: pieces between `'\n'`,
/// terminated pieces without a trailing `'\r'`, and no final empty piece.
pub open spec fn lines(s: Seq<char>) -> Seq<Seq<char>> {
    let parts = split_newlines(s);
    if s.len() == 0 {
        Seq::empty()
    } else if s.last() == '\n' {
        parts.drop_last().map_values(|l: Seq<char>| strip_cr(l))
    } else {
        parts.drop_last().map_values(|l: Seq<char>| strip_cr(l)).push(parts.last())
    }
}

/// The whitespace-separated words of `s`, as `str::split_whitespace` yields them.
pub open spec fn words(s: Seq<char>) -> Seq<Seq<char>>
    decreases s.len(),
{
    if s.len() == 0 {
        Seq::empty()
    } else {
        let w = words(s.drop_last());
        if is_ws(s.last()) {
            w
        } else if s.len() >= 2 && !is_ws(s[s.len() - 2]) {
            w.update(w.len() - 1, w.last().push(s.last()))
        } else {
            w.push(seq![s.last()])
        }
    }
}

/// The decimal digit character for `d < 10`.
pub open spec fn digit_char(d: nat) -> char {
    if d == 0 { '0' }
    else if d == 1 { '1' }
    else if d == 2 { '2' }
    else if d == 3 { '3' }
    else if d == 4 { '4' }
    else if d == 5 { '5' }
    else if d == 6 { '6' }
    else if d == 7 { '7' }
    else if d == 8 { '8' }
    else { '9' }
}

/// Decimal notation of a natural number, without leading zeros.
pub open spec fn decimal(n: nat) -> Seq<char>
    decreases n,
{
    if n < 10 {
        seq![digit_char(n)]
    } else {
        decimal(n / 10).push(digit_char(n % 10))
    }
}

/// Decimal notation of an integer, with a leading `'-'` when negative.
pub open spec fn int_decimal(i: int) -> Seq<char> {
    if i < 0 {
        seq!['-'] + decimal((-i) as nat)
    } else {
        decimal(i as nat)
    }
}

/// The first `n` characters of `s` (all of `s` when it is shorter).
pub open spec fn take_chars(s: Seq<char>, n: nat) -> Seq<char> {
    if s.len() <= n {
        s
    } else {
        s.subrange(0, n as int)
    }
}

/// Lexicographic order on texts by code point, as `str`'s `Ord` orders them.
pub open spec fn text_lt(a: Seq<char>, b: Seq<char>) -> bool
    decreases a.len(),
{
    if b.len() == 0 {
        false
    } else if a.len() == 0 {
        true
    } else if a[0] != b[0] {
        a[0] < b[0]
    } else {
        text_lt(a.drop_first(), b.drop_first())
    }
}

/// The texts held by a sequence of character vectors.
pub open spec fn texts(v: Seq<Vec<char>>) -> Seq<Seq<char>> {
    Seq::new(v.len(), |i: int| v[i]@)
}

/// The texts held by a sequence of strings.
pub open spec fn string_texts(v: Seq<String>) -> Seq<Seq<char>> {
    Seq::new(v.len(), |i: int| v[i]@)
}

/// What `str::to_lowercase` returns for a text: the Unicode lowercase mapping,
/// which takes the Unicode character database to state.
pub uninterp spec fn unicode_lowercase(s: Seq<char>) -> Seq<char>;

/// What `str::to_uppercase` returns for a text: the Unicode uppercase mapping,
/// which takes the Unicode character database to state.
pub uninterp spec fn unicode_uppercase(s: Seq<char>) -> Seq<char>;

// ───────────────────────────── trusted std calls ─────────────────────────────

/// Calls `str::to_lowercase`; its result is named `unicode_lowercase` of the
/// argument (it depends on the text alone).
#[verifier::external_body]
pub(crate) fn to_lowercase(s: &str) -> (r: String)
    ensures
        r@ == unicode_lowercase(s@),
{
    s.to_lowercase()
}

/// Calls `str::to_uppercase`; its result is named `unicode_uppercase` of the
/// argument (it depends on the text alone).
#[verifier::external_body]
pub(crate) fn to_uppercase(s: &str) -> (r: String)
    ensures
        r@ == unicode_uppercase(s@),
{
    s.to_uppercase()
}

/// Calls `String::push`: the character is appended at the end.
#[verifier::external_body]
pub(crate) fn push_char(s: &mut String, c: char)
    ensures
        final(s)@ == old(s)@.push(c),
{
    s.push(c)
}

// ───────────────────────────── conversions ─────────────────────────────

/// The characters of `s`, in order.
pub fn to_chars(s: &str) -> (v: Vec<char>)
    ensures
        v@ == s@,
{
    let mut v: Vec<char> = Vec::new();
    let mut it = s.chars();
    for c in iter: it
        invariant
            v@ == iter.seq().take(iter.index() as int),
            iter.seq() == s@,
    {
        v.push(c);
    }
    v
}

/// Appends the characters of `t` to `s`.
pub fn push_chars(s: &mut String, t: &[char])
    ensures
        final(s)@ == old(s)@ + t@,
{
    let mut i: usize = 0;
    while i < t.len()
        invariant
            i <= t.len(),
            s@ == old(s)@ + t@.subrange(0, i as int),
        decreases t.len() - i,
    {
        push_char(s, t[i]);
        i += 1;
        assert(t@.subrange(0, i as int) == t@.subrange(0, i - 1).push(t@[i - 1]));
    }
    assert(t@.subrange(0, t.len() as int) == t@);
}

/// Appends `t` to `s`.
pub fn push_str(s: &mut String, t: &str)
    ensures
        final(s)@ == old(s)@ + t@,
{
    s.append(t);
}

/// A `String` holding exactly the characters of `t`.
pub fn string_of(t: &[char]) -> (s: String)
    ensures
        s@ == t@,
{
    let mut s = String::new();
    push_chars(&mut s, t);
    s
}

/// A `String` holding the text of the literal or slice `t`.
pub fn owned(t: &str) -> (s: String)
    ensures
        s@ == t@,
{
    let mut s = String::new();
    push_str(&mut s, t);
    s
}

// ───────────────────────────── predicates and searches ─────────────────────────────

/// Whether `c` is Unicode whitespace.
pub fn is_whitespace(c: char) -> (b: bool)
    ensures
        b == is_ws(c),
{
    ('\u{9}' <= c && c <= '\u{d}') || c == ' ' || c == '\u{85}' || c == '\u{a0}'
        || c == '\u{1680}' || ('\u{2000}' <= c && c <= '\u{200a}') || c == '\u{2028}'
        || c == '\u{2029}' || c == '\u{202f}' || c == '\u{205f}' || c == '\u{3000}'
}

/// Whether `p` occurs in `s` at position `i`.
pub fn matches_at(s: &[char], p: &[char], i: usize) -> (b: bool)
    ensures
        b == occurs_at(s@, p@, i as int),
{
    if i > s.len() || p.len() > s.len() - i {
        return false;
    }
    let mut k: usize = 0;
    while k < p.len()
        invariant
            i + p.len() <= s.len(),
            k <= p.len(),
            forall|j: int| 0 <= j < k ==> s@[i + j] == p@[j],
        decreases p.len() - k,
    {
        if s[i + k] != p[k] {
            assert(s@.subrange(i as int, i + p.len())[k as int] != p@[k as int]);
            return false;
        }
        k += 1;
    }
    assert(s@.subrange(i as int, i + p.len()) =~= p@);
    true
}

/// Whether `s` begins with `p`.
pub fn starts_with_chars(s: &[char], p: &[char]) -> (b: bool)
    ensures
        b == starts_with(s@, p@),
{
    matches_at(s, p, 0)
}

/// Whether `s` begins with the text `p`.
pub fn starts_with_str(s: &[char], p: &str) -> (b: bool)
    ensures
        b == starts_with(s@, p@),
{
    let pv = to_chars(p);
    starts_with_chars(s, pv.as_slice())
}

/// Whether `s` ends with `p`.
pub fn ends_with_chars(s: &[char], p: &[char]) -> (b: bool)
    ensures
        b == ends_with(s@, p@),
{
    if p.len() > s.len() {
        return false;
    }
    matches_at(s, p, s.len() - p.len())
}

/// Whether `s` ends with the text `p`.
pub fn ends_with_str(s: &[char], p: &str) -> (b: bool)
    ensures
        b == ends_with(s@, p@),
{
    let pv = to_chars(p);
    ends_with_chars(s, pv.as_slice())
}

/// Whether `p` occurs in `s`.
pub fn contains_chars(s: &[char], p: &[char]) -> (b: bool)
    ensures
        b == contains(s@, p@),
{
    reveal(contains);
    if p.len() > s.len() {
        assert forall|i: int| !occurs_at(s@, p@, i) by {}
        return false;
    }
    let last: usize = s.len() - p.len();
    let mut i: usize = 0;
    loop
        invariant
            p.len() <= s.len(),
            last == s.len() - p.len(),
            i <= last,
            forall|j: int| 0 <= j < i ==> !occurs_at(s@, p@, j),
        ensures
            forall|j: int| 0 <= j <= last ==> !occurs_at(s@, p@, j),
        decreases last - i,
    {
        if matches_at(s, p, i) {
            assert(occurs_at(s@, p@, i as int));
            reveal(contains);
            return true;
        }
        if i == last {
            break;
        }
        i += 1;
    }
    assert forall|j: int| !occurs_at(s@, p@, j) by {
        if 0 <= j && j + p.len() <= s.len() {
            assert(j <= last);
        }
    }
    false
}

/// Whether the text `p` occurs in `s`.
pub fn contains_str(s: &[char], p: &str) -> (b: bool)
    ensures
        b == contains(s@, p@),
{
    let pv = to_chars(p);
    contains_chars(s, pv.as_slice())
}

/// Whether the character `c` occurs in `s`.
pub fn contains_char(s: &[char], c: char) -> (b: bool)
    ensures
        b == has_char(s@, c),
{
    let mut i: usize = 0;
    while i < s.len()
        invariant
            i <= s.len(),
            forall|j: int| 0 <= j < i ==> s@[j] != c,
        decreases s.len() - i,
    {
        if s[i] == c {
            return true;
        }
        i += 1;
    }
    false
}

/// `char_pos` is the first position holding `c`.
pub proof fn lemma_char_pos(s: Seq<char>, c: char, i: int)
    requires
        0 <= i <= s.len(),
        forall|j: int| 0 <= j < i ==> s[j] != c,
        i == s.len() || s[i] == c,
    ensures
        char_pos(s, c) == if i == s.len() { -1 } else { i },
    decreases s.len(),
{
    if s.len() > 0 && s[0] != c {
        lemma_char_pos(s.drop_first(), c, i - 1);
    }
}

/// Position of the first `c` in `s`.
pub fn find_char(s: &[char], c: char) -> (r: Option<usize>)
    ensures
        match r {
            Some(i) => i < s.len() && char_pos(s@, c) == i,
            None => char_pos(s@, c) == -1,
        },
{
    let mut i: usize = 0;
    while i < s.len()
        invariant
            i <= s.len(),
            forall|j: int| 0 <= j < i ==> s@[j] != c,
        decreases s.len() - i,
    {
        if s[i] == c {
            proof { lemma_char_pos(s@, c, i as int); }
            return Some(i);
        }
        i += 1;
    }
    proof { lemma_char_pos(s@, c, i as int); }
    None
}

// ───────────────────────────── trimming ─────────────────────────────

/// Bounds `(a, b)` with `s[a..b]` the trimmed text.
pub fn trim_bounds(s: &[char]) -> (r: (usize, usize))
    ensures
        r.0 <= r.1 <= s.len(),
        s@.subrange(r.0 as int, r.1 as int) == trim(s@),
{
    let mut a: usize = 0;
    assert(s@.subrange(0, s.len() as int) =~= s@);
    while a < s.len() && is_whitespace(s[a])
        invariant
            a <= s.len(),
            trim_start(s@) == trim_start(s@.subrange(a as int, s.len() as int)),
        decreases s.len() - a,
    {
        assert(s@.subrange(a as int, s.len() as int).drop_first() =~= s@.subrange(a + 1, s.len() as int));
        a += 1;
    }
    let ghost ts = s@.subrange(a as int, s.len() as int);
    assert(trim_start(ts) == ts);
    let mut b: usize = s.len();
    while b > a && is_whitespace(s[b - 1])
        invariant
            a <= b <= s.len(),
            ts == s@.subrange(a as int, s.len() as int),
            trim_end(ts) == trim_end(s@.subrange(a as int, b as int)),
        decreases b,
    {
        assert(s@.subrange(a as int, b as int).drop_last() =~= s@.subrange(a as int, b - 1));
        b -= 1;
    }
    (a, b)
}

/// The trimmed characters of `s`.
pub fn trimmed(s: &[char]) -> (t: Vec<char>)
    ensures
        t@ == trim(s@),
{
    let (a, b) = trim_bounds(s);
    copy_range(s, a, b)
}

/// The characters `s[a..b]`, copied.
pub fn copy_range(s: &[char], a: usize, b: usize) -> (t: Vec<char>)
    requires
        a <= b <= s.len(),
    ensures
        t@ == s@.subrange(a as int, b as int),
{
    let mut t: Vec<char> = Vec::new();
    let mut i = a;
    while i < b
        invariant
            a <= i <= b,
            b <= s.len(),
            t@ == s@.subrange(a as int, i as int),
        decreases b - i,
    {
        t.push(s[i]);
        i += 1;
        assert(s@.subrange(a as int, i as int) == s@.subrange(a as int, i - 1).push(s@[i - 1]));
    }
    t
}

// ───────────────────────────── splitting ─────────────────────────────

/// Unfolding of `split_newlines` for one more character.
pub proof fn lemma_split_push(s: Seq<char>, c: char)
    ensures
        split_newlines(s.push(c)) == if c == '\n' {
            split_newlines(s).push(Seq::<char>::empty())
        } else {
            split_newlines(s).update(
                split_newlines(s).len() - 1,
                split_newlines(s).last().push(c),
            )
        },
{
    assert(s.push(c).drop_last() =~= s);
}

/// The lines of `s`, as `str::lines` yields them.
pub fn split_lines(s: &[char]) -> (r: Vec<Vec<char>>)
    ensures
        texts(r@) == lines(s@),
{
    let mut done: Vec<Vec<char>> = Vec::new();
    let mut cur: Vec<char> = Vec::new();
    let mut i: usize = 0;
    let ghost mut raw: Seq<Seq<char>> = Seq::empty();
    while i < s.len()
        invariant
            i <= s.len(),
            split_newlines(s@.subrange(0, i as int)) == raw.push(cur@),
            texts(done@) == raw.map_values(|l: Seq<char>| strip_cr(l)),
        decreases s.len() - i,
    {
        let c = s[i];
        proof {
            lemma_split_push(s@.subrange(0, i as int), c);
            assert(s@.subrange(0, i + 1) =~= s@.subrange(0, i as int).push(c));
        }
        if c == '\n' {
            let ghost old_cur = cur@;
            let mut line = cur;
            if line.len() > 0 && line[line.len() - 1] == '\r' {
                line.pop();
            }
            assert(line@ == strip_cr(old_cur));
            let ghost old_done = done@;
            done.push(line);
            proof {
                assert(texts(done@) =~= texts(old_done).push(strip_cr(old_cur)));
                assert(raw.push(old_cur).map_values(|l: Seq<char>| strip_cr(l)) =~= raw.map_values(|l: Seq<char>| strip_cr(l)).push(strip_cr(old_cur)));
                raw = raw.push(old_cur);
                assert(texts(done@) =~= raw.map_values(|l: Seq<char>| strip_cr(l)));
            }
            cur = Vec::new();
            assert(split_newlines(s@.subrange(0, i + 1)) =~= raw.push(cur@));
        } else {
            cur.push(c);
            assert(split_newlines(s@.subrange(0, i + 1)) =~= raw.push(cur@));
        }
        i += 1;
    }
    assert(s@.subrange(0, s.len() as int) =~= s@);
    proof {
        let parts = split_newlines(s@);
        assert(parts.drop_last() =~= raw);
        assert(parts.last() == cur@);
    }
    if s.len() > 0 && s[s.len() - 1] != '\n' {
        done.push(cur);
        assert(texts(done@) =~= lines(s@));
    } else {
        proof {
            if s.len() > 0 {
                // The final piece after a newline is empty.
                lemma_split_push(s@.drop_last(), '\n');
                assert(s@.drop_last().push('\n') =~= s@);
            }
        }
        assert(texts(done@) =~= lines(s@));
    }
    done
}

/// Unfolding of `words` for one more character.
pub proof fn lemma_words_push(s: Seq<char>, c: char)
    ensures
        words(s.push(c)) == if is_ws(c) {
            words(s)
        } else if s.len() >= 1 && !is_ws(s.last()) {
            words(s).update(words(s).len() - 1, words(s).last().push(c))
        } else {
            words(s).push(seq![c])
        },
{
    assert(s.push(c).drop_last() =~= s);
}

/// The whitespace-separated words of `s`.
pub fn split_words(s: &[char]) -> (r: Vec<Vec<char>>)
    ensures
        texts(r@) == words(s@),
{
    let mut out: Vec<Vec<char>> = Vec::new();
    let mut cur: Vec<char> = Vec::new();
    let mut i: usize = 0;
    while i < s.len()
        invariant
            i <= s.len(),
            cur@.len() > 0 ==> (i > 0 && !is_ws(s@[i - 1])),
            (i > 0 && !is_ws(s@[i - 1])) ==> cur@.len() > 0,
            cur@.len() == 0 ==> texts(out@) == words(s@.subrange(0, i as int)),
            cur@.len() > 0 ==> texts(out@).push(cur@) == words(s@.subrange(0, i as int)),
        decreases s.len() - i,
    {
        let c = s[i];
        proof {
            lemma_words_push(s@.subrange(0, i as int), c);
            assert(s@.subrange(0, i + 1) =~= s@.subrange(0, i as int).push(c));
        }
        if is_whitespace(c) {
            if cur.len() > 0 {
                let w = cur;
                proof {
                    assert(texts(out@).push(w@) == words(s@.subrange(0, i as int)));
                }
                out.push(w);
                assert(texts(out@) =~= words(s@.subrange(0, i as int)));
                cur = Vec::new();
            }
        } else {
            let ghost old_cur = cur@;
            cur.push(c);
            proof {
                if old_cur.len() > 0 {
                    assert(texts(out@).push(cur@) =~= words(s@.subrange(0, i as int)).update(
                        words(s@.subrange(0, i as int)).len() - 1,
                        words(s@.subrange(0, i as int)).last().push(c),
                    ));
                } else {
                    assert(cur@ =~= seq![c]);
                    if i > 0 {
                        assert(s@.subrange(0, i as int).last() == s@[i - 1]);
                    }
                    assert(texts(out@).push(cur@) =~= words(s@.subrange(0, i as int)).push(seq![c]));
                }
            }
        }
        i += 1;
    }
    assert(s@.subrange(0, s.len() as int) =~= s@);
    if cur.len() > 0 {
        out.push(cur);
    }
    out
}

// ───────────────────────────── numbers ─────────────────────────────

/// The digit character for `d < 10`.
pub fn digit(d: u64) -> (c: char)
    requires
        d < 10,
    ensures
        c == digit_char(d as nat),
{
    if d == 0 { '0' }
    else if d == 1 { '1' }
    else if d == 2 { '2' }
    else if d == 3 { '3' }
    else if d == 4 { '4' }
    else if d == 5 { '5' }
    else if d == 6 { '6' }
    else if d == 7 { '7' }
    else if d == 8 { '8' }
    else { '9' }
}

/// Decimal notation of `n`.
pub fn decimal_u64(n: u64) -> (v: Vec<char>)
    ensures
        v@ == decimal(n as nat),
    decreases n,
{
    if n < 10 {
        let mut v = Vec::new();
        v.push(digit(n));
        v
    } else {
        let mut v = decimal_u64(n / 10);
        v.push(digit(n % 10));
        v
    }
}

/// Decimal notation of `n`, with a `'-'` when negative.
pub fn decimal_i64(n: i64) -> (v: Vec<char>)
    ensures
        v@ == int_decimal(n as int),
{
    if n < 0 {
        let m: u64 = if n == i64::MIN {
            9223372036854775808u64
        } else {
            (-n) as u64
        };
        let d = decimal_u64(m);
        let mut v = Vec::new();
        v.push('-');
        let mut i: usize = 0;
        while i < d.len()
            invariant
                i <= d.len(),
                v@ == seq!['-'] + d@.subrange(0, i as int),
            decreases d.len() - i,
        {
            v.push(d[i]);
            i += 1;
            assert(d@.subrange(0, i as int) == d@.subrange(0, i - 1).push(d@[i - 1]));
        }
        assert(d@.subrange(0, d.len() as int) =~= d@);
        v
    } else {
        decimal_u64(n as u64)
    }
}

/// Appends the decimal notation of `n` to `s`.
pub fn push_decimal(s: &mut String, n: i64)
    ensures
        final(s)@ == old(s)@ + int_decimal(n as int),
{
    let d = decimal_i64(n);
    push_chars(s, d.as_slice());
}

/// The first `n` characters of `s`.
pub fn take_prefix(s: &[char], n: usize) -> (t: Vec<char>)
    ensures
        t@ == take_chars(s@, n as nat),
{
    if s.len() <= n {
        let t = copy_range(s, 0, s.len());
        assert(s@.subrange(0, s.len() as int) =~= s@);
        t
    } else {
        copy_range(s, 0, n)
    }
}

/// Whether `a` orders before `b` (by code point, lexicographically).
pub fn text_less(a: &[char], b: &[char]) -> (r: bool)
    ensures
        r == text_lt(a@, b@),
{
    let mut i: usize = 0;
    assert(a@.subrange(0, a.len() as int) =~= a@);
    assert(b@.subrange(0, b.len() as int) =~= b@);
    while i < a.len() && i < b.len() && a[i] == b[i]
        invariant
            i <= a.len(),
            i <= b.len(),
            text_lt(a@, b@) == text_lt(a@.subrange(i as int, a.len() as int), b@.subrange(i as int, b.len() as int)),
        decreases a.len() - i,
    {
        assert(a@.subrange(i as int, a.len() as int).drop_first() =~= a@.subrange(i + 1, a.len() as int));
        assert(b@.subrange(i as int, b.len() as int).drop_first() =~= b@.subrange(i + 1, b.len() as int));
        i += 1;
    }
    if i == b.len() {
        false
    } else if i == a.len() {
        true
    } else {
        a[i] < b[i]
    }
}

/// Whether two string slices hold the same text.
pub fn str_eq(a: &str, b: &str) -> (r: bool)
    ensures
        r == (a@ == b@),
{
    let av = to_chars(a);
    let bv = to_chars(b);
    chars_eq(av.as_slice(), bv.as_slice())
}

/// Appends the decimal notation of `n` to `s`.
pub fn push_decimal_u64(s: &mut String, n: u64)
    ensures
        final(s)@ == old(s)@ + decimal(n as nat),
{
    let d = decimal_u64(n);
    push_chars(s, d.as_slice());
}

/// `parts` joined with `sep` between consecutive parts.
pub open spec fn join(parts: Seq<Seq<char>>, sep: Seq<char>) -> Seq<char>
    decreases parts.len(),
{
    if parts.len() == 0 {
        Seq::empty()
    } else if parts.len() == 1 {
        parts[0]
    } else {
        join(parts.drop_last(), sep) + sep + parts.last()
    }
}

/// The strings of `parts` joined with `sep`.
pub fn join_strings(parts: &Vec<String>, sep: &str) -> (r: String)
    ensures
        r@ == join(string_texts(parts@), sep@),
{
    let mut r = String::new();
    let mut i: usize = 0;
    while i < parts.len()
        invariant
            i <= parts@.len(),
            r@ == join(string_texts(parts@.subrange(0, i as int)), sep@),
        decreases parts@.len() - i,
    {
        let ghost before = string_texts(parts@.subrange(0, i as int));
        if i > 0 {
            push_str(&mut r, sep);
        }
        push_str(&mut r, parts[i].as_str());
        i += 1;
        proof {
            let now = string_texts(parts@.subrange(0, i as int));
            assert(now.drop_last() =~= before);
            if i == 1 {
                assert(r@ =~= now[0]);
            }
        }
    }
    assert(parts@.subrange(0, parts@.len() as int) =~= parts@);
    r
}

/// No text orders before itself.
pub proof fn lemma_text_lt_irreflexive(a: Seq<char>)
    ensures
        !text_lt(a, a),
    decreases a.len(),
{
    if a.len() > 0 {
        lemma_text_lt_irreflexive(a.drop_first());
    }
}

/// The text order is transitive.
pub proof fn lemma_text_lt_transitive(a: Seq<char>, b: Seq<char>, c: Seq<char>)
    requires
        text_lt(a, b),
        text_lt(b, c),
    ensures
        text_lt(a, c),
    decreases a.len(),
{
    if a.len() > 0 && b.len() > 0 && c.len() > 0 && a[0] == b[0] && b[0] == c[0] {
        lemma_text_lt_transitive(a.drop_first(), b.drop_first(), c.drop_first());
    }
}

/// Of two different texts, one orders before the other.
pub proof fn lemma_text_lt_total(a: Seq<char>, b: Seq<char>)
    requires
        a != b,
    ensures
        text_lt(a, b) || text_lt(b, a),
    decreases a.len(),
{
    if a.len() > 0 && b.len() > 0 && a[0] == b[0] {
        if a.drop_first() == b.drop_first() {
            assert(a =~= seq![a[0]] + a.drop_first());
            assert(b =~= seq![b[0]] + b.drop_first());
        }
        lemma_text_lt_total(a.drop_first(), b.drop_first());
    } else if a.len() == 0 && b.len() == 0 {
        assert(a =~= b);
    }
}

/// A strictly increasing list of texts.
pub open spec fn strictly_sorted(v: Seq<Seq<char>>) -> bool {
    forall|i: int, j: int| 0 <= i < j < v.len() ==> text_lt(#[trigger] v[i], #[trigger] v[j])
}

/// Inserts `x` into the strictly sorted list `v` unless it is already there.
pub fn insert_sorted(v: &mut Vec<String>, x: &String)
    requires
        strictly_sorted(string_texts(old(v)@)),
    ensures
        strictly_sorted(string_texts(final(v)@)),
        forall|t: Seq<char>| string_texts(final(v)@).contains(t)
            <==> (string_texts(old(v)@).contains(t) || t == x@),
{
    let ghost ov = string_texts(v@);
    let xv = to_chars(x.as_str());
    let mut i: usize = 0;
    while i < v.len()
        invariant
            i <= v@.len(),
            ov == string_texts(v@),
            xv@ == x@,
            forall|k: int| 0 <= k < i ==> text_lt(#[trigger] ov[k], x@),
        ensures
            i <= v@.len(),
            i < v@.len() ==> !text_lt(ov[i as int], x@),
        decreases v@.len() - i,
    {
        let cv = to_chars(v[i].as_str());
        if !text_less(cv.as_slice(), xv.as_slice()) {
            break;
        }
        i += 1;
    }
    if i < v.len() && v[i] == *x {
        assert(ov[i as int] == x@);
        assert forall|t: Seq<char>| ov.contains(t) || t == x@ implies ov.contains(t) by {
            if t == x@ {
                assert(ov[i as int] == t);
            }
        }
        return;
    }
    proof {
        if i < ov.len() {
            assert(!text_lt(ov[i as int], x@));
            lemma_text_lt_total(ov[i as int], x@);
        }
    }
    v.insert(i, x.clone());
    let ghost nv = string_texts(v@);
    assert(nv =~= ov.subrange(0, i as int).push(x@) + ov.subrange(i as int, ov.len() as int));
    assert forall|a: int, b: int| 0 <= a < b < nv.len() implies text_lt(#[trigger] nv[a], #[trigger] nv[b]) by {
        if b < i {
        } else if b == i {
            assert(text_lt(ov[a], x@));
        } else if a < i {
            assert(text_lt(ov[a], x@));
            assert(nv[b] == ov[b - 1]);
            if b - 1 > i {
                assert(text_lt(ov[i as int], ov[b - 1]));
                lemma_text_lt_transitive(x@, ov[i as int], ov[b - 1]);
            }
            lemma_text_lt_transitive(ov[a], x@, ov[b - 1]);
        } else if a == i {
            assert(nv[b] == ov[b - 1]);
            if b - 1 > i {
                assert(text_lt(ov[i as int], ov[b - 1]));
                lemma_text_lt_transitive(x@, ov[i as int], ov[b - 1]);
            }
        } else {
            assert(nv[a] == ov[a - 1]);
            assert(nv[b] == ov[b - 1]);
        }
    }
    assert forall|t: Seq<char>| nv.contains(t) <==> (ov.contains(t) || t == x@) by {
        if nv.contains(t) {
            let k = choose|k: int| 0 <= k < nv.len() && nv[k] == t;
            if k < i {
                assert(ov[k] == t);
            } else if k > i {
                assert(ov[k - 1] == t);
            }
        }
        if ov.contains(t) {
            let k = choose|k: int| 0 <= k < ov.len() && ov[k] == t;
            if k < i {
                assert(nv[k] == t);
            } else {
                assert(nv[k + 1] == t);
            }
        }
        if t == x@ {
            assert(nv[i as int] == t);
        }
    }
}

/// Whether two texts are equal.
pub fn chars_eq(a: &[char], b: &[char]) -> (r: bool)
    ensures
        r == (a@ == b@),
{
    if a.len() != b.len() {
        return false;
    }
    let r = matches_at(a, b, 0);
    assert(a@.subrange(0, b.len() as int) =~= a@);
    r
}


// ───────────────────────────── numbers and pieces ─────────────────────────────

/// The value of a string of ASCII digits.
pub open spec fn digits_value(o: Seq<char>) -> int
    decreases o.len(),
{
    if o.len() == 0 { 0 } else { digits_value(o.drop_last()) * 10 + (o.last() as int - '0' as int) }
}

/// The pieces of `s` between dots.
pub open spec fn split_on_dots(s: Seq<char>) -> Seq<Seq<char>>
    decreases s.len(),
{
    if s.len() == 0 {
        seq![Seq::<char>::empty()]
    } else {
        let p = split_on_dots(s.drop_last());
        if s.last() == '.' {
            p.push(Seq::<char>::empty())
        } else {
            p.update(p.len() - 1, p.last().push(s.last()))
        }
    }
}

/// The pieces of `s` between dots.
pub fn split_dots(s: &[char]) -> (r: Vec<Vec<char>>)
    ensures
        texts(r@) == split_on_dots(s@),
{
    let mut parts: Vec<Vec<char>> = Vec::new();
    let mut cur: Vec<char> = Vec::new();
    let mut i: usize = 0;
    while i < s.len()
        invariant
            i <= s@.len(),
            split_on_dots(s@.subrange(0, i as int)) == texts(parts@).push(cur@),
        decreases s@.len() - i,
    {
        let c = s[i];
        let ghost pre = s@.subrange(0, i as int);
        assert(s@.subrange(0, i + 1) =~= pre.push(c));
        assert(pre.push(c).drop_last() =~= pre);
        if c == '.' {
            let done = cur;
            parts.push(done);
            cur = Vec::new();
            assert(split_on_dots(s@.subrange(0, i + 1)) =~= texts(parts@).push(cur@));
        } else {
            cur.push(c);
            assert(split_on_dots(s@.subrange(0, i + 1)) =~= texts(parts@).push(cur@));
        }
        i += 1;
    }
    assert(s@.subrange(0, s@.len() as int) =~= s@);
    let ghost before = texts(parts@);
    parts.push(cur);
    assert(texts(parts@) =~= before.push(cur@));
    parts
}

} // verus!
