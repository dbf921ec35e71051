//! Text as a sequence of characters: searching, trimming, replacing.
//!
//! Strings are taken apart into a `Vec<char>` once and then walked by index,
//! so that every function here is linear in the text for a fixed needle.
use vstd::prelude::*;

verus! {

/// `String::push` appends one character to the end of the string.
pub assume_specification[ String::push ](s: &mut String, c: char)
    ensures
        final(s)@ == old(s)@.push(c),
;

/// Whether `c` has the Unicode property `White_Space`.
pub open spec fn white_space(c: char) -> bool {
    ||| '\u{9}' <= c <= '\u{d}'
    ||| c == ' '
    ||| c == '\u{85}'
    ||| c == '\u{a0}'
    ||| c == '\u{1680}'
    ||| '\u{2000}' <= c <= '\u{200a}'
    ||| c == '\u{2028}'
    ||| c == '\u{2029}'
    ||| c == '\u{202f}'
    ||| c == '\u{205f}'
    ||| c == '\u{3000}'
}

/// Whether `c` has the Unicode property `White_Space`.
pub fn is_white_space(c: char) -> (r: bool)
    ensures
        r == white_space(c),
{
    ('\u{9}' <= c && c <= '\u{d}') || c == ' ' || c == '\u{85}' || c == '\u{a0}' || c == '\u{1680}'
        || ('\u{2000}' <= c && c <= '\u{200a}') || c == '\u{2028}' || c == '\u{2029}' || c
        == '\u{202f}' || c == '\u{205f}' || c == '\u{3000}'
}

/// Whether `c` is an ASCII letter or digit.
pub open spec fn ascii_alphanumeric(c: char) -> bool {
    'A' <= c <= 'Z' || 'a' <= c <= 'z' || '0' <= c <= '9'
}

/// Whether `c` may stand in a post code: the base64url alphabet.
pub open spec fn code_char(c: char) -> bool {
    ascii_alphanumeric(c) || c == '_' || c == '-'
}

/// Whether `c` may stand in a post code.
pub fn is_code_char(c: char) -> (r: bool)
    ensures
        r == code_char(c),
{
    ('A' <= c && c <= 'Z') || ('a' <= c && c <= 'z') || ('0' <= c && c <= '9') || c == '_' || c
        == '-'
}

/// A set of characters that text can be trimmed or cut by.
#[derive(Clone, Copy)]
pub enum CharSet {
    WhiteSpace,
    Only(char),
    Except(char),
    ExceptEither(char, char),
}

impl CharSet {
    pub open spec fn holds(self, c: char) -> bool {
        match self {
            CharSet::WhiteSpace => white_space(c),
            CharSet::Only(x) => c == x,
            CharSet::Except(x) => c != x,
            CharSet::ExceptEither(x, y) => c != x && c != y,
        }
    }

    /// The set as a predicate on characters.
    pub open spec fn pred(self) -> spec_fn(char) -> bool {
        |c: char| self.holds(c)
    }

    /// Whether `c` belongs to the set.
    pub fn has(&self, c: char) -> (r: bool)
        ensures
            r == self.holds(c),
    {
        match *self {
            CharSet::WhiteSpace => is_white_space(c),
            CharSet::Only(x) => c == x,
            CharSet::Except(x) => c != x,
            CharSet::ExceptEither(x, y) => c != x && c != y,
        }
    }
}

/// The end of the longest run from `i` on of characters that satisfy `p`.
pub open spec fn run_end(s: Seq<char>, i: int, p: spec_fn(char) -> bool) -> int
    decreases s.len() - i,
{
    if 0 <= i < s.len() && p(s[i]) {
        run_end(s, i + 1, p)
    } else {
        i
    }
}

/// The start of the longest run that ends at `hi`, does not reach below `lo`,
/// and whose characters satisfy `p`.
pub open spec fn run_start(s: Seq<char>, lo: int, hi: int, p: spec_fn(char) -> bool) -> int
    decreases hi - lo,
{
    if 0 <= lo < hi <= s.len() && p(s[hi - 1]) {
        run_start(s, lo, hi - 1, p)
    } else {
        hi
    }
}

/// `s` without the characters of `p` at either end.
pub open spec fn trimmed(s: Seq<char>, p: spec_fn(char) -> bool) -> Seq<char> {
    let a = run_end(s, 0, p);
    s.subrange(a, run_start(s, a, s.len() as int, p))
}

/// `s` without the characters of `p` at its start.
pub open spec fn trimmed_start(s: Seq<char>, p: spec_fn(char) -> bool) -> Seq<char> {
    s.subrange(run_end(s, 0, p), s.len() as int)
}

/// `s` up to its first character outside `p`.
pub open spec fn prefix_run(s: Seq<char>, p: spec_fn(char) -> bool) -> Seq<char> {
    s.subrange(0, run_end(s, 0, p))
}

/// Text without white space at either end.
pub open spec fn trim(s: Seq<char>) -> Seq<char> {
    trimmed(s, CharSet::WhiteSpace.pred())
}

/// Whether `t` stands in `s` at index `i`.
pub open spec fn occurs_at(s: Seq<char>, t: Seq<char>, i: int) -> bool {
    0 <= i && i + t.len() <= s.len() && s.subrange(i, i + t.len()) == t
}

/// Whether `t` stands anywhere in `s`.
pub open spec fn contains(s: Seq<char>, t: Seq<char>) -> bool {
    exists|i: int| occurs_at(s, t, i)
}

/// The first index at or after `i` where `t` stands in `s`.
pub open spec fn find_at(s: Seq<char>, t: Seq<char>, i: int) -> Option<int>
    decreases s.len() + 1 - i,
{
    if i < 0 || i + t.len() > s.len() {
        None
    } else if occurs_at(s, t, i) {
        Some(i)
    } else {
        find_at(s, t, i + 1)
    }
}

/// `s` from `i` on, with each occurrence of `from`, taken from the left and
/// without overlap, replaced by `to`.
pub open spec fn replaced_from(s: Seq<char>, from: Seq<char>, to: Seq<char>, i: int) -> Seq<char>
    decreases s.len() - i,
{
    if i < 0 || i >= s.len() {
        Seq::empty()
    } else if from.len() > 0 && occurs_at(s, from, i) {
        to + replaced_from(s, from, to, i + from.len())
    } else {
        seq![s[i]] + replaced_from(s, from, to, i + 1)
    }
}

/// `s` with every occurrence of `from` replaced by `to`.
pub open spec fn replaced(s: Seq<char>, from: Seq<char>, to: Seq<char>) -> Seq<char> {
    replaced_from(s, from, to, 0)
}

/// The first index from `i` on, in steps of the length of `t`, where `t` does
/// not stand in `s`.
pub open spec fn repeats_end(s: Seq<char>, t: Seq<char>, i: int) -> int
    decreases s.len() - i,
{
    if t.len() > 0 && occurs_at(s, t, i) {
        repeats_end(s, t, i + t.len())
    } else {
        i
    }
}

/// `s` without the copies of `t` that it starts with.
pub open spec fn without_leading(s: Seq<char>, t: Seq<char>) -> Seq<char> {
    s.subrange(repeats_end(s, t, 0), s.len() as int)
}

/// An ASCII capital as its small letter; any other character as it is.
pub open spec fn ascii_lower(c: char) -> char {
    if 'A' <= c <= 'Z' {
        ((c as u8) + 32) as char
    } else {
        c
    }
}

/// Text with its ASCII capitals as small letters.
pub open spec fn lowered(s: Seq<char>) -> Seq<char> {
    s.map_values(|c: char| ascii_lower(c))
}

/// The strings of a vector as character sequences.
pub open spec fn texts(v: Seq<String>) -> Seq<Seq<char>> {
    v.map_values(|s: String| s@)
}

/// An optional string as an optional character sequence.
pub open spec fn opt_text(o: Option<String>) -> Option<Seq<char>> {
    match o {
        Some(s) => Some(s@),
        None => None,
    }
}

/// A run lies inside the text, holds only characters of `p`, and is maximal.
pub proof fn lemma_run_end(s: Seq<char>, i: int, p: spec_fn(char) -> bool)
    requires
        0 <= i <= s.len(),
    ensures
        i <= run_end(s, i, p) <= s.len(),
        forall|k: int| i <= k < run_end(s, i, p) ==> p(#[trigger] s[k]),
        run_end(s, i, p) < s.len() ==> !p(s[run_end(s, i, p)]),
    decreases s.len() - i,
{
    if i < s.len() && p(s[i]) {
        lemma_run_end(s, i + 1, p);
    }
}

/// Whatever lies inside the text, holds only characters of `p` and is maximal
/// is the run.
pub proof fn lemma_run_end_unique(s: Seq<char>, i: int, j: int, p: spec_fn(char) -> bool)
    requires
        0 <= i <= j <= s.len(),
        forall|k: int| i <= k < j ==> p(#[trigger] s[k]),
        j < s.len() ==> !p(s[j]),
    ensures
        run_end(s, i, p) == j,
    decreases j - i,
{
    if i < j {
        lemma_run_end_unique(s, i + 1, j, p);
    }
}

/// The index found is the first one at which the needle stands.
pub proof fn lemma_find_at(s: Seq<char>, t: Seq<char>, i: int)
    requires
        0 <= i,
    ensures
        find_at(s, t, i) matches Some(j) ==> {
            &&& i <= j
            &&& occurs_at(s, t, j)
            &&& forall|k: int| i <= k < j ==> !#[trigger] occurs_at(s, t, k)
        },
        find_at(s, t, i) is None ==> forall|k: int| i <= k ==> !#[trigger] occurs_at(s, t, k),
    decreases s.len() + 1 - i,
{
    if i + t.len() <= s.len() && !occurs_at(s, t, i) {
        lemma_find_at(s, t, i + 1);
    }
}

/// The characters of a string.
pub fn chars_of(s: &str) -> (r: Vec<char>)
    ensures
        r@ == s@,
{
    let mut out: Vec<char> = Vec::new();
    for c in it: s.chars()
        invariant
            out@ == it.seq().subrange(0, it.index() as int),
    {
        out.push(c);
    }
    out
}

/// The string of the characters from `from` up to `to`.
pub fn string_of(s: &Vec<char>, from: usize, to: usize) -> (r: String)
    requires
        from <= to <= s@.len(),
    ensures
        r@ == s@.subrange(from as int, to as int),
{
    let mut out = String::new();
    let mut i: usize = from;
    while i < to
        invariant
            from <= i <= to <= s@.len(),
            out@ == s@.subrange(from as int, i as int),
        decreases to - i,
    {
        out.push(s[i]);
        i = i + 1;
        assert(out@ == s@.subrange(from as int, i as int));
    }
    out
}

/// The characters from `from` up to `to` as a vector of their own.
pub fn chars_between(s: &Vec<char>, from: usize, to: usize) -> (r: Vec<char>)
    requires
        from <= to <= s@.len(),
    ensures
        r@ == s@.subrange(from as int, to as int),
{
    let mut out: Vec<char> = Vec::new();
    let mut i: usize = from;
    while i < to
        invariant
            from <= i <= to <= s@.len(),
            out@ == s@.subrange(from as int, i as int),
        decreases to - i,
    {
        out.push(s[i]);
        i = i + 1;
        assert(out@ == s@.subrange(from as int, i as int));
    }
    out
}

/// The string of all characters of a vector.
pub fn whole_string(s: &Vec<char>) -> (r: String)
    ensures
        r@ == s@,
{
    let r = string_of(s, 0, s.len());
    assert(s@.subrange(0, s@.len() as int) == s@);
    r
}

/// Whether two strings hold the same characters.
pub fn same_text(a: &str, b: &str) -> (r: bool)
    ensures
        r == (a@ == b@),
{
    let x = chars_of(a);
    let y = chars_of(b);
    if x.len() != y.len() {
        return false;
    }
    let mut i: usize = 0;
    while i < x.len()
        invariant
            x@ == a@,
            y@ == b@,
            x@.len() == y@.len(),
            0 <= i <= x@.len(),
            forall|k: int| 0 <= k < i ==> x@[k] == y@[k],
        decreases x@.len() - i,
    {
        if x[i] != y[i] {
            return false;
        }
        i = i + 1;
    }
    assert(a@ == b@);
    true
}

/// Whether `t` stands in `s` at index `i`.
pub fn stands_at(s: &Vec<char>, t: &Vec<char>, i: usize) -> (r: bool)
    ensures
        r == occurs_at(s@, t@, i as int),
{
    if i > s.len() || t.len() > s.len() - i {
        return false;
    }
    let n = s.len();
    let mut k: usize = 0;
    while k < t.len()
        invariant
            n == s@.len(),
            i + t@.len() <= n,
            0 <= k <= t@.len(),
            forall|m: int| 0 <= m < k ==> s@[i + m] == t@[m],
        decreases t@.len() - k,
    {
        if s[i + k] != t[k] {
            proof {
                assert(s@.subrange(i as int, i + t@.len())[k as int] == s@[i + k]);
            }
            return false;
        }
        k = k + 1;
    }
    assert(s@.subrange(i as int, i + t@.len()) == t@);
    true
}

/// The first index at or after `start` where `t` stands in `s`.
pub fn find(s: &Vec<char>, t: &Vec<char>, start: usize) -> (r: Option<usize>)
    ensures
        match r {
            Some(i) => find_at(s@, t@, start as int) == Some(i as int),
            None => find_at(s@, t@, start as int) is None,
        },
{
    if start > s.len() || t.len() > s.len() - start {
        return None;
    }
    let last = s.len() - t.len();
    let mut i: usize = start;
    while i <= last
        invariant
            start <= i <= last + 1,
            last == s@.len() - t@.len(),
            find_at(s@, t@, start as int) == find_at(s@, t@, i as int),
        decreases last + 1 - i,
    {
        if stands_at(s, t, i) {
            return Some(i);
        }
        if i == last {
            assert(find_at(s@, t@, i + 1) is None);
            return None;
        }
        i = i + 1;
    }
    None
}

/// Whether `t` stands anywhere in `s`.
pub fn has_text(s: &Vec<char>, t: &str) -> (r: bool)
    ensures
        r == contains(s@, t@),
{
    let t = chars_of(t);
    proof {
        lemma_find_at(s@, t@, 0);
    }
    match find(s, &t, 0) {
        Some(i) => {
            assert(occurs_at(s@, t@, i as int));
            true
        },
        None => {
            assert(forall|k: int| occurs_at(s@, t@, k) ==> 0 <= k);
            false
        },
    }
}

/// The end of the run of characters of `set` that starts at `start`.
pub fn skip_run(s: &Vec<char>, start: usize, set: CharSet) -> (r: usize)
    requires
        start <= s@.len(),
    ensures
        r == run_end(s@, start as int, set.pred()),
        start <= r <= s@.len(),
{
    let mut i: usize = start;
    while i < s.len() && set.has(s[i])
        invariant
            start <= i <= s@.len(),
            run_end(s@, start as int, set.pred()) == run_end(s@, i as int, set.pred()),
        decreases s@.len() - i,
    {
        i = i + 1;
    }
    i
}

/// The start of the run of characters of `set` that ends at `end`, not below
/// `lo`.
pub fn skip_run_back(s: &Vec<char>, lo: usize, end: usize, set: CharSet) -> (r: usize)
    requires
        lo <= end <= s@.len(),
    ensures
        r == run_start(s@, lo as int, end as int, set.pred()),
        lo <= r <= end,
{
    let mut i: usize = end;
    while i > lo && set.has(s[i - 1])
        invariant
            lo <= i <= end <= s@.len(),
            run_start(s@, lo as int, end as int, set.pred()) == run_start(
                s@,
                lo as int,
                i as int,
                set.pred(),
            ),
        decreases i,
    {
        i = i - 1;
    }
    i
}

/// The characters without those of `set` at either end.
pub fn trim_set(s: &Vec<char>, set: CharSet) -> (r: Vec<char>)
    ensures
        r@ == trimmed(s@, set.pred()),
{
    let a = skip_run(s, 0, set);
    let b = skip_run_back(s, a, s.len(), set);
    chars_between(s, a, b)
}

/// The characters without those of `set` at the start.
pub fn trim_start_set(s: &Vec<char>, set: CharSet) -> (r: Vec<char>)
    ensures
        r@ == trimmed_start(s@, set.pred()),
{
    let a = skip_run(s, 0, set);
    chars_between(s, a, s.len())
}

/// The characters up to the first one outside `set`.
pub fn take_set(s: &Vec<char>, set: CharSet) -> (r: Vec<char>)
    ensures
        r@ == prefix_run(s@, set.pred()),
{
    let b = skip_run(s, 0, set);
    chars_between(s, 0, b)
}

/// The characters of a string without white space at either end.
pub fn trimmed_chars(s: &str) -> (r: Vec<char>)
    ensures
        r@ == trim(s@),
{
    trim_set(&chars_of(s), CharSet::WhiteSpace)
}

/// The characters with every occurrence of `from` replaced by `to`.
pub fn replace_text(s: &Vec<char>, from: &str, to: &str) -> (r: Vec<char>)
    requires
        from@.len() > 0,
    ensures
        r@ == replaced(s@, from@, to@),
{
    let from = chars_of(from);
    let to = chars_of(to);
    let mut out: Vec<char> = Vec::new();
    let mut i: usize = 0;
    while i < s.len()
        invariant
            from@.len() > 0,
            0 <= i <= s@.len(),
            replaced(s@, from@, to@) == out@ + replaced_from(s@, from@, to@, i as int),
        decreases s@.len() - i,
    {
        let ghost before = out@;
        if stands_at(s, &from, i) {
            let mut k: usize = 0;
            while k < to.len()
                invariant
                    0 <= k <= to@.len(),
                    out@ == before + to@.subrange(0, k as int),
                decreases to@.len() - k,
            {
                out.push(to[k]);
                k = k + 1;
            }
            assert(to@.subrange(0, to@.len() as int) == to@);
            proof {
                assert(before + (to@ + replaced_from(s@, from@, to@, i + from@.len())) == (before
                    + to@) + replaced_from(s@, from@, to@, i + from@.len()));
            }
            i = i + from.len();
        } else {
            out.push(s[i]);
            proof {
                assert(before + (seq![s@[i as int]] + replaced_from(s@, from@, to@, i + 1))
                    == before.push(s@[i as int]) + replaced_from(s@, from@, to@, i + 1));
            }
            i = i + 1;
        }
    }
    assert(out@ + Seq::<char>::empty() == out@);
    out
}

/// The characters without the copies of `t` that they start with.
pub fn strip_leading(s: &Vec<char>, t: &str) -> (r: Vec<char>)
    requires
        t@.len() > 0,
    ensures
        r@ == without_leading(s@, t@),
{
    let t = chars_of(t);
    let n = s.len();
    let mut i: usize = 0;
    while stands_at(s, &t, i)
        invariant
            n == s@.len(),
            t@.len() > 0,
            0 <= i <= s@.len(),
            repeats_end(s@, t@, 0) == repeats_end(s@, t@, i as int),
        decreases s@.len() - i,
    {
        i = i + t.len();
    }
    chars_between(s, i, s.len())
}

/// The characters with ASCII capitals as small letters.
pub fn to_lower(s: &Vec<char>) -> (r: Vec<char>)
    ensures
        r@ == lowered(s@),
{
    let mut out: Vec<char> = Vec::new();
    let mut i: usize = 0;
    while i < s.len()
        invariant
            0 <= i <= s@.len(),
            out@ == lowered(s@.subrange(0, i as int)),
        decreases s@.len() - i,
    {
        let c = s[i];
        if 'A' <= c && c <= 'Z' {
            out.push(((c as u8) + 32) as char);
        } else {
            out.push(c);
        }
        i = i + 1;
        assert(out@ == lowered(s@.subrange(0, i as int)));
    }
    assert(s@.subrange(0, s@.len() as int) == s@);
    out
}

/// Appends all characters of `t` to `s`.
pub fn push_text(s: &mut String, t: &str)
    ensures
        final(s)@ == old(s)@ + t@,
{
    s.append(t);
}

/// A string's own copy of `s`.
pub fn owned(s: &str) -> (r: String)
    ensures
        r@ == s@,
{
    s.to_string()
}

/// The two texts one after the other.
pub fn joined(a: &str, b: &str) -> (r: String)
    ensures
        r@ == a@ + b@,
{
    let mut out = owned(a);
    push_text(&mut out, b);
    out
}

/// The three texts one after the other.
pub fn joined3(a: &str, b: &str, c: &str) -> (r: String)
    ensures
        r@ == a@ + b@ + c@,
{
    let mut out = joined(a, b);
    push_text(&mut out, c);
    out
}

/// The five texts one after the other.
pub fn joined5(a: &str, b: &str, c: &str, d: &str, e: &str) -> (r: String)
    ensures
        r@ == a@ + b@ + c@ + d@ + e@,
{
    let mut out = joined3(a, b, c);
    push_text(&mut out, d);
    push_text(&mut out, e);
    out
}

/// What is replaced from an index on depends on what stands there only.
pub proof fn lemma_replaced_skip(
    head: Seq<char>,
    tail: Seq<char>,
    from: Seq<char>,
    to: Seq<char>,
    i: int,
)
    requires
        0 <= i <= tail.len(),
    ensures
        replaced_from(head + tail, from, to, head.len() + i) == replaced_from(
            tail,
            from,
            to,
            i,
        ),
    decreases tail.len() - i,
{
    let s = head + tail;
    let k = head.len() + i;
    if i < tail.len() {
        assert(occurs_at(s, from, k) == occurs_at(tail, from, i)) by {
            if k + from.len() <= s.len() {
                assert(s.subrange(k, k + from.len()) == tail.subrange(i, i + from.len()));
            }
        }
        assert(s[k] == tail[i]);
        if from.len() > 0 && occurs_at(tail, from, i) {
            lemma_replaced_skip(head, tail, from, to, i + from.len());
        } else {
            lemma_replaced_skip(head, tail, from, to, i + 1);
        }
    }
}

/// A stretch in which the needle does not start is copied.
pub proof fn lemma_replaced_copy(
    head: Seq<char>,
    tail: Seq<char>,
    from: Seq<char>,
    to: Seq<char>,
    i: int,
)
    requires
        0 <= i <= head.len(),
        forall|k: int| i <= k < head.len() ==> !#[trigger] occurs_at(head + tail, from, k),
    ensures
        replaced_from(head + tail, from, to, i) == head.subrange(i, head.len() as int)
            + replaced(tail, from, to),
    decreases head.len() - i,
{
    if i < head.len() {
        assert(!occurs_at(head + tail, from, i));
        lemma_replaced_copy(head, tail, from, to, i + 1);
        assert((head + tail)[i] == head[i]);
        assert(seq![head[i]] + head.subrange(i + 1, head.len() as int) == head.subrange(
            i,
            head.len() as int,
        ));
        assert(seq![head[i]] + (head.subrange(i + 1, head.len() as int) + replaced(
            tail,
            from,
            to,
        )) == head.subrange(i, head.len() as int) + replaced(tail, from, to));
    } else {
        lemma_replaced_skip(head, tail, from, to, 0);
        assert(head.subrange(i, i) + replaced(tail, from, to) == replaced(
            tail,
            from,
            to,
        ));
    }
}


/// Trimming takes away the white space at either end and nothing else.
pub proof fn law_trim_takes_away_white_space(lead: Seq<char>, s: Seq<char>, tail: Seq<char>)
    requires
        forall|k: int| 0 <= k < lead.len() ==> white_space(#[trigger] lead[k]),
        forall|k: int| 0 <= k < tail.len() ==> white_space(#[trigger] tail[k]),
        s.len() > 0 ==> !white_space(s[0]) && !white_space(s[s.len() - 1]),
    ensures
        trim(lead + s + tail) == s,
{
    let p = CharSet::WhiteSpace.pred();
    let all = lead + s + tail;
    let a = lead.len() as int;
    let b = a + s.len();
    let n = all.len() as int;
    assert forall|k: int| 0 <= k < a implies p(#[trigger] all[k]) by {
        assert(all[k] == lead[k]);
    }
    assert forall|k: int| b <= k < n implies p(#[trigger] all[k]) by {
        assert(all[k] == tail[k - b]);
    }
    if s.len() > 0 {
        assert(all[a] == s[0]);
        lemma_run_end_unique(all, 0, a, p);
        assert(all[b - 1] == s[s.len() - 1]);
        lemma_run_start_unique(all, a, b, n, p);
        assert(all.subrange(a, b) == s);
    } else {
        lemma_run_end_unique(all, 0, n, p);
        assert(all.subrange(n, n) == s);
    }
}

/// Whatever holds only characters of `p` back from an index and is maximal is the
/// run that ends there.
proof fn lemma_run_start_unique(
    s: Seq<char>,
    lo: int,
    from: int,
    hi: int,
    p: spec_fn(char) -> bool,
)
    requires
        0 <= lo <= from <= hi <= s.len(),
        forall|k: int| from <= k < hi ==> p(#[trigger] s[k]),
        lo < from ==> !p(s[from - 1]),
    ensures
        run_start(s, lo, hi, p) == from,
    decreases hi - from,
{
    if from < hi {
        assert(p(s[hi - 1]));
        lemma_run_start_unique(s, lo, from, hi - 1, p);
    }
}

/// A text contains another exactly when it is that other one with something, or
/// nothing, before and behind it.
pub proof fn law_contains_is_a_part(s: Seq<char>, t: Seq<char>)
    ensures
        contains(s, t) <==> exists|a: Seq<char>, b: Seq<char>| s == #[trigger] (a + t + b),
{
    if contains(s, t) {
        let i = choose|i: int| occurs_at(s, t, i);
        let a = s.subrange(0, i);
        let b = s.subrange(i + t.len(), s.len() as int);
        assert(s == a + s.subrange(i, i + t.len()) + b);
        assert(s == a + t + b);
    }
    if exists|a: Seq<char>, b: Seq<char>| s == #[trigger] (a + t + b) {
        let (a, b) = choose|a: Seq<char>, b: Seq<char>| s == #[trigger] (a + t + b);
        assert(s.subrange(a.len() as int, a.len() as int + t.len()) == t);
        assert(occurs_at(s, t, a.len() as int));
    }
}

/// Replacing goes from the left: the first occurrence is replaced, and what is
/// behind it is searched on its own.
pub proof fn law_replace_from_the_left(
    before: Seq<char>,
    from: Seq<char>,
    to: Seq<char>,
    behind: Seq<char>,
)
    requires
        from.len() > 0,
        forall|k: int|
            0 <= k < before.len() ==> !#[trigger] occurs_at(before + from + behind, from, k),
    ensures
        replaced(before + from + behind, from, to) == before + to + replaced(behind, from, to),
{
    let tail = from + behind;
    assert(before + from + behind == before + tail);
    assert forall|k: int| 0 <= k < before.len() implies !#[trigger] occurs_at(
        before + tail,
        from,
        k,
    ) by {
        assert(!occurs_at(before + from + behind, from, k));
    }
    lemma_replaced_copy(before, tail, from, to, 0);
    assert(before.subrange(0, before.len() as int) == before);
    assert(tail.subrange(0, from.len() as int) == from);
    assert(occurs_at(tail, from, 0));
    lemma_replaced_skip(from, behind, from, to, 0);
    assert(before + (to + replaced(behind, from, to)) == before + to + replaced(behind, from, to));
}

/// Text in which the needle does not stand stays as it is.
pub proof fn law_replace_leaves_the_rest(s: Seq<char>, from: Seq<char>, to: Seq<char>)
    requires
        from.len() > 0,
        !contains(s, from),
    ensures
        replaced(s, from, to) == s,
{
    let none = Seq::<char>::empty();
    assert(s + none == s);
    assert forall|k: int| 0 <= k < s.len() implies !#[trigger] occurs_at(s + none, from, k) by {}
    lemma_replaced_copy(s, none, from, to, 0);
    assert(s.subrange(0, s.len() as int) + replaced(none, from, to) == s);
}

/// Copies in front are taken away one by one, as many as there are, and nothing
/// else is.
pub proof fn law_leading_copies_are_dropped(s: Seq<char>, t: Seq<char>)
    requires
        t.len() > 0,
    ensures
        without_leading(t + s, t) == without_leading(s, t),
        !t.is_prefix_of(s) ==> without_leading(s, t) == s,
{
    assert((t + s).subrange(0, t.len() as int) == t);
    assert(occurs_at(t + s, t, 0));
    lemma_repeats_shift(t, s, t, 0);
    lemma_repeats_inside(s, t, 0);
    let e = repeats_end(s, t, 0);
    assert((t + s).subrange(t.len() + e, (t + s).len() as int) == s.subrange(e, s.len() as int));
    if !t.is_prefix_of(s) {
        assert(!occurs_at(s, t, 0));
        assert(s.subrange(0, s.len() as int) == s);
    }
}

/// Where copies end depends on what stands there only.
proof fn lemma_repeats_shift(head: Seq<char>, s: Seq<char>, t: Seq<char>, i: int)
    requires
        0 <= i,
        t.len() > 0,
    ensures
        repeats_end(head + s, t, head.len() + i) == head.len() + repeats_end(s, t, i),
    decreases s.len() - i,
{
    let all = head + s;
    let k = head.len() + i;
    assert(occurs_at(all, t, k) == occurs_at(s, t, i)) by {
        if i + t.len() <= s.len() {
            assert(all.subrange(k, k + t.len()) == s.subrange(i, i + t.len()));
        }
    }
    if occurs_at(s, t, i) {
        lemma_repeats_shift(head, s, t, i + t.len());
    }
}

/// Copies in front end inside the text.
proof fn lemma_repeats_inside(s: Seq<char>, t: Seq<char>, i: int)
    requires
        0 <= i <= s.len(),
        t.len() > 0,
    ensures
        i <= repeats_end(s, t, i) <= s.len(),
    decreases s.len() - i,
{
    if occurs_at(s, t, i) {
        lemma_repeats_inside(s, t, i + t.len());
    }
}

/// Lowering turns each ASCII capital into its small letter and leaves every other
/// character.
pub proof fn law_lowering_touches_capitals_only(s: Seq<char>)
    ensures
        lowered(s).len() == s.len(),
        forall|k: int|
            0 <= k < s.len() ==> (#[trigger] lowered(s)[k]) as int == s[k] as int + if 65
                <= s[k] as int <= 90 {
                32int
            } else {
                0int
            },
{
}

} // verus!
