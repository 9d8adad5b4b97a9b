//! Character-level helpers shared by the parsers: whitespace, words, joining,
//! prefixes and substrings, all stated over sequences of characters.

use vstd::prelude::*;
use vstd::std_specs::iter::IteratorSpec;

verus! {

/// Unicode `White_Space`: the characters that trimming and word splitting skip.
pub open spec fn is_space(c: char) -> bool {
    let u = c as u32;
    (0x09 <= u <= 0x0D) || u == 0x20 || u == 0x85 || u == 0xA0 || u == 0x1680 || (0x2000 <= u
        <= 0x200A) || u == 0x2028 || u == 0x2029 || u == 0x202F || u == 0x205F || u == 0x3000
}

/// Whether `c` is a whitespace character.
pub fn is_whitespace(c: char) -> (r: bool)
    ensures
        r == is_space(c),
{
    let u: u32 = c as u32;
    (0x09 <= u && u <= 0x0D) || u == 0x20 || u == 0x85 || u == 0xA0 || u == 0x1680 || (0x2000 <= u
        && u <= 0x200A) || u == 0x2028 || u == 0x2029 || u == 0x202F || u == 0x205F || u == 0x3000
}

/// The characters of `s`, in order.
pub fn to_chars(s: &str) -> (v: Vec<char>)
    ensures
        v@ == s@,
{
    let mut v: Vec<char> = Vec::new();
    for c in it: s.chars()
        invariant
            v@ == it.seq().take(it.index()),
            it.seq() == s@,
    {
        v.push(c);
    }
    v
}

/// `String::from_iter` over the characters of a vector: the string that holds
/// exactly those characters, in the same order.
#[verifier::external_body]
pub(crate) fn from_chars(chars: &Vec<char>) -> (s: String)
    ensures
        s@ == chars@,
{
    String::from_iter(chars.iter())
}

/// Whether `a` and `b` hold the same characters.
pub fn same_text(a: &str, b: &str) -> (r: bool)
    ensures
        r == (a@ == b@),
{
    let mut x = a.chars();
    let mut y = b.chars();
    let ghost mut k: int = 0;
    loop
        invariant
            0 <= k <= a@.len(),
            k <= b@.len(),
            x.obeys_prophetic_iter_laws(),
            y.obeys_prophetic_iter_laws(),
            x.remaining() == a@.skip(k),
            y.remaining() == b@.skip(k),
            a@.take(k) == b@.take(k),
        decreases a@.len() - k,
    {
        let p = x.next();
        let q = y.next();
        match (p, q) {
            (None, None) => {
                assert(a@.take(k) =~= a@);
                assert(b@.take(k) =~= b@);
                return true;
            },
            (Some(c), Some(d)) => {
                assert(c == a@[k] && d == b@[k]);
                if c != d {
                    return false;
                }
                proof {
                    assert(a@.take(k + 1) =~= a@.take(k).push(c));
                    assert(b@.take(k + 1) =~= b@.take(k).push(d));
                    assert(a@.skip(k).drop_first() =~= a@.skip(k + 1));
                    assert(b@.skip(k).drop_first() =~= b@.skip(k + 1));
                    k = k + 1;
                }
            },
            _ => {
                assert(a@.len() != b@.len());
                return false;
            },
        }
    }
}

/// `p` occurs in `s` starting at index `at`.
pub open spec fn occurs_at(s: Seq<char>, at: int, p: Seq<char>) -> bool {
    0 <= at && at + p.len() <= s.len() && s.subrange(at, at + p.len()) == p
}

/// `p` occurs somewhere in `s`.
pub open spec fn has_substring(s: Seq<char>, p: Seq<char>) -> bool {
    exists|at: int| occurs_at(s, at, p)
}

/// Whether `p` occurs in `s` starting at index `at`.
pub fn matches_at(s: &Vec<char>, at: usize, p: &Vec<char>) -> (r: bool)
    ensures
        r == occurs_at(s@, at as int, p@),
{
    if at > s.len() || p.len() > s.len() - at {
        return false;
    }
    let mut j: usize = 0;
    while j < p.len()
        invariant
            at + p.len() <= s.len(),
            0 <= j <= p.len(),
            forall|k: int| 0 <= k < j ==> s@[at + k] == p@[k],
        decreases p.len() - j,
    {
        if s[at + j] != p[j] {
            assert(s@.subrange(at as int, at + p.len())[j as int] != p@[j as int]);
            return false;
        }
        j += 1;
    }
    assert(s@.subrange(at as int, at + p.len()) =~= p@);
    true
}

/// Whether `p` occurs somewhere in `s`.
pub fn contains(s: &Vec<char>, p: &Vec<char>) -> (r: bool)
    ensures
        r == has_substring(s@, p@),
{
    if p.len() > s.len() {
        return false;
    }
    let last: usize = s.len() - p.len();
    let mut at: usize = 0;
    loop
        invariant
            last == s.len() - p.len(),
            0 <= at <= last,
            forall|k: int| 0 <= k < at ==> !occurs_at(s@, k, p@),
        decreases last - at,
    {
        if matches_at(s, at, p) {
            return true;
        }
        if at == last {
            return false;
        }
        at += 1;
    }
}

/// The first index at or after `from` that holds no whitespace (the length if
/// there is none).
pub open spec fn spaces_end(s: Seq<char>, from: int) -> int
    decreases s.len() - from,
{
    if 0 <= from < s.len() && is_space(s[from]) {
        spaces_end(s, from + 1)
    } else {
        from
    }
}

/// The first index at or after `from` that holds whitespace (the length if
/// there is none).
pub open spec fn word_end(s: Seq<char>, from: int) -> int
    decreases s.len() - from,
{
    if 0 <= from < s.len() && !is_space(s[from]) {
        word_end(s, from + 1)
    } else {
        from
    }
}

pub proof fn lemma_spaces_end(s: Seq<char>, from: int)
    requires
        0 <= from <= s.len(),
    ensures
        from <= spaces_end(s, from) <= s.len(),
        forall|k: int| from <= k < spaces_end(s, from) ==> is_space(s[k]),
        spaces_end(s, from) < s.len() ==> !is_space(s[spaces_end(s, from)]),
    decreases s.len() - from,
{
    if from < s.len() && is_space(s[from]) {
        lemma_spaces_end(s, from + 1);
    }
}

pub proof fn lemma_word_end(s: Seq<char>, from: int)
    requires
        0 <= from <= s.len(),
    ensures
        from <= word_end(s, from) <= s.len(),
        forall|k: int| from <= k < word_end(s, from) ==> !is_space(s[k]),
        word_end(s, from) < s.len() ==> is_space(s[word_end(s, from)]),
    decreases s.len() - from,
{
    if from < s.len() && !is_space(s[from]) {
        lemma_word_end(s, from + 1);
    }
}

/// The maximal runs of non-whitespace characters of `s` that start at or after
/// `from`, in order.
pub open spec fn words_from(s: Seq<char>, from: int) -> Seq<Seq<char>>
    decreases s.len() - from,
    via words_from_decreases
{
    if from < 0 || from >= s.len() {
        Seq::empty()
    } else if is_space(s[from]) {
        words_from(s, from + 1)
    } else {
        seq![s.subrange(from, word_end(s, from + 1))] + words_from(s, word_end(s, from + 1))
    }
}

#[via_fn]
proof fn words_from_decreases(s: Seq<char>, from: int) {
    if 0 <= from < s.len() && !is_space(s[from]) {
        lemma_word_end(s, from + 1);
    }
}

/// The whitespace-separated words of `s`.
pub open spec fn words(s: Seq<char>) -> Seq<Seq<char>> {
    words_from(s, 0)
}

/// `parts` written one after another with `sep` between neighbours.
pub open spec fn joined(parts: Seq<Seq<char>>, sep: char) -> Seq<char>
    decreases parts.len(),
{
    if parts.len() == 0 {
        Seq::empty()
    } else if parts.len() == 1 {
        parts[0]
    } else {
        joined(parts.drop_last(), sep).push(sep) + parts.last()
    }
}

/// The views of a sequence of character vectors.
pub open spec fn texts(v: Seq<Vec<char>>) -> Seq<Seq<char>> {
    v.map_values(|w: Vec<char>| w@)
}

/// Splits `s` at whitespace into its words.
pub fn split_words(s: &Vec<char>) -> (out: Vec<Vec<char>>)
    ensures
        texts(out@) == words(s@),
{
    let mut out: Vec<Vec<char>> = Vec::new();
    let mut i: usize = 0;
    assert(texts(out@) =~= Seq::<Seq<char>>::empty());
    while i < s.len()
        invariant
            0 <= i <= s.len(),
            texts(out@) + words_from(s@, i as int) == words(s@),
        decreases s.len() - i,
    {
        if is_whitespace(s[i]) {
            i += 1;
        } else {
            let start: usize = i;
            let mut word: Vec<char> = Vec::new();
            word.push(s[i]);
            i += 1;
            while i < s.len() && !is_whitespace(s[i])
                invariant
                    start < i <= s.len(),
                    word@ == s@.subrange(start as int, i as int),
                    word_end(s@, start + 1) == word_end(s@, i as int),
                decreases s.len() - i,
            {
                word.push(s[i]);
                i += 1;
                assert(word@ =~= s@.subrange(start as int, i as int));
            }
            proof {
                assert(word_end(s@, i as int) == i);
                let before = texts(out@);
                assert(texts(out@.push(word)) =~= before.push(word@));
                assert(before.push(word@) + words_from(s@, i as int) =~= before + (seq![word@]
                    + words_from(s@, i as int)));
            }
            out.push(word);
        }
    }
    assert(words_from(s@, i as int) =~= Seq::<Seq<char>>::empty());
    assert(texts(out@) + Seq::<Seq<char>>::empty() =~= texts(out@));
    out
}

/// Writes `parts` one after another with `sep` between neighbours.
pub fn join_words(parts: &Vec<Vec<char>>, sep: char) -> (out: Vec<char>)
    ensures
        out@ == joined(texts(parts@), sep),
{
    let mut out: Vec<char> = Vec::new();
    let mut i: usize = 0;
    while i < parts.len()
        invariant
            0 <= i <= parts.len(),
            out@ == joined(texts(parts@).take(i as int), sep),
        decreases parts.len() - i,
    {
        if i > 0 {
            out.push(sep);
        }
        let ghost base = out@;
        let part = &parts[i];
        let mut j: usize = 0;
        while j < part.len()
            invariant
                0 <= j <= part.len(),
                out@ == base + part@.take(j as int),
            decreases part.len() - j,
        {
            out.push(part[j]);
            j += 1;
            assert(out@ =~= base + part@.take(j as int));
        }
        proof {
            let all = texts(parts@);
            assert(part@.take(j as int) =~= part@);
            assert(all.take(i + 1).drop_last() =~= all.take(i as int));
            assert(all.take(i + 1).last() == part@);
            if i == 0 {
                assert(base + part@ =~= part@);
            }
        }
        i += 1;
    }
    assert(texts(parts@).take(i as int) =~= texts(parts@));
    out
}

/// The first `max` characters of `s` (all of `s` if it is shorter).
pub open spec fn truncated(s: Seq<char>, max: nat) -> Seq<char> {
    if s.len() <= max {
        s
    } else {
        s.take(max as int)
    }
}

/// `s` with every run of whitespace replaced by one space and none left at
/// either end, cut to its first `max` characters.
pub open spec fn normalized(s: Seq<char>, max: nat) -> Seq<char> {
    truncated(joined(words(s), ' '), max)
}

/// Cuts `s` to its first `max` characters.
pub fn truncate(s: &Vec<char>, max: usize) -> (out: Vec<char>)
    ensures
        out@ == truncated(s@, max as nat),
{
    let mut out: Vec<char> = Vec::new();
    let mut i: usize = 0;
    while i < s.len() && i < max
        invariant
            0 <= i <= s.len(),
            i <= max,
            out@ == s@.take(i as int),
        decreases s.len() - i,
    {
        out.push(s[i]);
        i += 1;
        assert(out@ =~= s@.take(i as int));
    }
    assert(s@.take(s@.len() as int) =~= s@);
    out
}

/// Collapses the whitespace of `s` and cuts the result to `max_len`
/// characters.
pub fn normalize_and_truncate(s: &str, max_len: usize) -> (out: String)
    ensures
        out@ == normalized(s@, max_len as nat),
{
    let chars = to_chars(s);
    let parts = split_words(&chars);
    let line = join_words(&parts, ' ');
    let cut = truncate(&line, max_len);
    from_chars(&cut)
}

} // verus!
