//! Splitting a line into words, and putting words back together.
//!
//! Text is modelled as `Seq<char>`. A line is cut at spaces and tabs; a run of
//! them counts as one cut, so a word is never empty.

use vstd::prelude::*;

verus! {

/// The characters that separate the words of a line: space and tab.
pub open spec fn is_separator(c: char) -> bool {
    c == ' ' || c == '\t'
}

/// How many characters at the front of `s` come before its first separator.
pub open spec fn word_len(s: Seq<char>) -> nat
    decreases s.len(),
{
    if s.len() == 0 || is_separator(s[0]) {
        0
    } else {
        1 + word_len(s.drop_first())
    }
}

/// The words of `line`, in order: its maximal stretches of characters that
/// are not separators.
pub open spec fn tokens(line: Seq<char>) -> Seq<Seq<char>>
    decreases line.len(),
{
    if line.len() == 0 {
        Seq::empty()
    } else if is_separator(line[0]) {
        tokens(line.drop_first())
    } else {
        proof {
            lemma_word_len_bounds(line);
        }
        let n = word_len(line) as int;
        seq![line.take(n)] + tokens(line.skip(n))
    }
}

/// What a word is: not empty, and without a separator.
pub open spec fn is_word(w: Seq<char>) -> bool {
    w.len() > 0 && forall|j: int| 0 <= j < w.len() ==> !is_separator(#[trigger] w[j])
}

/// A front stretch is never longer than the text, and is not empty when the
/// text starts with a character that is no separator.
pub proof fn lemma_word_len_bounds(s: Seq<char>)
    ensures
        word_len(s) <= s.len(),
        s.len() > 0 && !is_separator(s[0]) ==> word_len(s) >= 1,
    decreases s.len(),
{
    if s.len() > 0 && !is_separator(s[0]) {
        lemma_word_len_bounds(s.drop_first());
    }
}

/// A text that runs up to a separator, or to the end, is one front stretch.
pub proof fn lemma_word_len_is(s: Seq<char>, n: int)
    requires
        0 <= n <= s.len(),
        forall|j: int| 0 <= j < n ==> !is_separator(#[trigger] s[j]),
        n < s.len() ==> is_separator(s[n]),
    ensures
        word_len(s) == n,
    decreases n,
{
    if n > 0 {
        lemma_word_len_is(s.drop_first(), n - 1);
    }
}

/// The front stretch of a text holds no separator.
proof fn lemma_word_has_no_separator(s: Seq<char>)
    ensures
        forall|j: int| 0 <= j < word_len(s) ==> !is_separator(#[trigger] s[j]),
    decreases s.len(),
{
    if s.len() > 0 && !is_separator(s[0]) {
        let rest = s.drop_first();
        lemma_word_has_no_separator(rest);
        lemma_word_len_bounds(rest);
        assert forall|j: int| 0 < j < word_len(s) implies !is_separator(#[trigger] s[j]) by {
            assert(s[j] == rest[j - 1]);
        }
    }
}

/// Where a word runs from `start` up to `end`, the words from `start` on are
/// that word and then the words from `end` on.
proof fn lemma_first_word(line: Seq<char>, start: int, end: int)
    requires
        0 <= start < end <= line.len(),
        forall|j: int| start <= j < end ==> !is_separator(#[trigger] line[j]),
        end < line.len() ==> is_separator(line[end]),
    ensures
        tokens(line.skip(start)) == seq![line.subrange(start, end)] + tokens(line.skip(end)),
{
    let rest = line.skip(start);
    lemma_word_len_is(rest, end - start);
    assert(rest.take(end - start) == line.subrange(start, end));
    assert(rest.skip(end - start) == line.skip(end));
}

/// Cutting a line gives words.
pub proof fn lemma_tokens_are_words(line: Seq<char>)
    ensures
        forall|k: int| 0 <= k < tokens(line).len() ==> is_word(#[trigger] tokens(line)[k]),
    decreases line.len(),
{
    if line.len() == 0 {
    } else if is_separator(line[0]) {
        lemma_tokens_are_words(line.drop_first());
        assert(tokens(line) == tokens(line.drop_first()));
    } else {
        lemma_word_len_bounds(line);
        lemma_word_has_no_separator(line);
        let n = word_len(line) as int;
        lemma_tokens_are_words(line.skip(n));
        assert(is_word(line.take(n)));
        assert forall|k: int| 0 <= k < tokens(line).len() implies is_word(
            #[trigger] tokens(line)[k],
        ) by {
            if k > 0 {
                assert(tokens(line)[k] == tokens(line.skip(n))[k - 1]);
            }
        }
    }
}

/// The texts of a list of string slices.
pub open spec fn texts(words: Seq<&str>) -> Seq<Seq<char>> {
    Seq::new(words.len(), |k: int| words[k]@)
}

/// A text has no more characters than its UTF-8 encoding has bytes.
proof fn lemma_len_within_bytes(s: Seq<char>)
    ensures
        s.len() <= vstd::utf8::encode_utf8(s).len(),
    decreases s.len(),
{
    if s.len() > 0 {
        lemma_len_within_bytes(s.drop_first());
    }
}

/// An upper bound on the number of characters of `s`: its length in bytes.
fn char_bound(s: &str) -> (n: usize)
    ensures
        s@.len() <= n,
{
    proof {
        lemma_len_within_bytes(s@);
    }
    s.as_bytes().len()
}

/// Cuts `line` into its words.
pub fn split_words<'a>(line: &'a str) -> (words: Vec<&'a str>)
    ensures
        texts(words@) == tokens(line@),
{
    let bound = char_bound(line);
    let mut words: Vec<&'a str> = Vec::new();
    let mut start: usize = 0;
    let mut in_word: bool = false;
    let mut i: usize = 0;
    assert(line@.skip(0) == line@);
    for c in it: line.chars()
        invariant
            it.seq() == line@,
            i == it.index(),
            line@.len() <= bound,
            in_word ==> start < i,
            in_word ==> forall|j: int| start <= j < i ==> !is_separator(#[trigger] line@[j]),
            in_word ==> tokens(line@) == texts(words@) + tokens(line@.skip(start as int)),
            !in_word ==> tokens(line@) == texts(words@) + tokens(line@.skip(i as int)),
    {
        if c == ' ' || c == '\t' {
            if in_word {
                let word = line.substring_char(start, i);
                proof {
                    lemma_first_word(line@, start as int, i as int);
                }
                words.push(word);
                in_word = false;
            }
            proof {
                let rest = line@.skip(i as int);
                assert(rest.drop_first() == line@.skip(i + 1));
            }
        } else if !in_word {
            start = i;
            in_word = true;
        }
        i = i + 1;
    }
    if in_word {
        let word = line.substring_char(start, i);
        proof {
            lemma_first_word(line@, start as int, i as int);
        }
        words.push(word);
    }
    words
}

/// The words of `words` written out with one space between neighbours.
pub open spec fn joined(words: Seq<Seq<char>>) -> Seq<char>
    decreases words.len(),
{
    if words.len() == 0 {
        Seq::empty()
    } else if words.len() == 1 {
        words[0]
    } else {
        joined(words.drop_last()) + seq![' '] + words.last()
    }
}

/// Writes out `words` with one space between neighbours.
pub fn join(words: &[&str]) -> (text: String)
    ensures
        text@ == joined(texts(words@)),
{
    let mut text = String::new();
    let mut k: usize = 0;
    while k < words.len()
        invariant
            k <= words@.len(),
            text@ == joined(texts(words@).take(k as int)),
        decreases words@.len() - k,
    {
        if k > 0 {
            text.append(" ");
        }
        text.append(words[k]);
        proof {
            reveal_strlit(" ");
            assert(texts(words@).take(k + 1).drop_last() == texts(words@).take(k as int));
        }
        k = k + 1;
    }
    proof {
        assert(texts(words@).take(k as int) == texts(words@));
    }
    text
}

/// The characters that count as blank at the ends of a text: those with the
/// Unicode property `White_Space`.
pub open spec fn is_whitespace(c: char) -> bool {
    let u = c as u32;
    ||| 0x09 <= u <= 0x0D
    ||| u == 0x20
    ||| u == 0x85
    ||| u == 0xA0
    ||| u == 0x1680
    ||| 0x2000 <= u <= 0x200A
    ||| u == 0x2028
    ||| u == 0x2029
    ||| u == 0x202F
    ||| u == 0x205F
    ||| u == 0x3000
}

/// `s` without the whitespace at its front.
pub open spec fn trim_start(s: Seq<char>) -> Seq<char>
    decreases s.len(),
{
    if s.len() > 0 && is_whitespace(s[0]) {
        trim_start(s.drop_first())
    } else {
        s
    }
}

/// `s` without the whitespace at its end.
pub open spec fn trim_end(s: Seq<char>) -> Seq<char>
    decreases s.len(),
{
    if s.len() > 0 && is_whitespace(s.last()) {
        trim_end(s.drop_last())
    } else {
        s
    }
}

/// `s` without the whitespace at its front and at its end.
pub open spec fn trimmed(s: Seq<char>) -> Seq<char> {
    trim_end(trim_start(s))
}

/// Where the first `n` characters are whitespace and the next one is not,
/// trimming the front drops exactly those `n`.
pub proof fn lemma_trim_start_is(s: Seq<char>, n: int)
    requires
        0 <= n <= s.len(),
        forall|j: int| 0 <= j < n ==> is_whitespace(#[trigger] s[j]),
        n < s.len() ==> !is_whitespace(s[n]),
    ensures
        trim_start(s) == s.skip(n),
    decreases n,
{
    if n > 0 {
        lemma_trim_start_is(s.drop_first(), n - 1);
    }
}

/// Where the characters from `n` on are whitespace and the one before is
/// not, trimming the end keeps exactly the first `n`.
pub proof fn lemma_trim_end_is(s: Seq<char>, n: int)
    requires
        0 <= n <= s.len(),
        forall|j: int| n <= j < s.len() ==> is_whitespace(#[trigger] s[j]),
        n > 0 ==> !is_whitespace(s[n - 1]),
    ensures
        trim_end(s) == s.take(n),
    decreases s.len() - n,
{
    if n < s.len() {
        lemma_trim_end_is(s.drop_last(), n);
    }
}

/// Whether `c` is whitespace.
pub fn is_blank(c: char) -> (b: bool)
    ensures
        b == is_whitespace(c),
{
    let u: u32 = c as u32;
    (0x09 <= u && u <= 0x0D) || u == 0x20 || u == 0x85 || u == 0xA0 || u == 0x1680 || (0x2000 <= u
        && u <= 0x200A) || u == 0x2028 || u == 0x2029 || u == 0x202F || u == 0x205F || u == 0x3000
}

/// The part of `s` between its first and its last character that is not
/// whitespace; empty where it has none.
pub fn trim<'a>(s: &'a str) -> (t: &'a str)
    ensures
        t@ == trimmed(s@),
{
    let bound = char_bound(s);
    let mut begin: usize = 0;
    let mut end: usize = 0;
    let mut seen: bool = false;
    let mut i: usize = 0;
    for c in it: s.chars()
        invariant
            it.seq() == s@,
            i == it.index(),
            s@.len() <= bound,
            !seen ==> begin == 0 && end == 0,
            !seen ==> forall|j: int| 0 <= j < i ==> is_whitespace(#[trigger] s@[j]),
            seen ==> begin < end <= i,
            seen ==> forall|j: int| 0 <= j < begin ==> is_whitespace(#[trigger] s@[j]),
            seen ==> !is_whitespace(s@[begin as int]) && !is_whitespace(s@[end - 1]),
            seen ==> forall|j: int| end <= j < i ==> is_whitespace(#[trigger] s@[j]),
    {
        if !is_blank(c) {
            if !seen {
                begin = i;
                seen = true;
            }
            end = i + 1;
        }
        i = i + 1;
    }
    proof {
        if seen {
            lemma_trim_start_is(s@, begin as int);
            lemma_trim_end_is(s@.skip(begin as int), end - begin);
        } else {
            lemma_trim_start_is(s@, s@.len() as int);
        }
    }
    s.substring_char(begin, end)
}

} // verus!
