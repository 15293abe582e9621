//! Exercises on vectors, strings and counting tables: a stack, safe access,
//! shifting, joining, UTF-8 counts, Pig Latin, word frequencies, the mode of
//! a sample, score tables and binary search.

use crate::basics::{seq_sum, sums_fit};
use crate::text::{chars_of, is_ws, char_is_ws, push_char, push_str, str_eq, string_from, string_of};
use vstd::prelude::*;
use vstd::string::StringSliceAdditionalSpecFns;

verus! {

/// The values pushed in order onto a new stack (the top is last).
pub fn build_stack(input: Vec<i32>) -> (r: Vec<i32>)
    ensures
        r@ == input@,
{
    let mut stack: Vec<i32> = Vec::new();
    let mut i: usize = 0;
    while i < input.len()
        invariant
            i <= input@.len(),
            stack@ =~= input@.take(i as int),
        decreases input@.len() - i,
    {
        stack.push(input[i]);
        i = i + 1;
    }
    proof {
        assert(input@.take(i as int) =~= input@);
    }
    stack
}

/// Pops every value of the stack: the values from the top down.
pub fn pop_all(stack: Vec<i32>) -> (r: Vec<i32>)
    ensures
        r@ == stack@.reverse(),
{
    let mut stack = stack;
    let ghost orig = stack@;
    let mut popped: Vec<i32> = Vec::new();
    while stack.len() > 0
        invariant
            stack@.len() <= orig.len(),
            stack@ == orig.take(stack@.len() as int),
            popped@ =~= orig.skip(stack@.len() as int).reverse(),
        decreases stack@.len(),
    {
        let v = stack.pop().unwrap();
        popped.push(v);
        proof {
            assert(stack@ =~= orig.take(stack@.len() as int));
            assert(popped@ =~= orig.skip(stack@.len() as int).reverse());
        }
    }
    proof {
        assert(orig.skip(0) =~= orig);
    }
    popped
}

/// The value at `index`, if there is one.
pub fn safe_get(data: &[i32], index: usize) -> (r: Option<i32>)
    ensures
        r == (if index < data@.len() {
            Some(data@[index as int])
        } else {
            None::<i32>
        }),
{
    if index < data.len() {
        Some(data[index])
    } else {
        None
    }
}

/// Adds `shift` to every value.
pub fn shift_all(data: &mut [i32], shift: i32)
    requires
        forall|i: int| 0 <= i < old(data)@.len() ==> i32::MIN <= #[trigger] old(data)@[i] + shift <= i32::MAX,
    ensures
        final(data)@.len() == old(data)@.len(),
        forall|i: int| 0 <= i < old(data)@.len() ==> #[trigger] final(data)@[i] == old(data)@[i] + shift,
{
    let n = data.len();
    let mut i: usize = 0;
    while i < n
        invariant
            i <= n,
            n == data@.len(),
            data@.len() == old(data)@.len(),
            forall|j: int| 0 <= j < old(data)@.len() ==> i32::MIN <= #[trigger] old(data)@[j] + shift <= i32::MAX,
            forall|j: int| 0 <= j < i ==> #[trigger] data@[j] == old(data)@[j] + shift,
            forall|j: int| i <= j < n ==> #[trigger] data@[j] == old(data)@[j],
        decreases n - i,
    {
        let v = data[i] + shift;
        data[i] = v;
        i = i + 1;
    }
}

/// Index of the first even value from `i` on; the length when none.
pub open spec fn first_even_from(s: Seq<i32>, i: int) -> int
    decreases s.len() - i,
{
    if i < 0 || i >= s.len() {
        s.len() as int
    } else if s[i] % 2 == 0 {
        i
    } else {
        first_even_from(s, i + 1)
    }
}

/// The first even value, if any.
pub fn first_even(data: &[i32]) -> (r: Option<i32>)
    ensures
        r == (if first_even_from(data@, 0) < data@.len() {
            Some(data@[first_even_from(data@, 0)])
        } else {
            None::<i32>
        }),
{
    let mut i: usize = 0;
    while i < data.len()
        invariant
            i <= data@.len(),
            first_even_from(data@, 0) == first_even_from(data@, i as int),
        decreases data@.len() - i,
    {
        if data[i] % 2 == 0 {
            return Some(data[i]);
        }
        i = i + 1;
    }
    None
}

/// The parts joined with `sep` between them.
pub open spec fn join(parts: Seq<Seq<char>>, sep: Seq<char>) -> Seq<char>
    decreases parts.len(),
{
    if parts.len() == 0 {
        Seq::empty()
    } else if parts.len() == 1 {
        parts[0]
    } else {
        join(parts.drop_last(), sep) + sep + parts.last()
    }
}

/// The characters of a sequence of string slices.
pub open spec fn str_views(v: Seq<&str>) -> Seq<Seq<char>> {
    v.map_values(|s: &str| s@)
}

/// The words joined with ", ".
pub fn join_with_comma(words: &[&str]) -> (r: String)
    ensures
        r@ == join(str_views(words@), ", "@),
{
    let mut result = String::new();
    let mut i: usize = 0;
    while i < words.len()
        invariant
            i <= words@.len(),
            result@ == join(str_views(words@.take(i as int)), ", "@),
        decreases words@.len() - i,
    {
        proof {
            assert(str_views(words@.take(i + 1)).drop_last() =~= str_views(words@.take(i as int)));
        }
        if i > 0 {
            push_str(&mut result, ", ");
        }
        push_str(&mut result, words[i]);
        i = i + 1;
        proof {
            if i == 1 {
                assert(str_views(words@.take(1)) =~= seq![words@[0]@]);
                assert(result@ =~= join(str_views(words@.take(i as int)), ", "@));
            } else {
                assert(result@ =~= join(str_views(words@.take(i as int)), ", "@));
            }
        }
    }
    proof {
        assert(words@.take(i as int) =~= words@);
    }
    result
}

/// The first character, if any.
pub fn first_char(s: &str) -> (r: Option<char>)
    ensures
        r == (if s@.len() > 0 {
            Some(s@[0])
        } else {
            None::<char>
        }),
{
    if s.unicode_len() > 0 {
        Some(s.get_char(0))
    } else {
        None
    }
}

/// The last character, if any.
pub fn last_char(s: &str) -> (r: Option<char>)
    ensures
        r == (if s@.len() > 0 {
            Some(s@.last())
        } else {
            None::<char>
        }),
{
    let n = s.unicode_len();
    if n > 0 {
        Some(s.get_char(n - 1))
    } else {
        None
    }
}

/// Number of characters.
pub fn char_count(s: &str) -> (r: usize)
    ensures
        r == s@.len(),
{
    s.unicode_len()
}

/// Number of bytes (UTF-8).
pub fn byte_count(s: &str) -> (r: usize)
    ensures
        r == s.spec_bytes().len() as usize,
{
    s.len()
}

/// An English vowel, either case.
pub open spec fn spec_is_vowel(c: char) -> bool {
    c == 'a' || c == 'e' || c == 'i' || c == 'o' || c == 'u' || c == 'A' || c == 'E' || c == 'I' || c
        == 'O' || c == 'U'
}

/// Whether `ch` is a vowel (compared in ASCII lower case).
pub fn is_vowel(ch: char) -> (r: bool)
    ensures
        r == spec_is_vowel(ch),
{
    ch == 'a' || ch == 'e' || ch == 'i' || ch == 'o' || ch == 'u' || ch == 'A' || ch == 'E' || ch == 'I'
        || ch == 'O' || ch == 'U'
}

/// Pig Latin of one word: a word starting with a vowel gets "-hay"; any
/// other moves its first character to the end, after a hyphen, followed by
/// "ay"; the empty word stays empty.
pub open spec fn pig(word: Seq<char>) -> Seq<char> {
    if word.len() == 0 {
        Seq::empty()
    } else if spec_is_vowel(word[0]) {
        word + "-hay"@
    } else {
        word.skip(1) + "-"@ + seq![word[0]] + "ay"@
    }
}

/// One word in Pig Latin (see `pig`).
pub fn to_pig_latin(word: &str) -> (r: String)
    ensures
        r@ == pig(word@),
{
    let n = word.unicode_len();
    if n == 0 {
        return String::new();
    }
    let first = word.get_char(0);
    if is_vowel(first) {
        let mut out = string_of(word);
        push_str(&mut out, "-hay");
        out
    } else {
        let rest = word.substring_char(1, n);
        let mut out = string_of(rest);
        push_str(&mut out, "-");
        push_char(&mut out, first);
        push_str(&mut out, "ay");
        proof {
            assert(word@.subrange(1, n as int) =~= word@.skip(1));
        }
        out
    }
}

/// End of the word that starts at `i`: the next white space, or the end.
pub open spec fn word_end(s: Seq<char>, i: int) -> int
    decreases s.len() - i,
{
    if i < 0 || i >= s.len() {
        s.len() as int
    } else if is_ws(s[i]) {
        i
    } else {
        word_end(s, i + 1)
    }
}

/// A word reaches at least one character past its first, and no further
/// than the end.
pub proof fn lemma_word_end(s: Seq<char>, i: int)
    requires
        0 <= i <= s.len(),
    ensures
        i <= word_end(s, i) <= s.len(),
        i < s.len() && !is_ws(s[i]) ==> word_end(s, i) > i,
        forall|j: int| i <= j < word_end(s, i) ==> !is_ws(#[trigger] s[j]),
        word_end(s, i) < s.len() ==> is_ws(s[word_end(s, i)]),
    decreases s.len() - i,
{
    if i < s.len() && !is_ws(s[i]) {
        lemma_word_end(s, i + 1);
    }
}

/// The white-space separated words of `s` from position `i` on, as
/// `str::split_whitespace` gives them.
pub open spec fn words_from(s: Seq<char>, i: int) -> Seq<Seq<char>>
    decreases s.len() + 1 - i,
{
    if i < 0 || i >= s.len() {
        Seq::empty()
    } else if is_ws(s[i]) {
        words_from(s, i + 1)
    } else {
        let e = word_end(s, i);
        proof {
            lemma_word_end(s, i);
        }
        seq![s.subrange(i, e)] + words_from(s, e)
    }
}

/// The white-space separated words of `s`.
pub open spec fn split_ws(s: Seq<char>) -> Seq<Seq<char>> {
    words_from(s, 0)
}

/// The characters of a sequence of strings.
pub open spec fn string_views(v: Seq<String>) -> Seq<Seq<char>> {
    v.map_values(|s: String| s@)
}

/// The words of `s`, as `str::split_whitespace` gives them.
pub fn split_whitespace(s: &str) -> (r: Vec<String>)
    ensures
        string_views(r@) == split_ws(s@),
{
    let cs = chars_of(s);
    let n = cs.len();
    let mut out: Vec<String> = Vec::new();
    let mut i: usize = 0;
    while i < n
        invariant
            i <= n,
            n == cs@.len(),
            cs@ == s@,
            string_views(out@) + words_from(cs@, i as int) == split_ws(cs@),
        decreases n - i,
    {
        if char_is_ws(cs[i]) {
            i = i + 1;
        } else {
            let mut e = i;
            while e < n && !char_is_ws(cs[e])
                invariant
                    i <= e <= n,
                    n == cs@.len(),
                    word_end(cs@, i as int) == word_end(cs@, e as int),
                decreases n - e,
            {
                e = e + 1;
            }
            proof {
                lemma_word_end(cs@, i as int);
            }
            let w = string_from(cs.as_slice(), i, e);
            let ghost before = out@;
            out.push(w);
            proof {
                assert(string_views(out@) =~= string_views(before).push(w@));
                assert(string_views(out@) + words_from(cs@, e as int) =~= string_views(before) + words_from(
                    cs@,
                    i as int,
                ));
            }
            i = e;
        }
    }
    proof {
        assert(string_views(out@) + words_from(cs@, i as int) =~= string_views(out@));
    }
    out
}

/// A sentence in Pig Latin: its words translated and joined by single
/// spaces.
pub fn sentence_to_pig_latin(text: &str) -> (r: String)
    ensures
        r@ == join(split_ws(text@).map_values(|w: Seq<char>| pig(w)), " "@),
{
    let words = split_whitespace(text);
    let ghost ws = split_ws(text@);
    let mut result = String::new();
    let mut i: usize = 0;
    while i < words.len()
        invariant
            i <= words@.len(),
            string_views(words@) == ws,
            result@ == join(ws.take(i as int).map_values(|w: Seq<char>| pig(w)), " "@),
        decreases words@.len() - i,
    {
        proof {
            assert(ws.take(i + 1).map_values(|w: Seq<char>| pig(w)).drop_last() =~= ws.take(i as int).map_values(
                |w: Seq<char>| pig(w),
            ));
            assert(ws[i as int] == words@[i as int]@);
        }
        if i > 0 {
            push_str(&mut result, " ");
        }
        let p = to_pig_latin(words[i].as_str());
        push_str(&mut result, p.as_str());
        i = i + 1;
        proof {
            assert(result@ =~= join(ws.take(i as int).map_values(|w: Seq<char>| pig(w)), " "@));
        }
    }
    proof {
        assert(ws.take(i as int) =~= ws);
    }
    result
}

/// The lower-case form of a string, as `str::to_lowercase` gives it (full
/// Unicode case mapping, including the final sigma rule).
pub uninterp spec fn str_lowercase(s: Seq<char>) -> Seq<char>;

/// `str::to_lowercase`: the result is the lower-case form named
/// `str_lowercase`, a function of the characters alone (std's case mapping
/// needs no locale).
#[verifier::external_body]
pub(crate) fn lowercase(s: &str) -> (r: String)
    ensures
        r@ == str_lowercase(s@),
{
    s.to_lowercase()
}

/// Position of the first entry with key `w` from `k` on; the length when
/// none.
pub open spec fn key_index<V>(t: Seq<(Seq<char>, V)>, w: Seq<char>, k: int) -> int
    decreases t.len() - k,
{
    if k < 0 || k >= t.len() {
        t.len() as int
    } else if t[k].0 == w {
        k
    } else {
        key_index(t, w, k + 1)
    }
}

/// A count table after counting `w` once more.
pub open spec fn bump(t: Seq<(Seq<char>, nat)>, w: Seq<char>) -> Seq<(Seq<char>, nat)> {
    let k = key_index(t, w, 0);
    if k < t.len() {
        t.update(k, (w, t[k].1 + 1))
    } else {
        t.push((w, 1nat))
    }
}

/// The count table of a sequence of words, keys in order of first
/// appearance.
pub open spec fn count_table(ws: Seq<Seq<char>>) -> Seq<(Seq<char>, nat)>
    decreases ws.len(),
{
    if ws.len() == 0 {
        Seq::empty()
    } else {
        bump(count_table(ws.drop_last()), ws.last())
    }
}

/// The abstract content of a count table.
pub open spec fn table_view(t: Seq<(String, usize)>) -> Seq<(Seq<char>, nat)> {
    t.map_values(|e: (String, usize)| (e.0@, e.1 as nat))
}

fn find_key(t: &Vec<(String, usize)>, w: &str) -> (r: usize)
    ensures
        r == key_index(table_view(t@), w@, 0),
        r <= t@.len(),
{
    let ghost tv = table_view(t@);
    let mut k: usize = 0;
    while k < t.len() && !str_eq(t[k].0.as_str(), w)
        invariant
            k <= t@.len(),
            tv == table_view(t@),
            key_index(tv, w@, 0) == key_index(tv, w@, k as int),
        decreases t@.len() - k,
    {
        k = k + 1;
    }
    k
}

/// How often each word of `text` occurs, words compared in lower case;
/// entries in order of first appearance.
pub fn word_frequencies(text: &str) -> (r: Vec<(String, usize)>)
    ensures
        table_view(r@) == count_table(split_ws(text@).map_values(|w: Seq<char>| str_lowercase(w))),
{
    let words = split_whitespace(text);
    let ghost lw = split_ws(text@).map_values(|w: Seq<char>| str_lowercase(w));
    let mut freq: Vec<(String, usize)> = Vec::new();
    let mut i: usize = 0;
    while i < words.len()
        invariant
            i <= words@.len(),
            string_views(words@) == split_ws(text@),
            lw == split_ws(text@).map_values(|w: Seq<char>| str_lowercase(w)),
            table_view(freq@) == count_table(lw.take(i as int)),
            forall|j: int| 0 <= j < freq@.len() ==> #[trigger] freq@[j].1 <= i,
        decreases words@.len() - i,
    {
        let lower = lowercase(words[i].as_str());
        proof {
            assert(lw[i as int] == lower@);
            assert(lw.take(i + 1).drop_last() =~= lw.take(i as int));
        }
        let k = find_key(&freq, lower.as_str());
        if k < freq.len() {
            let c = freq[k].1;
            let ghost before = freq@;
            freq.set(k, (lower, c + 1));
            proof {
                assert(table_view(freq@) =~= table_view(before).update(k as int, (lw[i as int], (c + 1) as nat)));
            }
        } else {
            let ghost before = freq@;
            freq.push((lower, 1));
            proof {
                assert(table_view(freq@) =~= table_view(before).push((lw[i as int], 1nat)));
            }
        }
        i = i + 1;
    }
    proof {
        assert(lw.take(i as int) =~= lw);
    }
    freq
}

/// The entry `max_by_key` on the counts picks: the last one with the
/// highest count.
pub open spec fn is_last_max(t: Seq<(Seq<char>, nat)>, k: int) -> bool {
    &&& 0 <= k < t.len()
    &&& forall|j: int| 0 <= j < t.len() ==> #[trigger] t[j].1 <= t[k].1
    &&& forall|j: int| k < j < t.len() ==> #[trigger] t[j].1 < t[k].1
}

/// The most frequent word and its count: the last entry with the highest
/// count; `None` for an empty table.
pub fn most_frequent(freq: &[(String, usize)]) -> (r: Option<(String, usize)>)
    ensures
        freq@.len() == 0 ==> r is None,
        freq@.len() > 0 ==> (r matches Some((w, c)) && exists|k: int| #[trigger] is_last_max(
            table_view(freq@),
            k,
        ) && table_view(freq@)[k] == (w@, c as nat)),
{
    if freq.len() == 0 {
        return None;
    }
    let ghost tv = table_view(freq@);
    let mut best: usize = 0;
    let mut k: usize = 1;
    while k < freq.len()
        invariant
            1 <= k <= freq@.len(),
            best < k,
            tv == table_view(freq@),
            forall|j: int| 0 <= j < k ==> #[trigger] tv[j].1 <= tv[best as int].1,
            forall|j: int| best < j < k ==> #[trigger] tv[j].1 < tv[best as int].1,
        decreases freq@.len() - k,
    {
        proof {
            assert(tv[k as int].1 == freq@[k as int].1);
            assert(tv[best as int].1 == freq@[best as int].1);
        }
        if freq[k].1 >= freq[best].1 {
            best = k;
        }
        k = k + 1;
    }
    proof {
        assert(is_last_max(tv, best as int));
        assert(tv[best as int] == (freq@[best as int].0@, freq@[best as int].1 as nat));
    }
    Some((string_of(freq[best].0.as_str()), freq[best].1))
}

/// Number of occurrences of `v` in `s`.
pub open spec fn occurrences(s: Seq<i32>, v: i32) -> nat
    decreases s.len(),
{
    if s.len() == 0 {
        0
    } else {
        occurrences(s.drop_last(), v) + if s.last() == v {
            1nat
        } else {
            0nat
        }
    }
}

fn count_of(data: &[i32], v: i32) -> (r: usize)
    ensures
        r == occurrences(data@, v),
{
    let mut c: usize = 0;
    let mut i: usize = 0;
    while i < data.len()
        invariant
            i <= data@.len(),
            c == occurrences(data@.take(i as int), v),
            c <= i,
        decreases data@.len() - i,
    {
        proof {
            assert(data@.take(i + 1).drop_last() =~= data@.take(i as int));
        }
        if data[i] == v {
            c = c + 1;
        }
        i = i + 1;
    }
    proof {
        assert(data@.take(i as int) =~= data@);
    }
    c
}

/// A most frequent value of the sample; `None` for an empty one. Among
/// equally frequent values the first to occur is taken.
pub fn mode(data: &[i32]) -> (r: Option<i32>)
    ensures
        data@.len() == 0 ==> r is None,
        data@.len() > 0 ==> (r matches Some(m) && data@.contains(m) && forall|x: i32| #[trigger] occurrences(data@, x)
            <= occurrences(data@, m)),
{
    if data.len() == 0 {
        return None;
    }
    let mut best: usize = 0;
    let mut best_count = count_of(data, data[0]);
    let mut i: usize = 1;
    while i < data.len()
        invariant
            1 <= i <= data@.len(),
            best < data@.len(),
            best_count == occurrences(data@, data@[best as int]),
            forall|j: int| 0 <= j < i ==> occurrences(data@, #[trigger] data@[j]) <= best_count,
        decreases data@.len() - i,
    {
        let c = count_of(data, data[i]);
        if c > best_count {
            best = i;
            best_count = c;
        }
        i = i + 1;
    }
    proof {
        assert forall|x: i32| #[trigger] occurrences(data@, x) <= occurrences(data@, data@[best as int]) by {
            if occurrences(data@, x) > 0 {
                lemma_occurs(data@, x);
                let j = choose|j: int| 0 <= j < data@.len() && data@[j] == x;
                assert(occurrences(data@, data@[j]) <= best_count);
            }
        }
        assert(data@.contains(data@[best as int]));
    }
    Some(data[best])
}

/// A value that occurs is at some position.
pub proof fn lemma_occurs(s: Seq<i32>, v: i32)
    requires
        occurrences(s, v) > 0,
    ensures
        exists|j: int| 0 <= j < s.len() && s[j] == v,
    decreases s.len(),
{
    if s.last() == v {
        assert(s[s.len() - 1] == v);
    } else {
        lemma_occurs(s.drop_last(), v);
        let j = choose|j: int| 0 <= j < s.drop_last().len() && s.drop_last()[j] == v;
        assert(s[j] == v);
    }
}

/// A score table after `team` scores `points`: added to its score, or a
/// new entry at the end with `points` when the team is new.
pub open spec fn scored(t: Seq<(Seq<char>, i32)>, team: Seq<char>, points: i32) -> Seq<(Seq<char>, i32)> {
    let k = key_index(t, team, 0);
    if k < t.len() {
        t.update(k, (team, (t[k].1 + points) as i32))
    } else {
        t.push((team, points))
    }
}

/// The abstract content of a score table.
pub open spec fn scores_view(t: Seq<(String, i32)>) -> Seq<(Seq<char>, i32)> {
    t.map_values(|e: (String, i32)| (e.0@, e.1))
}

/// Adds `points` to the score of `team` (see `scored`).
pub fn add_score(map: &mut Vec<(String, i32)>, team: &str, points: i32)
    requires
        key_index(scores_view(old(map)@), team@, 0) < old(map)@.len() ==> i32::MIN <= scores_view(old(map)@)[key_index(
            scores_view(old(map)@),
            team@,
            0,
        )].1 + points <= i32::MAX,
    ensures
        scores_view(final(map)@) == scored(scores_view(old(map)@), team@, points),
{
    let ghost tv = scores_view(map@);
    let mut k: usize = 0;
    while k < map.len() && !str_eq(map[k].0.as_str(), team)
        invariant
            k <= map@.len(),
            map@ == old(map)@,
            tv == scores_view(map@),
            key_index(tv, team@, 0) == key_index(tv, team@, k as int),
        decreases map@.len() - k,
    {
        k = k + 1;
    }
    if k < map.len() {
        let v = map[k].1 + points;
        map.set(k, (string_of(team), v));
        proof {
            assert(scores_view(map@) =~= scored(tv, team@, points));
        }
    } else {
        map.push((string_of(team), points));
        proof {
            assert(scores_view(map@) =~= scored(tv, team@, points));
        }
    }
}

/// A non-decreasing sequence.
pub open spec fn sorted(s: Seq<i32>) -> bool {
    forall|i: int, j: int| 0 <= i <= j < s.len() ==> s[i] <= s[j]
}

/// Binary search in a sorted slice: the index of an element equal to
/// `target`, or `None` when there is none. The slice must be non-empty and
/// its first element no greater than `target` (otherwise the search's
/// bound would run below zero).
pub fn binary_search(arr: &[i32], target: i32) -> (r: Option<usize>)
    requires
        sorted(arr@),
        arr@.len() > 0,
        arr@[0] <= target,
    ensures
        match r {
            Some(i) => i < arr@.len() && arr@[i as int] == target,
            None => forall|j: int| 0 <= j < arr@.len() ==> arr@[j] != target,
        },
{
    let mut low: usize = 0;
    let mut high: usize = arr.len() - 1;
    while low <= high
        invariant
            sorted(arr@),
            arr@.len() > 0,
            arr@[0] <= target,
            high < arr@.len(),
            low <= high + 1,
            forall|j: int| 0 <= j < low ==> arr@[j] < target,
            forall|j: int| high < j < arr@.len() ==> arr@[j] > target,
        decreases high + 1 - low,
    {
        let mid = low + (high - low) / 2;
        if arr[mid] == target {
            return Some(mid);
        } else if arr[mid] < target {
            low = mid + 1;
        } else {
            proof {
                if mid == 0 {
                    assert(arr@[0] > target);
                }
            }
            high = mid - 1;
        }
    }
    None
}

/// The label of a temperature unit code.
pub open spec fn spec_unit_label(code: Seq<char>) -> Seq<char> {
    if code == "c"@ {
        "°C"@
    } else if code == "f"@ {
        "°F"@
    } else if code == "k"@ {
        "K"@
    } else {
        "?"@
    }
}

/// The label of a temperature unit code ("c", "f", "k"); "?" for others.
pub fn unit_label(code: &str) -> (r: &'static str)
    ensures
        r@ == spec_unit_label(code@),
{
    if str_eq(code, "c") {
        "°C"
    } else if str_eq(code, "f") {
        "°F"
    } else if str_eq(code, "k") {
        "K"
    } else {
        "?"
    }
}

/// The sum of the counts of a count table.
pub open spec fn total(t: Seq<(Seq<char>, nat)>) -> nat
    decreases t.len(),
{
    if t.len() == 0 {
        0
    } else {
        total(t.drop_last()) + t.last().1
    }
}

proof fn lemma_total_update(t: Seq<(Seq<char>, nat)>, k: int, e: (Seq<char>, nat))
    requires
        0 <= k < t.len(),
    ensures
        total(t.update(k, e)) + t[k].1 == total(t) + e.1,
    decreases t.len(),
{
    if k < t.len() - 1 {
        lemma_total_update(t.drop_last(), k, e);
        assert(t.update(k, e).drop_last() =~= t.drop_last().update(k, e));
    } else {
        assert(t.update(k, e).drop_last() =~= t.drop_last());
    }
}

/// Every word is counted once: the counts of the table of `ws` add up to
/// the number of words, and every word is a key of the table.
pub proof fn lemma_counts_add_up(ws: Seq<Seq<char>>)
    ensures
        total(count_table(ws)) == ws.len(),
        forall|i: int| 0 <= i < ws.len() ==> key_index(count_table(ws), #[trigger] ws[i], 0) < count_table(ws).len(),
    decreases ws.len(),
{
    if ws.len() > 0 {
        let prev = count_table(ws.drop_last());
        let w = ws.last();
        lemma_counts_add_up(ws.drop_last());
        lemma_key_index_range(prev, w, 0);
        let k = key_index(prev, w, 0);
        if k < prev.len() {
            lemma_total_update(prev, k, (w, prev[k].1 + 1));
        } else {
            assert(prev.push((w, 1nat)).drop_last() =~= prev);
        }
        assert forall|i: int| 0 <= i < ws.len() implies key_index(count_table(ws), #[trigger] ws[i], 0)
            < count_table(ws).len() by {
            lemma_bump_keeps_keys(prev, w, ws[i]);
            if i < ws.len() - 1 {
                assert(ws.drop_last()[i] == ws[i]);
            }
        }
    }
}

proof fn lemma_key_index_range<V>(t: Seq<(Seq<char>, V)>, w: Seq<char>, k: int)
    requires
        0 <= k <= t.len(),
    ensures
        k <= key_index(t, w, k) <= t.len(),
        key_index(t, w, k) < t.len() ==> t[key_index(t, w, k)].0 == w,
        key_index(t, w, k) == t.len() ==> forall|j: int| k <= j < t.len() ==> #[trigger] t[j].0 != w,
    decreases t.len() - k,
{
    if k < t.len() && t[k].0 != w {
        lemma_key_index_range(t, w, k + 1);
    }
}

proof fn lemma_bump_keeps_keys(t: Seq<(Seq<char>, nat)>, w: Seq<char>, x: Seq<char>)
    ensures
        key_index(bump(t, w), w, 0) < bump(t, w).len(),
        key_index(t, x, 0) < t.len() ==> key_index(bump(t, w), x, 0) < bump(t, w).len(),
{
    let b = bump(t, w);
    lemma_key_index_range(t, w, 0);
    lemma_key_index_range(t, x, 0);
    lemma_key_index_range(b, w, 0);
    lemma_key_index_range(b, x, 0);
    let k = key_index(t, w, 0);
    if k < t.len() {
        assert(b[k].0 == w);
    } else {
        assert(b[t.len() as int].0 == w);
    }
    if key_index(t, x, 0) < t.len() {
        let j = key_index(t, x, 0);
        assert(b[j].0 == x);
    }
}

/// The order of `i32` values, as a relation.
pub open spec fn le_i32() -> spec_fn(i32, i32) -> bool {
    |x: i32, y: i32| x <= y
}

proof fn lemma_le_i32_total()
    ensures
        vstd::relations::total_ordering(le_i32()),
{
}

fn insert_sorted(out: &mut Vec<i32>, x: i32)
    requires
        vstd::relations::sorted_by(old(out)@, le_i32()),
    ensures
        vstd::relations::sorted_by(final(out)@, le_i32()),
        final(out)@.to_multiset() == old(out)@.to_multiset().insert(x),
{
    broadcast use vstd::seq_lib::group_to_multiset_ensures;

    let mut p: usize = 0;
    while p < out.len() && out[p] <= x
        invariant
            p <= out@.len(),
            forall|j: int| 0 <= j < p ==> out@[j] <= x,
        decreases out@.len() - p,
    {
        p = p + 1;
    }
    let ghost s = out@;
    out.insert(p, x);
    proof {
        let t = out@;
        assert(t =~= s.insert(p as int, x));
        assert forall|i: int, j: int| 0 <= i < j < t.len() implies #[trigger] le_i32()(t[i], t[j]) by {
            assert(le_i32()(s[0], s[0]) || s.len() == 0);
            if j < p {
                assert(le_i32()(s[i], s[j]));
            } else if j == p {
                assert(t[i] == s[i]);
            } else if i == p {
                assert(s[p as int] > x);
                assert(t[j] == s[j - 1]);
                if j - 1 > p {
                    assert(le_i32()(s[p as int], s[j - 1]));
                }
            } else if i < p {
                assert(t[j] == s[j - 1]);
                assert(s[p as int] > x || p == s.len());
                assert(le_i32()(s[i], s[j - 1]));
            } else {
                assert(le_i32()(s[i - 1], s[j - 1]));
            }
        }
        assert(t.remove(p as int) =~= s);
        assert(t[p as int] == x);
        assert(t.to_multiset().count(x) > 0);
        assert(s.to_multiset() == t.to_multiset().remove(x));
        assert(t.to_multiset() =~= s.to_multiset().insert(x));
    }
}

/// The values of `data` in non-decreasing order, as `slice::sort` leaves a
/// copy of it.
pub fn sorted_copy(data: &[i32]) -> (r: Vec<i32>)
    ensures
        r@ == data@.sort_by(le_i32()),
{
    broadcast use vstd::seq_lib::group_to_multiset_ensures;

    let mut out: Vec<i32> = Vec::new();
    let mut i: usize = 0;
    while i < data.len()
        invariant
            i <= data@.len(),
            vstd::relations::sorted_by(out@, le_i32()),
            out@.to_multiset() == data@.take(i as int).to_multiset(),
        decreases data@.len() - i,
    {
        insert_sorted(&mut out, data[i]);
        proof {
            let before = data@.take(i as int);
            assert(data@.take(i + 1) =~= before.push(data@[i as int]));
            vstd::seq_lib::to_multiset_build(before, data@[i as int]);
            assert(out@.to_multiset() =~= data@.take(i + 1).to_multiset());
        }
        i = i + 1;
    }
    proof {
        assert(data@.take(i as int) =~= data@);
        lemma_le_i32_total();
        data@.lemma_sort_by_ensures(le_i32());
        vstd::seq_lib::lemma_sorted_unique(out@, data@.sort_by(le_i32()), le_i32());
    }
    out
}

/// The middle of a sorted sequence: the central value for an odd count,
/// the two central values for an even count.
pub enum Middle {
    One(i32),
    Two(i32, i32),
}

/// The middle of `s` (nothing for an empty one).
pub open spec fn spec_middle(s: Seq<i32>) -> Option<Middle> {
    if s.len() == 0 {
        None
    } else if s.len() % 2 == 1 {
        Some(Middle::One(s[(s.len() / 2) as int]))
    } else {
        Some(Middle::Two(s[s.len() / 2 - 1], s[(s.len() / 2) as int]))
    }
}

/// What the median is taken from: the central value(s) of `data` in sorted
/// order; the caller averages two of them.
pub fn median_parts(data: &[i32]) -> (r: Option<Middle>)
    ensures
        r == spec_middle(data@.sort_by(le_i32())),
{
    let sorted = sorted_copy(data);
    proof {
        broadcast use vstd::seq_lib::group_to_multiset_ensures;

        lemma_le_i32_total();
        data@.lemma_sort_by_ensures(le_i32());
        vstd::seq_lib::to_multiset_len(data@);
        vstd::seq_lib::to_multiset_len(sorted@);
        assert(sorted@.len() == data@.len());
    }
    if data.len() == 0 {
        return None;
    }
    let len = sorted.len();
    if len % 2 == 1 {
        Some(Middle::One(sorted[len / 2]))
    } else {
        Some(Middle::Two(sorted[len / 2 - 1], sorted[len / 2]))
    }
}

/// The sum of `data`, or `None` when summing from the left overflows an
/// `i32` on the way (where `Iterator::sum` panics).
pub fn checked_total(data: &[i32]) -> (r: Option<i32>)
    ensures
        sums_fit(data@) ==> r == Some(seq_sum(data@) as i32),
        !sums_fit(data@) ==> r is None,
{
    let mut sum: i32 = 0;
    let mut i: usize = 0;
    while i < data.len()
        invariant
            i <= data@.len(),
            sum == seq_sum(data@.take(i as int)),
            forall|k: int| 0 <= k <= i ==> i32::MIN <= #[trigger] seq_sum(data@.take(k)) <= i32::MAX,
        decreases data@.len() - i,
    {
        proof {
            assert(data@.take(i + 1).drop_last() =~= data@.take(i as int));
        }
        match sum.checked_add(data[i]) {
            Some(t) => {
                sum = t;
            },
            None => {
                proof {
                    assert(!(i32::MIN <= seq_sum(data@.take(i + 1)) <= i32::MAX));
                }
                return None;
            },
        }
        i = i + 1;
    }
    proof {
        assert(data@.take(i as int) =~= data@);
    }
    Some(sum)
}

} // verus!
