//! Character-level text handling shared by the grammars: character classes,
//! runs, trimming, whitespace splitting, substring removal and joining.
//!
//! Text is modelled as `Seq<char>`; executable code works on `Vec<char>`.

use vstd::prelude::*;

verus! {

/// Whether `c` is an ASCII character.
pub open spec fn is_ascii_char(c: char) -> bool {
    (c as u32) < 128
}

/// Whether `c` carries the Unicode `White_Space` property: one of the
/// controls from tab to carriage return, the space, next line, the
/// no-break space, the ogham space mark, the spaces from en quad to hair
/// space, the line and paragraph separators, the narrow no-break space, the
/// medium mathematical space or the ideographic space.
pub open spec fn is_whitespace_char(c: char) -> bool {
    let n = c as u32;
    ||| 0x09 <= n <= 0x0d
    ||| n == 0x20
    ||| n == 0x85
    ||| n == 0xa0
    ||| n == 0x1680
    ||| 0x2000 <= n <= 0x200a
    ||| n == 0x2028
    ||| n == 0x2029
    ||| n == 0x202f
    ||| n == 0x205f
    ||| n == 0x3000
}

/// Whether `c` is one of the ASCII letters and digits.
pub open spec fn is_ascii_alphanumeric(c: char) -> bool {
    let n = c as u32;
    ||| 0x30 <= n <= 0x39
    ||| 0x41 <= n <= 0x5a
    ||| 0x61 <= n <= 0x7a
}

/// The lowercase form of an ASCII character: the capital letters map to
/// the small ones, every other character to itself.
pub open spec fn ascii_lowercase_char(c: char) -> char {
    if 0x41 <= c as u32 <= 0x5a {
        ((c as u32) + 32) as char
    } else {
        c
    }
}

/// Whether `text` is made of ASCII characters only.
pub open spec fn is_ascii_text(text: Seq<char>) -> bool {
    forall|i: int| 0 <= i < text.len() ==> is_ascii_char(#[trigger] text[i])
}

/// Whether `c`, a character beyond ASCII, is alphabetic or numeric in
/// Unicode's sense, as `char::is_alphanumeric` reports it.
pub uninterp spec fn char_is_alphanumeric(c: char) -> bool;

/// The Unicode lowercase form of `text`, a text that reaches beyond ASCII,
/// as `str::to_lowercase` produces it. The mapping may change the number of
/// characters.
pub uninterp spec fn unicode_lowercase(text: Seq<char>) -> Seq<char>;

/// Whether `c` is alphabetic or numeric: by the ASCII letters and digits
/// within ASCII, in Unicode's sense beyond.
pub open spec fn is_alphanumeric_char(c: char) -> bool {
    if is_ascii_char(c) {
        is_ascii_alphanumeric(c)
    } else {
        char_is_alphanumeric(c)
    }
}

/// The lowercase form of `text`: character by character for an ASCII text,
/// Unicode's for any other.
pub open spec fn lowercase(text: Seq<char>) -> Seq<char> {
    if is_ascii_text(text) {
        Seq::new(text.len(), |i: int| ascii_lowercase_char(text[i]))
    } else {
        unicode_lowercase(text)
    }
}

/// `char::is_whitespace`. Trusted: the answer is the `White_Space` property,
/// whose characters are listed in `is_whitespace_char`.
pub assume_specification[ char::is_whitespace ](c: char) -> (b: bool)
    ensures
        b == is_whitespace_char(c),
;

/// `char::is_alphanumeric`. Trusted: within ASCII the letters and digits are
/// alphanumeric and nothing else is; beyond ASCII the answer is the named
/// Unicode property, which only depends on the character.
pub assume_specification[ char::is_alphanumeric ](c: char) -> (b: bool)
    ensures
        b == (if is_ascii_char(c) {
            is_ascii_alphanumeric(c)
        } else {
            char_is_alphanumeric(c)
        }),
;

/// `str::to_lowercase`. Trusted: an ASCII text is put in lowercase
/// character by character; the result for any other text is the named
/// lowercase form, which only depends on the text.
pub assume_specification[ str::to_lowercase ](s: &str) -> (lower: String)
    ensures
        lower@ == (if is_ascii_text(s@) {
            Seq::new(s@.len(), |i: int| ascii_lowercase_char(s@[i]))
        } else {
            unicode_lowercase(s@)
        }),
;

/// `String::push`. Trusted: the character is appended to the text.
pub assume_specification[ String::push ](s: &mut String, c: char)
    ensures
        final(s)@ == old(s)@.push(c),
;

/// Whether `c` is one of the ASCII digits `0` to `9`.
pub open spec fn is_digit(c: char) -> bool {
    48 <= c as u32 <= 57
}

/// A set of characters used to delimit runs.
#[derive(Clone, Copy, Debug)]
pub enum CharClass {
    Whitespace,
    NotWhitespace,
    Alphanumeric,
    /// The ten ASCII digits.
    Digit,
    Exactly(char),
}

impl CharClass {
    /// Whether `c` belongs to the class.
    pub open spec fn holds(self, c: char) -> bool {
        match self {
            CharClass::Whitespace => is_whitespace_char(c),
            CharClass::NotWhitespace => !is_whitespace_char(c),
            CharClass::Alphanumeric => is_alphanumeric_char(c),
            CharClass::Digit => is_digit(c),
            CharClass::Exactly(x) => c == x,
        }
    }

    pub(crate) fn contains(self, c: char) -> (b: bool)
        ensures
            b == self.holds(c),
    {
        match self {
            CharClass::Whitespace => c.is_whitespace(),
            CharClass::NotWhitespace => !c.is_whitespace(),
            CharClass::Alphanumeric => c.is_alphanumeric(),
            CharClass::Digit => 48 <= c as u32 && c as u32 <= 57,
            CharClass::Exactly(x) => c == x,
        }
    }
}

/// Length of the longest prefix of `s` made of characters of `class`.
pub open spec fn prefix_len(s: Seq<char>, class: CharClass) -> nat
    decreases s.len(),
{
    if s.len() > 0 && class.holds(s[0]) {
        1 + prefix_len(s.drop_first(), class)
    } else {
        0
    }
}

/// Length of the longest suffix of `s` made of characters of `class`.
pub open spec fn suffix_len(s: Seq<char>, class: CharClass) -> nat
    decreases s.len(),
{
    if s.len() > 0 && class.holds(s.last()) {
        1 + suffix_len(s.drop_last(), class)
    } else {
        0
    }
}

/// `s` without its leading and trailing whitespace.
pub open spec fn trim(s: Seq<char>) -> Seq<char> {
    let tail = s.skip(prefix_len(s, CharClass::Whitespace) as int);
    tail.take(tail.len() - suffix_len(tail, CharClass::Whitespace))
}

/// `s` without its trailing run of the character `c`.
pub open spec fn strip_trailing(s: Seq<char>, c: char) -> Seq<char> {
    s.take(s.len() - suffix_len(s, CharClass::Exactly(c)))
}

/// The leading run of alphanumeric characters of `s`.
pub open spec fn leading_alphanumeric(s: Seq<char>) -> Seq<char> {
    s.take(prefix_len(s, CharClass::Alphanumeric) as int)
}

/// The maximal runs of non-whitespace characters of `s`, in order.
pub open spec fn split_whitespace(s: Seq<char>) -> Seq<Seq<char>>
    decreases s.len(),
    via split_whitespace_decreases
{
    if s.len() == 0 {
        Seq::empty()
    } else if is_whitespace_char(s[0]) {
        split_whitespace(s.drop_first())
    } else {
        let n = prefix_len(s, CharClass::NotWhitespace);
        seq![s.take(n as int)] + split_whitespace(s.skip(n as int))
    }
}

#[via_fn]
proof fn split_whitespace_decreases(s: Seq<char>) {
    lemma_prefix_len_bound(s, CharClass::NotWhitespace);
}

/// `s` with every occurrence of `pattern` taken out, occurrences being found
/// from left to right without overlap. An empty pattern removes nothing.
pub open spec fn remove_all(s: Seq<char>, pattern: Seq<char>) -> Seq<char>
    decreases s.len(),
{
    if pattern.len() == 0 || s.len() < pattern.len() {
        s
    } else if s.take(pattern.len() as int) == pattern {
        remove_all(s.skip(pattern.len() as int), pattern)
    } else {
        seq![s[0]] + remove_all(s.drop_first(), pattern)
    }
}

/// The texts held by a vector of character vectors.
pub open spec fn words_view(words: Seq<Vec<char>>) -> Seq<Seq<char>> {
    Seq::new(words.len(), |i: int| words[i]@)
}

/// The texts of a list of lines.
pub open spec fn line_texts(lines: Seq<String>) -> Seq<Seq<char>> {
    Seq::new(lines.len(), |i: int| lines[i]@)
}

/// The words joined by single spaces.
pub open spec fn join_with_space(words: Seq<Seq<char>>) -> Seq<char>
    decreases words.len(),
{
    if words.len() == 0 {
        Seq::empty()
    } else if words.len() == 1 {
        words[0]
    } else {
        join_with_space(words.drop_last()) + seq![' '] + words.last()
    }
}

/// A run is no longer than the text it is counted in.
pub proof fn lemma_prefix_len_bound(s: Seq<char>, class: CharClass)
    ensures
        prefix_len(s, class) <= s.len(),
    decreases s.len(),
{
    if s.len() > 0 && class.holds(s[0]) {
        lemma_prefix_len_bound(s.drop_first(), class);
    }
}

/// A run counted by `prefix_len` is made of members of the class.
pub proof fn lemma_prefix_members(s: Seq<char>, class: CharClass, j: int)
    requires
        0 <= j < prefix_len(s, class),
    ensures
        j < s.len(),
        class.holds(s[j]),
    decreases s.len(),
{
    if j > 0 {
        lemma_prefix_members(s.drop_first(), class, j - 1);
    }
}

/// A run is as long as the stretch of members that a non-member or the end
/// of the text closes.
pub proof fn lemma_prefix_len_is(s: Seq<char>, class: CharClass, n: int)
    requires
        0 <= n <= s.len(),
        forall|j: int| 0 <= j < n ==> class.holds(#[trigger] s[j]),
        n < s.len() ==> !class.holds(s[n]),
    ensures
        prefix_len(s, class) == n,
    decreases n,
{
    if n > 0 {
        let rest = s.drop_first();
        assert forall|j: int| 0 <= j < n - 1 implies class.holds(#[trigger] rest[j]) by {
            assert(rest[j] == s[j + 1]);
        }
        lemma_prefix_len_is(rest, class, n - 1);
    }
}

/// A trailing run is as long as the stretch of members that a non-member or
/// the start of the text opens.
pub proof fn lemma_suffix_len_is(s: Seq<char>, class: CharClass, n: int)
    requires
        0 <= n <= s.len(),
        forall|j: int| s.len() - n <= j < s.len() ==> class.holds(#[trigger] s[j]),
        n < s.len() ==> !class.holds(s[s.len() - n - 1]),
    ensures
        suffix_len(s, class) == n,
    decreases n,
{
    if n > 0 {
        let rest = s.drop_last();
        assert forall|j: int| rest.len() - (n - 1) <= j < rest.len() implies class.holds(
            #[trigger] rest[j],
        ) by {
            assert(rest[j] == s[j]);
        }
        lemma_suffix_len_is(rest, class, n - 1);
    }
}

/// Whitespace before the first word does not count.
pub proof fn lemma_split_skips_whitespace(s: Seq<char>, k: int)
    requires
        0 <= k <= s.len(),
        forall|j: int| 0 <= j < k ==> is_whitespace_char(#[trigger] s[j]),
    ensures
        split_whitespace(s) == split_whitespace(s.skip(k)),
    decreases k,
{
    if k > 0 {
        let rest = s.drop_first();
        assert forall|j: int| 0 <= j < k - 1 implies is_whitespace_char(#[trigger] rest[j]) by {
            assert(rest[j] == s[j + 1]);
        }
        lemma_split_skips_whitespace(rest, k - 1);
        assert(rest.skip(k - 1) =~= s.skip(k));
    } else {
        assert(s.skip(0) =~= s);
    }
}

/// A text that starts with a word of `n` characters splits into that word
/// and the words of what follows it.
pub proof fn lemma_split_takes_word(s: Seq<char>, n: int)
    requires
        0 < n <= s.len(),
        forall|j: int| 0 <= j < n ==> !is_whitespace_char(#[trigger] s[j]),
        n < s.len() ==> is_whitespace_char(s[n]),
    ensures
        split_whitespace(s) == seq![s.take(n)] + split_whitespace(s.skip(n)),
{
    lemma_prefix_len_is(s, CharClass::NotWhitespace, n);
}

/// Where the pattern's first character does not occur among the first `k`
/// characters, and the pattern fits behind each of them, these characters
/// stay and the removal goes on behind them.
pub proof fn lemma_remove_all_keeps(s: Seq<char>, pattern: Seq<char>, k: int)
    requires
        pattern.len() > 0,
        0 <= k,
        k + pattern.len() <= s.len() + 1,
        forall|j: int| 0 <= j < k ==> #[trigger] s[j] != pattern[0],
    ensures
        remove_all(s, pattern) == s.take(k) + remove_all(s.skip(k), pattern),
    decreases k,
{
    if k > 0 {
        let rest = s.drop_first();
        assert(s.take(pattern.len() as int)[0] == s[0]);
        assert forall|j: int| 0 <= j < k - 1 implies #[trigger] rest[j] != pattern[0] by {
            assert(rest[j] == s[j + 1]);
        }
        lemma_remove_all_keeps(rest, pattern, k - 1);
        assert(rest.skip(k - 1) =~= s.skip(k));
        assert(seq![s[0]] + (rest.take(k - 1) + remove_all(s.skip(k), pattern)) =~= s.take(k)
            + remove_all(s.skip(k), pattern));
    } else {
        assert(s.skip(0) =~= s);
        assert(s.take(0) + remove_all(s, pattern) =~= remove_all(s, pattern));
    }
}

/// The characters of `s`, in order.
pub fn str_chars(s: &str) -> (chars: Vec<char>)
    ensures
        chars@ == s@,
{
    let mut chars: Vec<char> = Vec::new();
    for c in it: s.chars()
        invariant
            chars@ == it.seq().take(it.index() as int),
            it.seq() == s@,
    {
        chars.push(c);
    }
    chars
}

/// The text made of `chars`.
pub fn string_of(chars: &Vec<char>) -> (text: String)
    ensures
        text@ == chars@,
{
    let mut text = String::new();
    let mut i: usize = 0;
    while i < chars.len()
        invariant
            i <= chars@.len(),
            text@ == chars@.take(i as int),
        decreases chars@.len() - i,
    {
        text.push(chars[i]);
        proof {
            assert(chars@.take(i + 1) =~= chars@.take(i as int).push(chars@[i as int]));
        }
        i += 1;
    }
    proof {
        assert(chars@.take(i as int) =~= chars@);
    }
    text
}

/// The lowercase form of the text made of `chars`.
pub(crate) fn lowercased(chars: &Vec<char>) -> (lower: Vec<char>)
    ensures
        lower@ == lowercase(chars@),
{
    let text = string_of(chars);
    let lower = text.as_str().to_lowercase();
    str_chars(lower.as_str())
}

/// Whether `chars` spells exactly `word`.
pub(crate) fn spells(chars: &Vec<char>, word: &str) -> (b: bool)
    ensures
        b == (chars@ == word@),
{
    let n = word.unicode_len();
    if n != chars.len() {
        return false;
    }
    let mut i: usize = 0;
    while i < n
        invariant
            i <= n,
            n == chars@.len(),
            n == word@.len(),
            chars@.take(i as int) == word@.take(i as int),
        decreases n - i,
    {
        if chars[i] != word.get_char(i) {
            return false;
        }
        proof {
            assert(chars@.take(i + 1) =~= chars@.take(i as int).push(chars@[i as int]));
            assert(word@.take(i + 1) =~= word@.take(i as int).push(word@[i as int]));
        }
        i += 1;
    }
    proof {
        assert(chars@ =~= chars@.take(n as int));
        assert(word@ =~= word@.take(n as int));
    }
    true
}

/// The characters of `chars` from `from` up to `to`.
pub(crate) fn copy_range(chars: &Vec<char>, from: usize, to: usize) -> (out: Vec<char>)
    requires
        from <= to <= chars@.len(),
    ensures
        out@ == chars@.subrange(from as int, to as int),
{
    let mut out: Vec<char> = Vec::new();
    let mut i: usize = from;
    while i < to
        invariant
            from <= i <= to <= chars@.len(),
            out@ == chars@.subrange(from as int, i as int),
        decreases to - i,
    {
        out.push(chars[i]);
        proof {
            assert(chars@.subrange(from as int, i + 1) =~= chars@.subrange(
                from as int,
                i as int,
            ).push(chars@[i as int]));
        }
        i += 1;
    }
    out
}

/// Whether `c` occurs in `chars`.
pub(crate) fn has_char(chars: &Vec<char>, c: char) -> (b: bool)
    ensures
        b == chars@.contains(c),
{
    let mut i: usize = 0;
    while i < chars.len()
        invariant
            i <= chars@.len(),
            forall|j: int| 0 <= j < i ==> chars@[j] != c,
        decreases chars@.len() - i,
    {
        if chars[i] == c {
            return true;
        }
        i += 1;
    }
    false
}

/// Counts the run of characters of `class` that starts at `from`.
pub(crate) fn count_prefix(chars: &Vec<char>, from: usize, class: CharClass) -> (n: usize)
    requires
        from <= chars@.len(),
    ensures
        n == prefix_len(chars@.skip(from as int), class),
        from + n <= chars@.len(),
{
    let mut i: usize = from;
    while i < chars.len() && class.contains(chars[i])
        invariant
            from <= i <= chars@.len(),
            prefix_len(chars@.skip(from as int), class) == (i - from) + prefix_len(
                chars@.skip(i as int),
                class,
            ),
        decreases chars@.len() - i,
    {
        proof {
            assert(chars@.skip(i as int).drop_first() =~= chars@.skip(i + 1));
        }
        i += 1;
    }
    i - from
}

/// Counts the run of characters of `class` that ends just before `to`.
pub(crate) fn count_suffix(chars: &Vec<char>, to: usize, class: CharClass) -> (n: usize)
    requires
        to <= chars@.len(),
    ensures
        n == suffix_len(chars@.take(to as int), class),
        n <= to,
{
    let mut i: usize = to;
    while i > 0 && class.contains(chars[i - 1])
        invariant
            i <= to <= chars@.len(),
            suffix_len(chars@.take(to as int), class) == (to - i) + suffix_len(
                chars@.take(i as int),
                class,
            ),
        decreases i,
    {
        proof {
            assert(chars@.take(i as int).drop_last() =~= chars@.take(i - 1));
        }
        i -= 1;
    }
    to - i
}

/// `chars` without leading and trailing whitespace.
pub(crate) fn trimmed(chars: &Vec<char>) -> (out: Vec<char>)
    ensures
        out@ == trim(chars@),
{
    let start = count_prefix(chars, 0, CharClass::Whitespace);
    let tail = copy_range(chars, start, chars.len());
    proof {
        assert(chars@.skip(0) =~= chars@);
        assert(chars@.subrange(start as int, chars@.len() as int) =~= chars@.skip(start as int));
    }
    let back = count_suffix(&tail, tail.len(), CharClass::Whitespace);
    proof {
        assert(tail@.take(tail@.len() as int) =~= tail@);
    }
    let out = copy_range(&tail, 0, tail.len() - back);
    proof {
        assert(tail@.subrange(0, tail@.len() - back) =~= tail@.take(tail@.len() - back));
    }
    out
}

/// `chars` without its trailing run of `c`.
pub(crate) fn without_trailing(chars: &Vec<char>, c: char) -> (out: Vec<char>)
    ensures
        out@ == strip_trailing(chars@, c),
{
    let back = count_suffix(chars, chars.len(), CharClass::Exactly(c));
    proof {
        assert(chars@.take(chars@.len() as int) =~= chars@);
    }
    let out = copy_range(chars, 0, chars.len() - back);
    proof {
        assert(chars@.subrange(0, chars@.len() - back) =~= chars@.take(chars@.len() - back));
    }
    out
}

/// Splits `chars` into its whitespace-separated words.
pub(crate) fn words_of(chars: &Vec<char>) -> (words: Vec<Vec<char>>)
    ensures
        words_view(words@) == split_whitespace(chars@),
{
    let mut words: Vec<Vec<char>> = Vec::new();
    let mut i: usize = 0;
    proof {
        assert(chars@.skip(0) =~= chars@);
        assert(words_view(words@) + split_whitespace(chars@) =~= split_whitespace(chars@));
    }
    while i < chars.len()
        invariant
            i <= chars@.len(),
            split_whitespace(chars@) == words_view(words@) + split_whitespace(
                chars@.skip(i as int),
            ),
        decreases chars@.len() - i,
    {
        let ghost rest = chars@.skip(i as int);
        if chars[i].is_whitespace() {
            proof {
                assert(rest.drop_first() =~= chars@.skip(i + 1));
            }
            i += 1;
        } else {
            let n = count_prefix(chars, i, CharClass::NotWhitespace);
            let word = copy_range(chars, i, i + n);
            let ghost before = words_view(words@);
            words.push(word);
            proof {
                assert(chars@.subrange(i as int, i + n) =~= rest.take(n as int));
                assert(rest.skip(n as int) =~= chars@.skip(i + n));
                assert(words_view(words@) =~= before.push(rest.take(n as int)));
                assert(before.push(rest.take(n as int)) + split_whitespace(chars@.skip(i + n))
                    =~= before + (seq![rest.take(n as int)] + split_whitespace(
                    chars@.skip(i + n),
                )));
            }
            i += n;
        }
    }
    proof {
        assert(chars@.skip(chars@.len() as int) =~= Seq::<char>::empty());
        assert(words_view(words@) + Seq::<Seq<char>>::empty() =~= words_view(words@));
    }
    words
}

/// Whether `pattern` stands in `chars` at position `at`.
pub(crate) fn matches_at(chars: &Vec<char>, at: usize, pattern: &Vec<char>) -> (b: bool)
    requires
        at + pattern@.len() <= chars@.len(),
    ensures
        b == (chars@.subrange(at as int, at + pattern@.len()) == pattern@),
{
    let m = pattern.len();
    let n = chars.len();
    let mut k: usize = 0;
    while k < m
        invariant
            k <= m,
            m == pattern@.len(),
            n == chars@.len(),
            at + m <= n,
            forall|j: int| 0 <= j < k ==> chars@[at + j] == pattern@[j],
        decreases m - k,
    {
        if chars[at + k] != pattern[k] {
            proof {
                assert(chars@.subrange(at as int, at + m)[k as int] != pattern@[k as int]);
            }
            return false;
        }
        k += 1;
    }
    proof {
        assert(chars@.subrange(at as int, at + m) =~= pattern@);
    }
    true
}

/// `chars` with every occurrence of `pattern` removed.
pub(crate) fn without_pattern(chars: &Vec<char>, pattern: &Vec<char>) -> (out: Vec<char>)
    ensures
        out@ == remove_all(chars@, pattern@),
{
    let n = chars.len();
    let m = pattern.len();
    let mut out: Vec<char> = Vec::new();
    if m == 0 {
        return copy_range(chars, 0, n);
    }
    let mut i: usize = 0;
    proof {
        assert(chars@.skip(0) =~= chars@);
        assert(out@ + remove_all(chars@, pattern@) =~= remove_all(chars@, pattern@));
    }
    while i < n
        invariant
            i <= n,
            n == chars@.len(),
            m == pattern@.len(),
            m > 0,
            remove_all(chars@, pattern@) == out@ + remove_all(chars@.skip(i as int), pattern@),
        decreases n - i,
    {
        let ghost rest = chars@.skip(i as int);
        if n - i >= m && matches_at(chars, i, pattern) {
            proof {
                assert(rest.take(m as int) =~= chars@.subrange(i as int, i + m));
                assert(rest.skip(m as int) =~= chars@.skip(i + m));
            }
            i += m;
        } else {
            proof {
                assert(rest.drop_first() =~= chars@.skip(i + 1));
                if n - i >= m {
                    assert(rest.take(m as int) =~= chars@.subrange(i as int, i + m));
                } else {
                    assert(remove_all(rest, pattern@) == rest);
                    assert(remove_all(rest.drop_first(), pattern@) == rest.drop_first());
                    assert(rest =~= seq![rest[0]] + rest.drop_first());
                }
                assert(out@.push(chars@[i as int]) + remove_all(chars@.skip(i + 1), pattern@)
                    =~= out@ + (seq![rest[0]] + remove_all(rest.drop_first(), pattern@)));
            }
            out.push(chars[i]);
            i += 1;
        }
    }
    proof {
        assert(chars@.skip(n as int) =~= Seq::<char>::empty());
        assert(out@ + Seq::<char>::empty() =~= out@);
    }
    out
}

/// The first `count` words joined by single spaces.
pub(crate) fn joined(words: &Vec<Vec<char>>, count: usize) -> (out: Vec<char>)
    requires
        count <= words@.len(),
    ensures
        out@ == join_with_space(words_view(words@).take(count as int)),
{
    let mut out: Vec<char> = Vec::new();
    let mut k: usize = 0;
    while k < count
        invariant
            k <= count <= words@.len(),
            out@ == join_with_space(words_view(words@).take(k as int)),
        decreases count - k,
    {
        let ghost before = out@;
        if k > 0 {
            out.push(' ');
        }
        let word = &words[k];
        let mut j: usize = 0;
        while j < word.len()
            invariant
                j <= word@.len(),
                out@ == (if k > 0 {
                    before + seq![' ']
                } else {
                    before
                }) + word@.take(j as int),
            decreases word@.len() - j,
        {
            out.push(word[j]);
            proof {
                assert(word@.take(j + 1) =~= word@.take(j as int).push(word@[j as int]));
            }
            j += 1;
        }
        proof {
            let ghost upto = words_view(words@).take(k + 1);
            assert(word@.take(word@.len() as int) =~= word@);
            assert(upto.drop_last() =~= words_view(words@).take(k as int));
            assert(upto.last() == word@);
            if k == 0 {
                assert(before =~= Seq::<char>::empty());
                assert(before + word@ =~= word@);
                assert(upto[0] == word@);
            }
        }
        k += 1;
    }
    out
}

} // verus!
