//! Text primitives shared by the wire-format parsers: separator
//! classification, splitting a line into tokens, joining tokens back with
//! single spaces, and reading unsigned decimal numbers.
//!
//! Every function is specified over the characters of its text, a
//! `Seq<char>`.

use vstd::prelude::*;
use vstd::string::*;

verus! {

/// The characters that separate tokens: the Unicode `White_Space` set.
pub open spec fn is_space(c: char) -> bool {
    let u = c as u32;
    ||| 0x09 <= u <= 0x0D
    ||| u == 0x20
    ||| u == 0x85
    ||| u == 0xA0
    ||| u == 0x1680
    ||| 0x2000 <= u <= 0x200A
    ||| u == 0x2028
    ||| u == 0x2029
    ||| u == 0x202F
    ||| u == 0x205F
    ||| u == 0x3000
}

/// Every character of `s` is a separator.
pub open spec fn is_blank(s: Seq<char>) -> bool {
    forall|i: int| 0 <= i < s.len() ==> is_space(#[trigger] s[i])
}

/// No character of `s` is a separator.
pub open spec fn is_solid(s: Seq<char>) -> bool {
    forall|i: int| 0 <= i < s.len() ==> !is_space(#[trigger] s[i])
}

/// Length of the longest separator-free prefix of `s`.
pub open spec fn word_len(s: Seq<char>) -> nat
    decreases s.len(),
{
    if s.len() > 0 && !is_space(s[0]) {
        1 + word_len(s.drop_first())
    } else {
        0
    }
}

/// The tokens of `s`: its maximal separator-free runs, in order.
///
/// A leading separator is dropped; otherwise the first token is the longest
/// separator-free prefix and the remaining tokens come from what follows it.
pub open spec fn tokens(s: Seq<char>) -> Seq<Seq<char>>
    decreases s.len(),
    via tokens_terminates
{
    if s.len() == 0 {
        Seq::<Seq<char>>::empty()
    } else if is_space(s[0]) {
        tokens(s.drop_first())
    } else {
        seq![s.take(word_len(s) as int)] + tokens(s.skip(word_len(s) as int))
    }
}

#[via_fn]
proof fn tokens_terminates(s: Seq<char>) {
    lemma_word_len_bounds(s);
}

/// The words joined with exactly one space between neighbours.
pub open spec fn join_spaced(words: Seq<Seq<char>>) -> Seq<char>
    decreases words.len(),
{
    if words.len() == 0 {
        Seq::<char>::empty()
    } else if words.len() == 1 {
        words[0]
    } else {
        join_spaced(words.drop_last()) + seq![' '] + words.last()
    }
}

/// The texts of a vector of strings.
pub open spec fn string_views(words: Seq<String>) -> Seq<Seq<char>> {
    Seq::new(words.len(), |i: int| words[i]@)
}

/// `c` is one of the ASCII digits `0` to `9`.
pub open spec fn is_digit(c: char) -> bool {
    '0' <= c <= '9'
}

/// The number a single ASCII digit stands for.
pub open spec fn digit_value(c: char) -> nat
    recommends
        is_digit(c),
{
    (c as u32 - '0' as u32) as nat
}

/// Every character of `s` is an ASCII digit.
pub open spec fn all_digits(s: Seq<char>) -> bool {
    forall|i: int| 0 <= i < s.len() ==> is_digit(#[trigger] s[i])
}

/// The number written by a string of ASCII digits, most significant first.
pub open spec fn digits_value(s: Seq<char>) -> nat
    recommends
        all_digits(s),
    decreases s.len(),
{
    if s.len() == 0 {
        0
    } else {
        digits_value(s.drop_last()) * 10 + digit_value(s.last())
    }
}

/// The digits of a numeral: the numeral without one optional leading `+`.
pub open spec fn numeral_digits(s: Seq<char>) -> Seq<char> {
    if s.len() > 0 && s[0] == '+' {
        s.drop_first()
    } else {
        s
    }
}

/// The value of an unsigned decimal numeral: an optional `+` followed by at
/// least one ASCII digit and nothing else. Anything else has no value.
pub open spec fn decimal(s: Seq<char>) -> Option<nat> {
    let d = numeral_digits(s);
    if d.len() > 0 && all_digits(d) {
        Some(digits_value(d))
    } else {
        None
    }
}

/// The value of a numeral that must not exceed `limit`.
pub open spec fn decimal_within(s: Seq<char>, limit: nat) -> Option<nat> {
    match decimal(s) {
        Some(v) => if v <= limit {
            Some(v)
        } else {
            None
        },
        None => None,
    }
}

/// The longest separator-free prefix fits in the sequence, is separator-free,
/// ends where a separator or the end stands, and is not empty when the
/// sequence starts with a character that is no separator.
proof fn lemma_word_len_bounds(s: Seq<char>)
    ensures
        word_len(s) <= s.len(),
        is_solid(s.take(word_len(s) as int)),
        word_len(s) < s.len() ==> is_space(s[word_len(s) as int]),
        s.len() > 0 && !is_space(s[0]) ==> word_len(s) >= 1,
    decreases s.len(),
{
    if s.len() > 0 && !is_space(s[0]) {
        let rest = s.drop_first();
        lemma_word_len_bounds(rest);
        let n = word_len(s) as int;
        assert forall|i: int| 0 <= i < s.take(n).len() implies !is_space(
            #[trigger] s.take(n)[i],
        ) by {
            if i > 0 {
                assert(s.take(n)[i] == rest.take(n - 1)[i - 1]);
            }
        }
        if n < s.len() {
            assert(s[n] == rest[n - 1]);
        }
    }
}

/// A separator-free run that ends at a separator or at the end is the
/// longest separator-free prefix.
proof fn lemma_word_len_of_run(s: Seq<char>, n: int)
    requires
        0 <= n <= s.len(),
        is_solid(s.take(n)),
        n < s.len() ==> is_space(s[n]),
    ensures
        word_len(s) == n,
    decreases n,
{
    if n == 0 {
    } else {
        assert(s[0] == s.take(n)[0]);
        let rest = s.drop_first();
        assert forall|i: int| 0 <= i < rest.take(n - 1).len() implies !is_space(
            #[trigger] rest.take(n - 1)[i],
        ) by {
            assert(rest.take(n - 1)[i] == s.take(n)[i + 1]);
        }
        if n - 1 < rest.len() {
            assert(rest[n - 1] == s[n]);
        }
        lemma_word_len_of_run(rest, n - 1);
    }
}

/// Separators in front of a text do not change its tokens.
pub proof fn lemma_tokens_skip_blank(s: Seq<char>, n: int)
    requires
        0 <= n <= s.len(),
        is_blank(s.take(n)),
    ensures
        tokens(s) == tokens(s.skip(n)),
    decreases n,
{
    if n == 0 {
        assert(s.skip(0) =~= s);
    } else {
        assert(s[0] == s.take(n)[0]);
        let rest = s.drop_first();
        assert forall|i: int| 0 <= i < rest.take(n - 1).len() implies is_space(
            #[trigger] rest.take(n - 1)[i],
        ) by {
            assert(rest.take(n - 1)[i] == s.take(n)[i + 1]);
        }
        lemma_tokens_skip_blank(rest, n - 1);
        assert(rest.skip(n - 1) =~= s.skip(n));
    }
}

/// A text that starts with a word of `n` characters has that word as its
/// first token, followed by the tokens of the rest.
proof fn lemma_tokens_first_word(s: Seq<char>, n: int)
    requires
        0 < n <= s.len(),
        is_solid(s.take(n)),
        n < s.len() ==> is_space(s[n]),
    ensures
        tokens(s) == seq![s.take(n)] + tokens(s.skip(n)),
{
    lemma_word_len_of_run(s, n);
    assert(s[0] == s.take(n)[0]);
}

/// A text of separators only has no tokens.
pub proof fn lemma_tokens_of_blank(s: Seq<char>)
    requires
        is_blank(s),
    ensures
        tokens(s).len() == 0,
{
    assert(s.take(s.len() as int) =~= s);
    lemma_tokens_skip_blank(s, s.len() as int);
    assert(s.skip(s.len() as int).len() == 0);
}

/// Separators behind a text do not change its tokens.
pub proof fn lemma_tokens_append_blank(s: Seq<char>, blank: Seq<char>)
    requires
        is_blank(blank),
    ensures
        tokens(s + blank) == tokens(s),
    decreases s.len(),
{
    let whole = s + blank;
    if s.len() == 0 {
        assert(whole =~= blank);
        lemma_tokens_of_blank(blank);
    } else if is_space(s[0]) {
        assert(whole.drop_first() =~= s.drop_first() + blank);
        lemma_tokens_append_blank(s.drop_first(), blank);
    } else {
        lemma_word_len_bounds(s);
        let n = word_len(s) as int;
        assert(whole.take(n) =~= s.take(n));
        if n < s.len() {
            assert(whole[n] == s[n]);
        } else if n < whole.len() {
            assert(whole[n] == blank[0]);
        }
        lemma_word_len_of_run(whole, n);
        assert(whole.skip(n) =~= s.skip(n) + blank);
        lemma_tokens_append_blank(s.skip(n), blank);
    }
}

/// Every token is a non-empty separator-free run.
pub proof fn law_tokens_are_words(s: Seq<char>)
    ensures
        forall|k: int|
            0 <= k < tokens(s).len() ==> (#[trigger] tokens(s)[k]).len() > 0 && is_solid(
                tokens(s)[k],
            ),
    decreases s.len(),
{
    if s.len() == 0 {
    } else if is_space(s[0]) {
        law_tokens_are_words(s.drop_first());
        assert(tokens(s) == tokens(s.drop_first()));
    } else {
        lemma_word_len_bounds(s);
        let first = s.take(word_len(s) as int);
        let rest = tokens(s.skip(word_len(s) as int));
        law_tokens_are_words(s.skip(word_len(s) as int));
        assert(tokens(s) == seq![first] + rest);
        assert forall|k: int| 0 <= k < tokens(s).len() implies (#[trigger] tokens(s)[k]).len() > 0
            && is_solid(tokens(s)[k]) by {
            if k == 0 {
                assert(tokens(s)[0] == first);
            } else {
                assert(tokens(s)[k] == rest[k - 1]);
            }
        }
    }
}

/// Joining one more word onto a list of words.
proof fn lemma_join_push(words: Seq<Seq<char>>, word: Seq<char>)
    ensures
        join_spaced(words.push(word)) == if words.len() == 0 {
            word
        } else {
            join_spaced(words) + seq![' '] + word
        },
{
    assert(words.push(word).drop_last() =~= words);
}

/// Appending a digit to a digit string multiplies its value by ten and adds
/// the digit.
proof fn lemma_digits_value_push(s: Seq<char>, c: char)
    ensures
        digits_value(s.push(c)) == digits_value(s) * 10 + digit_value(c),
{
    assert(s.push(c).drop_last() =~= s);
}

/// The value of a digit string is at least the value of each of its prefixes.
proof fn lemma_digits_value_prefix(s: Seq<char>, n: int)
    requires
        0 <= n <= s.len(),
        all_digits(s),
    ensures
        digits_value(s.take(n)) <= digits_value(s),
    decreases s.len() - n,
{
    if n == s.len() {
        assert(s.take(n) =~= s);
    } else {
        lemma_digits_value_prefix(s, n + 1);
        assert(s.take(n + 1).drop_last() =~= s.take(n));
        assert(s.take(n + 1).last() == s[n]);
    }
}

/// The characters of `text`, in order.
pub fn chars_of(text: &str) -> (out: Vec<char>)
    ensures
        out@ == text@,
{
    let mut out: Vec<char> = Vec::new();
    for c in it: text.chars()
        invariant
            it.seq() == text@,
            out@ == it.seq().take(it.index() as int),
    {
        out.push(c);
    }
    out
}

/// Decides whether `c` separates tokens.
pub fn is_separator(c: char) -> (r: bool)
    ensures
        r == is_space(c),
{
    let u: u32 = c as u32;
    (0x09 <= u && u <= 0x0D) || u == 0x20 || u == 0x85 || u == 0xA0 || u == 0x1680 || (0x2000 <= u
        && u <= 0x200A) || u == 0x2028 || u == 0x2029 || u == 0x202F || u == 0x205F || u == 0x3000
}

/// The first position at or after `from` that holds no separator, or the
/// length of `chars` when only separators follow.
fn skip_separators(chars: &[char], from: usize) -> (r: usize)
    requires
        from <= chars@.len(),
    ensures
        from <= r <= chars@.len(),
        is_blank(chars@.subrange(from as int, r as int)),
        r < chars@.len() ==> !is_space(chars@[r as int]),
{
    let mut i: usize = from;
    while i < chars.len() && is_separator(chars[i])
        invariant
            from <= i <= chars@.len(),
            is_blank(chars@.subrange(from as int, i as int)),
        decreases chars@.len() - i,
    {
        i = i + 1;
        assert forall|k: int| 0 <= k < chars@.subrange(from as int, i as int).len() implies is_space(
            #[trigger] chars@.subrange(from as int, i as int)[k],
        ) by {
            if k < i - 1 - from {
                assert(chars@.subrange(from as int, i as int)[k] == chars@.subrange(
                    from as int,
                    i - 1,
                )[k]);
            }
        }
    }
    i
}

/// The end of the word that starts at `from`: the first position at or after
/// `from` that holds a separator, or the length of `chars`.
fn word_end(chars: &[char], from: usize) -> (r: usize)
    requires
        from <= chars@.len(),
    ensures
        from <= r <= chars@.len(),
        is_solid(chars@.subrange(from as int, r as int)),
        r < chars@.len() ==> is_space(chars@[r as int]),
        r - from == word_len(chars@.skip(from as int)),
{
    let mut i: usize = from;
    while i < chars.len() && !is_separator(chars[i])
        invariant
            from <= i <= chars@.len(),
            is_solid(chars@.subrange(from as int, i as int)),
        decreases chars@.len() - i,
    {
        i = i + 1;
        assert forall|k: int|
            0 <= k < chars@.subrange(from as int, i as int).len() implies !is_space(
            #[trigger] chars@.subrange(from as int, i as int)[k],
        ) by {
            if k < i - 1 - from {
                assert(chars@.subrange(from as int, i as int)[k] == chars@.subrange(
                    from as int,
                    i - 1,
                )[k]);
            }
        }
    }
    proof {
        let tail = chars@.skip(from as int);
        assert(tail.take(i - from) =~= chars@.subrange(from as int, i as int));
        lemma_word_len_of_run(tail, i - from);
    }
    i
}

/// Decides whether `c` is an ASCII digit.
fn is_decimal_digit(c: char) -> (r: bool)
    ensures
        r == is_digit(c),
{
    '0' <= c && c <= '9'
}

/// Reads the numeral `chars[from..to]` as an unsigned decimal number no
/// larger than `limit`.
fn parse_decimal(chars: &[char], from: usize, to: usize, limit: u64) -> (r: Option<u64>)
    requires
        from <= to <= chars@.len(),
    ensures
        r == match decimal_within(chars@.subrange(from as int, to as int), limit as nat) {
            Some(v) => Some(v as u64),
            None => None,
        },
{
    let ghost numeral = chars@.subrange(from as int, to as int);
    let mut start: usize = from;
    if start < to && chars[start] == '+' {
        start = start + 1;
    }
    let ghost digits = chars@.subrange(start as int, to as int);
    assert(digits =~= numeral_digits(numeral)) by {
        if from < to {
            assert(numeral[0] == chars@[from as int]);
        }
    }
    if start == to {
        return None;
    }
    let mut value: u64 = 0;
    let mut i: usize = start;
    while i < to
        invariant
            start <= i <= to <= chars@.len(),
            digits == numeral_digits(chars@.subrange(from as int, to as int)),
            digits == chars@.subrange(start as int, to as int),
            all_digits(digits.take(i - start)),
            value == digits_value(digits.take(i - start)),
            value <= limit,
        decreases to - i,
    {
        let c: char = chars[i];
        assert(c == digits[i - start]);
        if !is_decimal_digit(c) {
            assert(!is_digit(digits[i - start]));
            return None;
        }
        let d: u64 = (c as u32 - '0' as u32) as u64;
        proof {
            let before = digits.take(i - start);
            let after = digits.take(i + 1 - start);
            assert(after =~= before.push(c));
            lemma_digits_value_push(before, c);
            assert forall|k: int| 0 <= k < after.len() implies is_digit(#[trigger] after[k]) by {
                if k < before.len() {
                    assert(after[k] == before[k]);
                }
            }
        }
        if d > limit || value > (limit - d) / 10 {
            proof {
                let after = digits.take(i + 1 - start);
                assert(digits_value(after) > limit);
                if all_digits(digits) {
                    lemma_digits_value_prefix(digits, i + 1 - start);
                }
            }
            return None;
        }
        value = value * 10 + d;
        i = i + 1;
    }
    assert(digits.take(to - start) =~= digits);
    Some(value)
}

/// Splits `text` into its tokens: the maximal separator-free runs, in order.
pub fn split_tokens(text: &str) -> (words: Vec<String>)
    ensures
        string_views(words@) == tokens(text@),
{
    let chars: Vec<char> = chars_of(text);
    let n: usize = chars.len();
    let mut words: Vec<String> = Vec::new();
    let mut at: usize = 0;
    assert(text@.skip(0) =~= text@);
    assert(string_views(words@) + tokens(text@) =~= tokens(text@));
    loop
        invariant
            n == chars@.len(),
            chars@ == text@,
            at <= n,
            tokens(text@) == string_views(words@) + tokens(text@.skip(at as int)),
        ensures
            tokens(text@) == string_views(words@),
        decreases n - at,
    {
        let from: usize = skip_separators(chars.as_slice(), at);
        proof {
            let tail = text@.skip(at as int);
            assert(tail.take(from - at) =~= text@.subrange(at as int, from as int));
            lemma_tokens_skip_blank(tail, from - at);
            assert(tail.skip(from - at) =~= text@.skip(from as int));
        }
        if from == n {
            assert(text@.skip(from as int).len() == 0);
            assert(string_views(words@) + Seq::<Seq<char>>::empty() =~= string_views(words@));
            break;
        }
        let to: usize = word_end(chars.as_slice(), from);
        let ghost word = text@.subrange(from as int, to as int);
        let ghost found = string_views(words@);
        proof {
            let tail = text@.skip(from as int);
            assert(tail.take(to - from) =~= word);
            assert(tail.skip(to - from) =~= text@.skip(to as int));
            if to < n {
                assert(tail[to - from] == text@[to as int]);
            }
            lemma_tokens_first_word(tail, to - from);
            assert(found + (seq![word] + tokens(text@.skip(to as int))) =~= found.push(word)
                + tokens(text@.skip(to as int)));
        }
        words.push(text.substring_char(from, to).to_owned());
        assert(string_views(words@) =~= found.push(word));
        at = to;
    }
    words
}

/// Joins `words` with exactly one space between neighbours.
pub fn join_words(words: &Vec<String>) -> (joined: String)
    ensures
        joined@ == join_spaced(string_views(words@)),
{
    let mut joined: String = String::new();
    let mut i: usize = 0;
    while i < words.len()
        invariant
            i <= words@.len(),
            joined@ == join_spaced(string_views(words@).take(i as int)),
        decreases words@.len() - i,
    {
        proof {
            let all = string_views(words@);
            assert(all.take(i + 1) =~= all.take(i as int).push(words@[i as int]@));
            lemma_join_push(all.take(i as int), words@[i as int]@);
        }
        if i > 0 {
            proof {
                reveal_strlit(" ");
                assert(" "@ =~= seq![' ']);
            }
            joined.append(" ");
        }
        joined.append(words[i].as_str());
        i = i + 1;
    }
    assert(string_views(words@).take(i as int) =~= string_views(words@));
    joined
}

/// Reads `text` as an unsigned decimal number no larger than `limit`.
///
/// The numeral is an optional `+` and then one or more ASCII digits. The
/// result is `None` for every other text and for a number above `limit`.
pub fn parse_number(text: &str, limit: u64) -> (r: Option<u64>)
    ensures
        r == match decimal_within(text@, limit as nat) {
            Some(v) => Some(v as u64),
            None => None,
        },
{
    let chars: Vec<char> = chars_of(text);
    assert(chars@.subrange(0, chars@.len() as int) =~= text@);
    parse_decimal(chars.as_slice(), 0, chars.len(), limit)
}

} // verus!
