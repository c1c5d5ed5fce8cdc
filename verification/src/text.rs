//! Text as sequences of characters: whitespace, words, substring search and
//! decimal numerals.
use vstd::prelude::*;

verus! {

/// `String::push` appends one character to the end of the string.
pub assume_specification[ String::push ](s: &mut String, ch: char)
    ensures
        final(s)@ == old(s)@.push(ch),
;

/// The characters with the Unicode `White_Space` property.
pub open spec fn is_whitespace(c: char) -> bool {
    let u = c as u32;
    ||| 0x09 <= u <= 0x0d
    ||| u == 0x20
    ||| u == 0x85
    ||| u == 0xa0
    ||| u == 0x1680
    ||| 0x2000 <= u <= 0x200a
    ||| u == 0x2028
    ||| u == 0x2029
    ||| u == 0x202f
    ||| u == 0x205f
    ||| u == 0x3000
}

/// Tells whether `c` is a whitespace character.
pub fn whitespace(c: char) -> (r: bool)
    ensures
        r == is_whitespace(c),
{
    let u: u32 = c as u32;
    (0x09 <= u && u <= 0x0d) || u == 0x20 || u == 0x85 || u == 0xa0 || u == 0x1680 || (0x2000 <= u
        && u <= 0x200a) || u == 0x2028 || u == 0x2029 || u == 0x202f || u == 0x205f || u == 0x3000
}

/// The characters of `s`, in order.
pub fn chars_of(s: &str) -> (r: Vec<char>)
    ensures
        r@ == s@,
{
    let mut out: Vec<char> = Vec::new();
    for c in it: s.chars()
        invariant
            out@ == it.seq().take(it.index() as int),
    {
        out.push(c);
    }
    out
}

/// The string made of the characters `chars[from..to]`.
pub fn string_of(chars: &Vec<char>, from: usize, to: usize) -> (r: String)
    requires
        from <= to <= chars.len(),
    ensures
        r@ == chars@.subrange(from as int, to as int),
{
    let mut out = String::new();
    let mut i: usize = from;
    while i < to
        invariant
            from <= i <= to <= chars.len(),
            out@ == chars@.subrange(from as int, i as int),
        decreases to - i,
    {
        out.push(chars[i]);
        i += 1;
    }
    out
}

/// Every character of `s` is whitespace; the empty text is blank.
pub open spec fn is_blank(s: Seq<char>) -> bool {
    forall|i: int| 0 <= i < s.len() ==> is_whitespace(#[trigger] s[i])
}

/// Tells whether `s` is empty once the whitespace around it is trimmed away.
pub fn blank(s: &str) -> (r: bool)
    ensures
        r == is_blank(s@),
{
    for c in it: s.chars()
        invariant
            it.seq() == s@,
            forall|j: int| 0 <= j < it.index() ==> is_whitespace(#[trigger] it.seq()[j]),
    {
        if !whitespace(c) {
            return false;
        }
    }
    true
}

/// `pattern` stands in `text` at position `at`.
pub open spec fn occurs_at(text: Seq<char>, pattern: Seq<char>, at: int) -> bool {
    &&& 0 <= at
    &&& at + pattern.len() <= text.len()
    &&& text.subrange(at, at + pattern.len()) == pattern
}

/// `pattern` stands somewhere in `text`. The empty pattern stands in every text.
pub open spec fn occurs(text: Seq<char>, pattern: Seq<char>) -> bool {
    exists|at: int| occurs_at(text, pattern, at)
}

/// `at` is the leftmost position at which `pattern` stands in `text`.
pub open spec fn is_first_occurrence(text: Seq<char>, pattern: Seq<char>, at: int) -> bool {
    &&& occurs_at(text, pattern, at)
    &&& forall|earlier: int| 0 <= earlier < at ==> !occurs_at(text, pattern, earlier)
}

/// The leftmost position at which `pattern` stands in `text`; meaningful where
/// it occurs at all.
pub open spec fn first_occurrence(text: Seq<char>, pattern: Seq<char>) -> int {
    choose|at: int| is_first_occurrence(text, pattern, at)
}

/// There is one leftmost occurrence at most, so `first_occurrence` is the
/// position that a search from the left finds.
pub proof fn lemma_first_occurrence(text: Seq<char>, pattern: Seq<char>, at: int)
    requires
        is_first_occurrence(text, pattern, at),
    ensures
        occurs(text, pattern),
        first_occurrence(text, pattern) == at,
{
    let found = first_occurrence(text, pattern);
    if found < at {
    }
    if at < found {
    }
}

/// Tells whether `pattern` stands in `text` at position `at`.
fn matches_at(text: &Vec<char>, pattern: &Vec<char>, at: usize) -> (r: bool)
    requires
        at + pattern.len() <= text.len(),
    ensures
        r == occurs_at(text@, pattern@, at as int),
{
    let mut k: usize = 0;
    while k < pattern.len()
        invariant
            k <= pattern.len(),
            at + pattern.len() <= text.len(),
            forall|j: int| 0 <= j < k ==> text@[at + j] == #[trigger] pattern@[j],
        decreases pattern.len() - k,
    {
        if text[at + k] != pattern[k] {
            return false;
        }
        k += 1;
    }
    assert(text@.subrange(at as int, at + pattern.len()) =~= pattern@);
    true
}

/// Searches `text` from the left for `pattern`.
pub fn find(text: &Vec<char>, pattern: &Vec<char>) -> (r: Option<usize>)
    ensures
        r is Some <==> occurs(text@, pattern@),
        r matches Some(at) ==> at == first_occurrence(text@, pattern@) && is_first_occurrence(
            text@,
            pattern@,
            at as int,
        ),
{
    if pattern.len() > text.len() {
        assert forall|at: int| !occurs_at(text@, pattern@, at) by {}
        return None;
    }
    let last: usize = text.len() - pattern.len();
    let mut at: usize = 0;
    loop
        invariant_except_break
            at <= last,
            forall|earlier: int| 0 <= earlier < at ==> !occurs_at(text@, pattern@, earlier),
        invariant
            last == text.len() - pattern.len(),
        ensures
            forall|i: int| 0 <= i <= last ==> !occurs_at(text@, pattern@, i),
        decreases last - at,
    {
        if matches_at(text, pattern, at) {
            proof {
                lemma_first_occurrence(text@, pattern@, at as int);
            }
            return Some(at);
        }
        if at == last {
            break ;
        }
        at += 1;
    }
    assert forall|i: int| !occurs_at(text@, pattern@, i) by {}
    None
}

/// The end of the run of non-whitespace characters that holds position `i`:
/// the first position from `i` on that holds whitespace, or the length of `s`.
pub open spec fn word_end(s: Seq<char>, i: int) -> int
    decreases s.len() - i,
{
    if 0 <= i < s.len() && !is_whitespace(s[i]) {
        word_end(s, i + 1)
    } else {
        i
    }
}

/// A word starts at `i`: a character that is no whitespace, at the start of
/// the text or right after whitespace.
pub open spec fn is_word_start(s: Seq<char>, i: int) -> bool {
    &&& 0 <= i < s.len()
    &&& !is_whitespace(s[i])
    &&& (i == 0 || is_whitespace(s[i - 1]))
}

/// The words that start at position `i` or later, in order. A word is a
/// maximal run of characters that are no whitespace.
pub open spec fn words_from(s: Seq<char>, i: int) -> Seq<Seq<char>>
    decreases s.len() - i,
{
    if i < 0 || i >= s.len() {
        Seq::empty()
    } else if is_word_start(s, i) {
        seq![s.subrange(i, word_end(s, i))] + words_from(s, i + 1)
    } else {
        words_from(s, i + 1)
    }
}

/// The words of `s`: what is left when `s` is split at whitespace and the
/// empty pieces are dropped.
pub open spec fn words(s: Seq<char>) -> Seq<Seq<char>> {
    words_from(s, 0)
}

/// Where word `j` of `ws` starts once the words are laid out with a single
/// separator after each: the lengths of the words before it, and one more for
/// each of them.
pub open spec fn word_offset(ws: Seq<Seq<char>>, j: int) -> int
    decreases j,
{
    if j <= 0 {
        0
    } else {
        word_offset(ws, j - 1) + ws[j - 1].len() + 1
    }
}

/// `word_end` lies between its start and the end of the text, and the
/// characters up to it are no whitespace.
pub proof fn lemma_word_end(s: Seq<char>, i: int)
    requires
        0 <= i <= s.len(),
    ensures
        i <= word_end(s, i) <= s.len(),
        forall|j: int| i <= j < word_end(s, i) ==> !is_whitespace(#[trigger] s[j]),
        word_end(s, i) < s.len() ==> is_whitespace(s[word_end(s, i)]),
    decreases s.len() - i,
{
    if i < s.len() && !is_whitespace(s[i]) {
        lemma_word_end(s, i + 1);
    }
}

/// No word starts strictly inside a run of non-whitespace characters.
proof fn lemma_words_skip_run(s: Seq<char>, i: int, j: int)
    requires
        0 <= i <= j <= s.len(),
        i > 0,
        forall|k: int| i - 1 <= k < j ==> !is_whitespace(#[trigger] s[k]),
    ensures
        words_from(s, i) == words_from(s, j),
    decreases j - i,
{
    if i < j {
        lemma_words_skip_run(s, i + 1, j);
    }
}

/// The offsets of the first words of a list do not depend on what follows them.
proof fn lemma_word_offset_prefix(a: Seq<Seq<char>>, b: Seq<Seq<char>>, j: int)
    requires
        0 <= j <= a.len(),
    ensures
        word_offset(a + b, j) == word_offset(a, j),
    decreases j,
{
    if j > 0 {
        lemma_word_offset_prefix(a, b, j - 1);
    }
}

/// The offset of a word after the first is the first word's length, one
/// separator, and the word's offset among the words after the first.
proof fn lemma_word_offset_after_first(w: Seq<char>, rest: Seq<Seq<char>>, j: int)
    requires
        1 <= j <= rest.len() + 1,
    ensures
        word_offset(seq![w] + rest, j) == w.len() + 1 + word_offset(rest, j - 1),
    decreases j,
{
    let all = seq![w] + rest;
    if j > 1 {
        lemma_word_offset_after_first(w, rest, j - 1);
    } else {
        assert(word_offset(all, 0) == 0);
    }
}

/// Laid out with single separators, the words that start at `i` or later
/// take no more room than the text has from `i` on.
proof fn lemma_words_from_fit(s: Seq<char>, i: int, j: int)
    requires
        0 <= i <= s.len(),
        0 <= j < words_from(s, i).len(),
    ensures
        word_offset(words_from(s, i), j) + words_from(s, i)[j].len() <= s.len() - i,
    decreases s.len() - i,
{
    if i < s.len() {
        if is_word_start(s, i) {
            let end = word_end(s, i);
            let w = s.subrange(i, end);
            let rest = words_from(s, i + 1);
            lemma_word_end(s, i);
            assert(end > i) by {
                lemma_word_end(s, i + 1);
            }
            if j > 0 {
                lemma_word_offset_after_first(w, rest, j);
                lemma_words_skip_run(s, i + 1, end);
                lemma_words_from_fit(s, end + 1, j - 1);
            } else {
            }
        } else {
            lemma_words_from_fit(s, i + 1, j);
        }
    }
}

/// Laid out with a single separator after each, every word of `s` still ends
/// within the length of `s`.
pub proof fn lemma_word_offsets_fit(s: Seq<char>, j: int)
    requires
        0 <= j < words(s).len(),
    ensures
        0 <= word_offset(words(s), j),
        word_offset(words(s), j) + words(s)[j].len() <= s.len(),
{
    lemma_words_from_fit(s, 0, j);
    lemma_word_offset_nonnegative(words(s), j);
}

/// Offsets are never negative.
pub proof fn lemma_word_offset_nonnegative(ws: Seq<Seq<char>>, j: int)
    ensures
        0 <= word_offset(ws, j),
    decreases j,
{
    if j > 0 {
        lemma_word_offset_nonnegative(ws, j - 1);
    }
}

/// Splits `text` at whitespace into its words.
pub fn split_words(text: &str) -> (r: Vec<String>)
    ensures
        r.deep_view() == words(text@),
{
    let chars = chars_of(text);
    let n: usize = chars.len();
    let mut out: Vec<String> = Vec::new();
    let mut i: usize = 0;
    while i < n
        invariant
            i <= n,
            n == chars.len(),
            chars@ == text@,
            i == 0 || i == n || is_whitespace(chars@[i - 1]) || is_whitespace(chars@[i as int]),
            words(text@) == out.deep_view() + words_from(text@, i as int),
        decreases n - i,
    {
        if whitespace(chars[i]) {
            i += 1;
        } else {
            let start: usize = i;
            let mut end: usize = i + 1;
            while end < n && !whitespace(chars[end])
                invariant
                    start < end <= n,
                    n == chars.len(),
                    word_end(chars@, start as int) == word_end(chars@, end as int),
                    forall|k: int| start <= k < end ==> !is_whitespace(#[trigger] chars@[k]),
                decreases n - end,
            {
                end += 1;
            }
            let word = string_of(&chars, start, end);
            proof {
                lemma_words_skip_run(text@, start + 1, end as int);
            }
            out.push(word);
            i = end;
        }
    }
    out
}

/// The character that writes the digit `d`.
pub open spec fn digit_char(d: int) -> char {
    if d == 0 {
        '0'
    } else if d == 1 {
        '1'
    } else if d == 2 {
        '2'
    } else if d == 3 {
        '3'
    } else if d == 4 {
        '4'
    } else if d == 5 {
        '5'
    } else if d == 6 {
        '6'
    } else if d == 7 {
        '7'
    } else if d == 8 {
        '8'
    } else {
        '9'
    }
}

/// The decimal numeral of `n`, without leading zeros.
pub open spec fn decimal(n: nat) -> Seq<char>
    decreases n,
{
    if n < 10 {
        seq![digit_char(n as int)]
    } else {
        decimal(n / 10).push(digit_char((n % 10) as int))
    }
}

/// The decimal numeral of `v`, with a minus sign in front where `v` is negative.
pub open spec fn signed_decimal(v: int) -> Seq<char> {
    if v < 0 {
        seq!['-'] + decimal((-v) as nat)
    } else {
        decimal(v as nat)
    }
}

fn digit(d: u64) -> (c: char)
    requires
        d < 10,
    ensures
        c == digit_char(d as int),
{
    if d == 0 {
        '0'
    } else if d == 1 {
        '1'
    } else if d == 2 {
        '2'
    } else if d == 3 {
        '3'
    } else if d == 4 {
        '4'
    } else if d == 5 {
        '5'
    } else if d == 6 {
        '6'
    } else if d == 7 {
        '7'
    } else if d == 8 {
        '8'
    } else {
        '9'
    }
}

/// Appends the decimal numeral of `v` to `out`.
pub fn push_decimal(out: &mut String, v: u64)
    ensures
        final(out)@ == old(out)@ + decimal(v as nat),
{
    // The digits come out lowest first.
    let mut low_first: Vec<char> = Vec::new();
    let mut rest: u64 = v;
    while rest >= 10
        invariant
            decimal(v as nat) == decimal(rest as nat) + low_first@.reverse(),
        decreases rest,
    {
        let ghost before = low_first@;
        let c = digit(rest % 10);
        low_first.push(c);
        proof {
            assert(decimal((rest / 10) as nat).push(c) + before.reverse() =~= decimal(
                (rest / 10) as nat,
            ) + (seq![c] + before.reverse()));
        }
        rest = rest / 10;
    }
    low_first.push(digit(rest));
    let mut i: usize = low_first.len();
    while i > 0
        invariant
            i <= low_first.len(),
            out@ == old(out)@ + low_first@.reverse().take(low_first.len() - i),
        decreases i,
    {
        i -= 1;
        out.push(low_first[i]);
    }
}

/// Appends the decimal numeral of `v` to `out`, with its sign where `v` is negative.
pub fn push_signed_decimal(out: &mut String, v: i64)
    ensures
        final(out)@ == old(out)@ + signed_decimal(v as int),
{
    if v < 0 {
        out.push('-');
        // `-v` may not fit where `v` is the least value; `-(v + 1) + 1` does.
        let magnitude: u64 = (-(v + 1)) as u64 + 1;
        push_decimal(out, magnitude);
    } else {
        push_decimal(out, v as u64);
    }
}

/// A numeral has one digit at least.
pub proof fn lemma_decimal_has_digits(n: nat)
    ensures
        decimal(n).len() >= 1,
    decreases n,
{
    if n >= 10 {
        lemma_decimal_has_digits(n / 10);
    }
}

/// Two numbers with one numeral are one number.
pub proof fn lemma_decimal_is_one_to_one(a: nat, b: nat)
    requires
        decimal(a) == decimal(b),
    ensures
        a == b,
    decreases a,
{
    lemma_decimal_has_digits(a / 10);
    lemma_decimal_has_digits(b / 10);
    if a < 10 && b < 10 {
        assert(decimal(a)[0] == digit_char(a as int));
        assert(decimal(b)[0] == digit_char(b as int));
    } else if a >= 10 && b >= 10 {
        let shorter_a = decimal(a / 10);
        let shorter_b = decimal(b / 10);
        assert(decimal(a).last() == digit_char((a % 10) as int));
        assert(decimal(b).last() == digit_char((b % 10) as int));
        assert(a % 10 == b % 10);
        assert(shorter_a =~= decimal(a).drop_last());
        assert(shorter_b =~= decimal(b).drop_last());
        lemma_decimal_is_one_to_one(a / 10, b / 10);
    } else if a >= 10 {
        assert(decimal(a).len() >= 2);
        assert(decimal(b).len() == 1);
    } else {
        assert(decimal(b).len() >= 2);
        assert(decimal(a).len() == 1);
    }
}

} // verus!
