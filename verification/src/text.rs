//! Text as sequences of characters: what the library takes on trust from the
//! standard library, and the small verified helpers built on it.

use vstd::prelude::*;
use vstd::string::StrSliceExecFns;

verus! {

/// Whether a character has the Unicode property White_Space, as
/// `char::is_whitespace` answers.
pub uninterp spec fn unicode_white_space(c: char) -> bool;

/// `char::is_whitespace`: the answer is a function of the character alone,
/// and `unicode_white_space` is its name. Taken on trust.
pub assume_specification[ char::is_whitespace ](c: char) -> (b: bool)
    ensures
        b == unicode_white_space(c),
;

/// White space: in ASCII the space and the characters from tab to carriage
/// return, any other character by its Unicode property.
pub open spec fn white_space(c: char) -> bool {
    if c <= '\x7f' {
        c == ' ' || ('\x09' <= c && c <= '\x0d')
    } else {
        unicode_white_space(c)
    }
}

/// Whether `c` is white space.
pub fn is_white_space(c: char) -> (b: bool)
    ensures
        b == white_space(c),
{
    if c <= '\x7f' {
        c == ' ' || ('\x09' <= c && c <= '\x0d')
    } else {
        c.is_whitespace()
    }
}

/// `s` without its leading white space.
pub open spec fn trim_start(s: Seq<char>) -> Seq<char>
    decreases s.len(),
{
    if s.len() > 0 && white_space(s.first()) {
        trim_start(s.drop_first())
    } else {
        s
    }
}

/// `s` without its trailing white space.
pub open spec fn trim_end(s: Seq<char>) -> Seq<char>
    decreases s.len(),
{
    if s.len() > 0 && white_space(s.last()) {
        trim_end(s.drop_last())
    } else {
        s
    }
}

/// `s` without leading and trailing white space.
pub open spec fn trimmed(s: Seq<char>) -> Seq<char> {
    trim_end(trim_start(s))
}

/// How many white-space characters `s` begins with.
pub open spec fn leading_white(s: Seq<char>) -> nat
    decreases s.len(),
{
    if s.len() > 0 && white_space(s.first()) {
        1 + leading_white(s.drop_first())
    } else {
        0
    }
}

/// How many white-space characters `s` ends in.
pub open spec fn trailing_white(s: Seq<char>) -> nat
    decreases s.len(),
{
    if s.len() > 0 && white_space(s.last()) {
        1 + trailing_white(s.drop_last())
    } else {
        0
    }
}

/// `trim_start` cuts off the leading white space and nothing else.
pub proof fn lemma_trim_start(s: Seq<char>)
    ensures
        leading_white(s) <= s.len(),
        trim_start(s) == s.subrange(leading_white(s) as int, s.len() as int),
        forall|j: int| 0 <= j < leading_white(s) ==> white_space(#[trigger] s[j]),
        leading_white(s) < s.len() ==> !white_space(s[leading_white(s) as int]),
    decreases s.len(),
{
    if s.len() > 0 && white_space(s.first()) {
        let rest = s.drop_first();
        lemma_trim_start(rest);
        let n = leading_white(rest);
        assert(rest.subrange(n as int, rest.len() as int) == s.subrange(n as int + 1, s.len() as int));
        assert forall|j: int| 0 <= j < leading_white(s) implies white_space(#[trigger] s[j]) by {
            if j > 0 {
                assert(s[j] == rest[j - 1]);
            }
        }
        if leading_white(s) < s.len() {
            assert(s[leading_white(s) as int] == rest[n as int]);
        }
    } else {
        assert(s.subrange(0, s.len() as int) == s);
    }
}

/// `trim_end` cuts off the trailing white space and nothing else.
pub proof fn lemma_trim_end(s: Seq<char>)
    ensures
        trailing_white(s) <= s.len(),
        trim_end(s) == s.subrange(0, s.len() - trailing_white(s)),
        forall|j: int| s.len() - trailing_white(s) <= j < s.len() ==> white_space(#[trigger] s[j]),
        trailing_white(s) < s.len() ==> !white_space(s[s.len() - trailing_white(s) - 1]),
    decreases s.len(),
{
    if s.len() > 0 && white_space(s.last()) {
        let rest = s.drop_last();
        lemma_trim_end(rest);
        let n = trailing_white(rest);
        assert(rest.subrange(0, rest.len() - n) == s.subrange(0, s.len() - n - 1));
        assert forall|j: int| s.len() - trailing_white(s) <= j < s.len() implies white_space(
            #[trigger] s[j],
        ) by {
            if j < s.len() - 1 {
                assert(s[j] == rest[j]);
            }
        }
        if trailing_white(s) < s.len() {
            assert(s[s.len() - trailing_white(s) - 1] == rest[rest.len() - n - 1]);
        }
    } else {
        assert(s.subrange(0, s.len() as int) == s);
    }
}

/// Trimming keeps everything from the first to the last character that is no
/// white space: where `s[j]` and `s[k]` are none, the trimmed text is a
/// stretch of `s` that begins at or before `j` and ends after `k`.
pub proof fn lemma_trimmed_range(s: Seq<char>, j: int, k: int)
    requires
        0 <= j <= k < s.len(),
        !white_space(s[j]),
        !white_space(s[k]),
    ensures
        leading_white(s) <= j,
        k < s.len() - trailing_white(s),
        trimmed(s) == s.subrange(leading_white(s) as int, s.len() - trailing_white(s)),
{
    lemma_trim_start(s);
    lemma_trim_end(s);
    let a = leading_white(s) as int;
    let front = trim_start(s);
    lemma_trim_end(front);
    let b = s.len() - trailing_white(s);
    assert(a <= j);
    assert(k < b);
    // The tail of `front` is the tail of `s`.
    assert forall|i: int| b - a <= i < front.len() implies white_space(#[trigger] front[i]) by {
        assert(front[i] == s[i + a]);
    }
    assert(front[b - a - 1] == s[b - 1]);
    assert(!white_space(front[b - a - 1]));
    if front.len() - trailing_white(front) < b - a {
        assert(white_space(front[b - a - 1]));
    }
    if front.len() - trailing_white(front) > b - a {
        assert(white_space(front[front.len() - trailing_white(front) - 1]));
    }
    assert(front.subrange(0, b - a) == s.subrange(a, b));
}

/// The lowercase equivalent of a text, as `str::to_lowercase` computes it from
/// the Unicode case mappings.
pub uninterp spec fn lowercase(s: Seq<char>) -> Seq<char>;

/// `str::to_lowercase`: the result is a function of the characters alone, and
/// `lowercase` is its name. Taken on trust.
pub assume_specification[ str::to_lowercase ](s: &str) -> (r: std::string::String)
    ensures
        r@ == lowercase(s@),
;

/// Whether a character is alphabetic or numeric by its Unicode properties, as
/// `char::is_alphanumeric` answers.
pub uninterp spec fn alphanumeric(c: char) -> bool;

/// `char::is_alphanumeric`: the answer is a function of the character alone,
/// and `alphanumeric` is its name. Taken on trust.
pub assume_specification[ char::is_alphanumeric ](c: char) -> (b: bool)
    ensures
        b == alphanumeric(c),
;

/// `String::push`: the character is appended. Taken on trust.
pub assume_specification[ std::string::String::push ](s: &mut std::string::String, ch: char)
    ensures
        final(s)@ == old(s)@.push(ch),
;

/// The text that the `Debug` format of a string prints: the string in double
/// quotes, with the characters escaped that need it.
pub uninterp spec fn debug_text(s: Seq<char>) -> Seq<char>;

/// Formats a string with `{:?}`. The result is a function of the characters
/// alone, and `debug_text` is its name. Taken on trust.
#[verifier::external_body]
pub(crate) fn debug_quote(s: &str) -> (quoted: String)
    ensures
        quoted@ == debug_text(s@),
{
    format!("{:?}", s)
}

/// The characters of a string, in order.
pub fn chars_of(s: &str) -> (chars: Vec<char>)
    ensures
        chars@ == s@,
{
    let mut chars: Vec<char> = Vec::new();
    for c in iter: s.chars()
        invariant
            iter.seq() == s@,
            chars@ == s@.take(iter.index()),
    {
        chars.push(c);
    }
    chars
}

/// `s` begins with exactly `k` white-space characters where its first `k`
/// characters are white space and the next one, if there is one, is not.
pub proof fn lemma_leading_white_is(s: Seq<char>, k: int)
    requires
        0 <= k <= s.len(),
        forall|j: int| 0 <= j < k ==> white_space(#[trigger] s[j]),
        k < s.len() ==> !white_space(s[k]),
    ensures
        leading_white(s) == k,
    decreases s.len(),
{
    if k > 0 {
        let rest = s.drop_first();
        assert(white_space(s[0]));
        assert forall|j: int| 0 <= j < k - 1 implies white_space(#[trigger] rest[j]) by {
            assert(rest[j] == s[j + 1]);
        }
        if k - 1 < rest.len() {
            assert(rest[k - 1] == s[k]);
        }
        lemma_leading_white_is(rest, k - 1);
    }
}

/// `s` ends in exactly `k` white-space characters where its last `k`
/// characters are white space and the one before, if there is one, is not.
pub proof fn lemma_trailing_white_is(s: Seq<char>, k: int)
    requires
        0 <= k <= s.len(),
        forall|j: int| s.len() - k <= j < s.len() ==> white_space(#[trigger] s[j]),
        k < s.len() ==> !white_space(s[s.len() - k - 1]),
    ensures
        trailing_white(s) == k,
    decreases s.len(),
{
    if k > 0 {
        let rest = s.drop_last();
        assert(white_space(s[s.len() - 1]));
        assert forall|j: int| rest.len() - (k - 1) <= j < rest.len() implies white_space(
            #[trigger] rest[j],
        ) by {
            assert(rest[j] == s[j]);
        }
        if k - 1 < rest.len() {
            assert(rest[rest.len() - (k - 1) - 1] == s[s.len() - k - 1]);
        }
        lemma_trailing_white_is(rest, k - 1);
    }
}

/// The slice of `s` that is left when the white space at both ends is taken
/// away.
pub fn trim(s: &str) -> (t: &str)
    ensures
        t@ == trimmed(s@),
{
    let chars = chars_of(s);
    let n = chars.len();
    let mut start: usize = 0;
    while start < n && is_white_space(chars[start])
        invariant
            n == chars.len(),
            start <= n,
            forall|j: int| 0 <= j < start ==> white_space(#[trigger] chars@[j]),
        decreases n - start,
    {
        start += 1;
    }
    let mut end: usize = n;
    while end > start && is_white_space(chars[end - 1])
        invariant
            n == chars.len(),
            start <= end <= n,
            forall|j: int| end <= j < n ==> white_space(#[trigger] chars@[j]),
        decreases end,
    {
        end -= 1;
    }
    proof {
        let front = s@.subrange(start as int, n as int);
        lemma_leading_white_is(s@, start as int);
        lemma_trim_start(s@);
        assert forall|j: int| front.len() - (n - end) <= j < front.len() implies white_space(
            #[trigger] front[j],
        ) by {
            assert(front[j] == chars@[j + start]);
        }
        if n - end < front.len() {
            assert(front[front.len() - (n - end) - 1] == chars@[end - 1]);
        }
        lemma_trailing_white_is(front, n - end);
        lemma_trim_end(front);
        assert(front.subrange(0, end - start) == s@.subrange(start as int, end as int));
    }
    s.substring_char(start, end)
}

/// The index of the last `c` in `s`, or -1 where `s` holds none.
pub open spec fn last_index_of(s: Seq<char>, c: char) -> int
    decreases s.len(),
{
    if s.len() == 0 {
        -1
    } else if s.last() == c {
        s.len() - 1
    } else {
        last_index_of(s.drop_last(), c)
    }
}

/// What follows the last `c` in `s`: all of `s` where it holds none.
pub open spec fn after_last(s: Seq<char>, c: char) -> Seq<char> {
    s.subrange(last_index_of(s, c) + 1, s.len() as int)
}

/// `last_index_of` points at a `c` that no other `c` follows.
pub proof fn lemma_last_index_of(s: Seq<char>, c: char)
    ensures
        -1 <= last_index_of(s, c) < s.len(),
        last_index_of(s, c) >= 0 ==> s[last_index_of(s, c)] == c,
        forall|j: int| last_index_of(s, c) < j < s.len() ==> s[j] != c,
    decreases s.len(),
{
    if s.len() > 0 && s.last() != c {
        let rest = s.drop_last();
        lemma_last_index_of(rest, c);
        assert forall|j: int| last_index_of(s, c) < j < s.len() implies s[j] != c by {
            if j < rest.len() {
                assert(s[j] == rest[j]);
            }
        }
    }
}

/// An index is the last `c` of `s` where it holds a `c` and none follows.
pub proof fn lemma_last_index_of_is(s: Seq<char>, c: char, i: int)
    requires
        -1 <= i < s.len(),
        i >= 0 ==> s[i] == c,
        forall|j: int| i < j < s.len() ==> s[j] != c,
    ensures
        last_index_of(s, c) == i,
    decreases s.len(),
{
    if s.len() > 0 && s.last() != c {
        let rest = s.drop_last();
        assert forall|j: int| i < j < rest.len() implies rest[j] != c by {
            assert(rest[j] == s[j]);
        }
        if i >= 0 {
            assert(rest[i] == s[i]);
        }
        lemma_last_index_of_is(rest, c, i);
    }
}

/// Where the last `c` of `chars` stands, if there is one.
pub fn find_last(chars: &Vec<char>, c: char) -> (found: Option<usize>)
    ensures
        match found {
            Some(i) => i < chars.len() && chars@[i as int] == c && i == last_index_of(chars@, c),
            None => last_index_of(chars@, c) == -1,
        },
{
    let mut i: usize = chars.len();
    while i > 0
        invariant
            i <= chars.len(),
            forall|j: int| i <= j < chars.len() ==> chars@[j] != c,
        decreases i,
    {
        i -= 1;
        if chars[i] == c {
            proof {
                lemma_last_index_of_is(chars@, c, i as int);
            }
            return Some(i);
        }
    }
    proof {
        lemma_last_index_of_is(chars@, c, -1);
    }
    None
}

/// The string made of `chars[from..to]`.
pub fn string_of(chars: &Vec<char>, from: usize, to: usize) -> (s: String)
    requires
        from <= to <= chars.len(),
    ensures
        s@ == chars@.subrange(from as int, to as int),
{
    let mut s = String::new();
    let mut i: usize = from;
    while i < to
        invariant
            from <= i <= to <= chars.len(),
            s@ == chars@.subrange(from as int, i as int),
        decreases to - i,
    {
        s.push(chars[i]);
        i += 1;
        assert(chars@.subrange(from as int, i as int) == chars@.subrange(from as int, i - 1).push(
            chars@[i - 1],
        ));
    }
    s
}

/// Whether `chars[from..]` is `word`.
pub fn tail_is(chars: &Vec<char>, from: usize, word: &Vec<char>) -> (b: bool)
    requires
        from <= chars.len(),
    ensures
        b == (chars@.subrange(from as int, chars.len() as int) == word@),
{
    let ghost tail = chars@.subrange(from as int, chars.len() as int);
    if chars.len() - from != word.len() {
        return false;
    }
    let mut i: usize = 0;
    while i < word.len()
        invariant
            from <= chars.len(),
            chars.len() - from == word.len(),
            i <= word.len(),
            tail == chars@.subrange(from as int, chars.len() as int),
            forall|j: int| 0 <= j < i ==> tail[j] == word@[j],
        decreases word.len() - i,
    {
        if chars[from + i] != word[i] {
            assert(tail[i as int] == chars@[from + i]);
            return false;
        }
        assert(tail[i as int] == chars@[from + i]);
        i += 1;
    }
    assert(tail =~= word@);
    true
}

} // verus!
