//! The pattern that tells an asset path from any other string.

use vstd::prelude::*;
use crate::text::{
    chars_of, last_index_of, leading_white, lemma_last_index_of_is, lemma_trimmed_range,
    trailing_white, trimmed, white_space,
};

verus! {

/// The characters that no asset path may hold.
pub open spec fn forbidden(c: char) -> bool {
    c == ':' || c == '*' || c == '?' || c == '<' || c == '>' || c == '|' || c == '\r' || c == '\n'
}

/// `s` is at least one character, then a dot, then `ext`, and nothing more.
pub open spec fn has_extension(s: Seq<char>, ext: Seq<char>) -> bool {
    &&& s.len() > ext.len() + 1
    &&& s[s.len() - ext.len() - 1] == '.'
    &&& s.subrange(s.len() - ext.len(), s.len() as int) == ext
}

/// `s` ends in one of the extensions that name an asset, in lower case.
pub open spec fn has_asset_extension(s: Seq<char>) -> bool {
    ||| has_extension(s, "pdf"@)
    ||| has_extension(s, "png"@)
    ||| has_extension(s, "jpeg"@)
    ||| has_extension(s, "jpg"@)
    ||| has_extension(s, "mp4"@)
    ||| has_extension(s, "wav"@)
    ||| has_extension(s, "mp3"@)
}

/// `s` holds no forbidden character.
pub open spec fn free_of_forbidden(s: Seq<char>) -> bool {
    forall|i: int| 0 <= i < s.len() ==> !forbidden(#[trigger] s[i])
}

/// `s` is an asset path: one or more characters, none of them forbidden, then
/// a dot and an asset extension at the very end.
pub open spec fn is_asset_path(s: Seq<char>) -> bool {
    free_of_forbidden(s) && has_asset_extension(s)
}

/// Whether `c` is one of the forbidden characters.
fn is_forbidden(c: char) -> (b: bool)
    ensures
        b == forbidden(c),
{
    c == ':' || c == '*' || c == '?' || c == '<' || c == '>' || c == '|' || c == '\r' || c == '\n'
}

/// Whether `chars` holds no forbidden character.
fn all_allowed(chars: &Vec<char>) -> (b: bool)
    ensures
        b == free_of_forbidden(chars@),
{
    let mut i: usize = 0;
    while i < chars.len()
        invariant
            i <= chars.len(),
            forall|j: int| 0 <= j < i ==> !forbidden(#[trigger] chars@[j]),
        decreases chars.len() - i,
    {
        if is_forbidden(chars[i]) {
            return false;
        }
        i += 1;
    }
    true
}

/// Whether `chars` is at least one character, a dot and `ext`.
fn ends_with_extension(chars: &Vec<char>, ext: &str) -> (b: bool)
    ensures
        b == has_extension(chars@, ext@),
{
    let wanted = chars_of(ext);
    let n = chars.len();
    let m = wanted.len();
    if n <= m || n - m <= 1 {
        return false;
    }
    let start = n - m;
    if chars[start - 1] != '.' {
        return false;
    }
    let mut i: usize = 0;
    while i < m
        invariant
            i <= m,
            m == wanted.len(),
            wanted@ == ext@,
            n == chars.len(),
            start == n - m,
            forall|j: int| 0 <= j < i ==> chars@[start + j] == wanted@[j],
        decreases m - i,
    {
        if chars[start + i] != wanted[i] {
            proof {
                let tail = chars@.subrange(start as int, n as int);
                assert(tail[i as int] == chars@[start + i]);
            }
            return false;
        }
        i += 1;
    }
    assert(chars@.subrange(start as int, n as int) =~= wanted@);
    true
}

/// Whether `haystack` is an asset path.
pub fn filename_predicate(haystack: &str) -> (b: bool)
    ensures
        b == is_asset_path(haystack@),
{
    let chars = chars_of(haystack);
    all_allowed(&chars) && (ends_with_extension(&chars, "pdf") || ends_with_extension(&chars, "png")
        || ends_with_extension(&chars, "jpeg") || ends_with_extension(&chars, "jpg")
        || ends_with_extension(&chars, "mp4") || ends_with_extension(&chars, "wav")
        || ends_with_extension(&chars, "mp3"))
}

/// Trimming keeps an extension in place as long as something other than
/// white space stands before its dot.
proof fn lemma_extension_survives_trim(s: Seq<char>, ext: Seq<char>, i: int)
    requires
        has_extension(s, ext),
        ext.len() > 0,
        !white_space(ext.last()),
        0 <= i < s.len() - ext.len() - 1,
        !white_space(s[i]),
    ensures
        has_extension(trimmed(s), ext),
        leading_white(s) <= i,
        trimmed(s) == s.subrange(leading_white(s) as int, s.len() as int),
{
    let n = s.len() as int;
    let tail = s.subrange(n - ext.len(), n);
    assert(s[n - 1] == tail[ext.len() - 1]);
    lemma_trimmed_range(s, i, n - 1);
    let a = leading_white(s) as int;
    let t = trimmed(s);
    assert(trailing_white(s) == 0);
    assert(t[t.len() - ext.len() - 1] == s[n - ext.len() - 1]);
    assert(t.subrange(t.len() - ext.len(), t.len() as int) == tail);
}

/// The dot of an extension without dots is the last dot of the path.
proof fn lemma_extension_dot_is_last(s: Seq<char>, ext: Seq<char>)
    requires
        has_extension(s, ext),
        forall|j: int| 0 <= j < ext.len() ==> ext[j] != '.',
    ensures
        last_index_of(s, '.') == s.len() - ext.len() - 1,
{
    let n = s.len() as int;
    let tail = s.subrange(n - ext.len(), n);
    assert forall|j: int| n - ext.len() - 1 < j < n implies s[j] != '.' by {
        assert(s[j] == tail[j - (n - ext.len())]);
    }
    lemma_last_index_of_is(s, '.', n - ext.len() - 1);
}

/// An asset path is still one after trimming, as long as something other
/// than white space stands before its last dot. (Of `" .pdf"` trimming
/// leaves `".pdf"`, which has nothing before its dot.)
pub proof fn lemma_asset_path_survives_trim(s: Seq<char>)
    requires
        is_asset_path(s),
        exists|i: int| 0 <= i < last_index_of(s, '.') && !white_space(s[i]),
    ensures
        is_asset_path(trimmed(s)),
{
    reveal_strlit("pdf");
    reveal_strlit("png");
    reveal_strlit("jpeg");
    reveal_strlit("jpg");
    reveal_strlit("mp4");
    reveal_strlit("wav");
    reveal_strlit("mp3");
    let i = choose|i: int| 0 <= i < last_index_of(s, '.') && !white_space(s[i]);
    let ext = if has_extension(s, "pdf"@) {
        "pdf"@
    } else if has_extension(s, "png"@) {
        "png"@
    } else if has_extension(s, "jpeg"@) {
        "jpeg"@
    } else if has_extension(s, "jpg"@) {
        "jpg"@
    } else if has_extension(s, "mp4"@) {
        "mp4"@
    } else if has_extension(s, "wav"@) {
        "wav"@
    } else {
        "mp3"@
    };
    lemma_extension_dot_is_last(s, ext);
    lemma_extension_survives_trim(s, ext, i);
    let t = trimmed(s);
    let a = leading_white(s) as int;
    assert forall|j: int| 0 <= j < t.len() implies !forbidden(#[trigger] t[j]) by {
        assert(t[j] == s[j + a]);
    }
}

/// A string that holds a forbidden character is no asset path, whatever it
/// ends in.
pub proof fn lemma_forbidden_rejected(s: Seq<char>, i: int)
    requires
        0 <= i < s.len(),
        forbidden(s[i]),
    ensures
        !is_asset_path(s),
{
}

/// A forbidden character that trimming leaves in place keeps the trimmed
/// string from being an asset path: one that is no white space itself, or
/// that stands between two characters that are none.
pub proof fn lemma_forbidden_rejected_after_trim(s: Seq<char>, j: int, i: int, k: int)
    requires
        0 <= j <= i <= k < s.len(),
        !white_space(s[j]),
        !white_space(s[k]),
        forbidden(s[i]),
    ensures
        !is_asset_path(trimmed(s)),
{
    lemma_trimmed_range(s, j, k);
    let a = leading_white(s) as int;
    let t = trimmed(s);
    assert(t[i - a] == s[i]);
}

/// None of `: * ? < > |` is white space, so a string that holds one of them
/// is no asset path, trimmed or not.
pub proof fn lemma_reserved_character_rejected(s: Seq<char>, i: int)
    requires
        0 <= i < s.len(),
        s[i] == ':' || s[i] == '*' || s[i] == '?' || s[i] == '<' || s[i] == '>' || s[i] == '|',
    ensures
        !is_asset_path(s),
        !is_asset_path(trimmed(s)),
{
    lemma_forbidden_rejected_after_trim(s, i, i, i);
}

} // verus!
