//! Slugs: the normalised file names under which assets land in the
//! destination folder.

use vstd::prelude::*;
use crate::text::{alphanumeric, chars_of, lowercase};

verus! {

/// The letters and digits of ASCII.
pub open spec fn ascii_alphanumeric(c: char) -> bool {
    ('0' <= c && c <= '9') || ('a' <= c && c <= 'z') || ('A' <= c && c <= 'Z')
}

/// Letters and digits: those of ASCII by their ranges, any other character by
/// its Unicode properties.
pub open spec fn letter_or_digit(c: char) -> bool {
    if c <= '\x7f' {
        ascii_alphanumeric(c)
    } else {
        alphanumeric(c)
    }
}

/// The characters of a lowercased name that make it into its slug.
pub open spec fn slug_keeps(c: char) -> bool {
    letter_or_digit(c) || c == ' ' || c == '.'
}

/// A kept character as it stands in the slug: a hyphen for a space.
pub open spec fn hyphenated(c: char) -> char {
    if c == ' ' {
        '-'
    } else {
        c
    }
}

/// The slug of a text that is in lower case already: its alphanumeric
/// characters, spaces and dots, with a hyphen for each space.
pub open spec fn slug_text(lower: Seq<char>) -> Seq<char> {
    lower.filter(|c: char| slug_keeps(c)).map_values(|c: char| hyphenated(c))
}

/// The slug of a name.
pub open spec fn slug_of(name: Seq<char>) -> Seq<char> {
    slug_text(lowercase(name))
}

/// The characters that a slug is made of.
pub open spec fn slug_char(c: char) -> bool {
    letter_or_digit(c) || c == '.' || c == '-'
}

/// `text` is made of slug characters alone.
pub open spec fn is_slug_text(text: Seq<char>) -> bool {
    forall|i: int| 0 <= i < text.len() ==> slug_char(#[trigger] text[i])
}

/// Taking one more character into account either appends it to the slug,
/// hyphenated, or leaves the slug as it is.
pub proof fn lemma_slug_text_push(lower: Seq<char>, c: char)
    ensures
        slug_text(lower.push(c)) == if slug_keeps(c) {
            slug_text(lower).push(hyphenated(c))
        } else {
            slug_text(lower)
        },
{
    reveal(Seq::filter);
    let keeps = |c: char| slug_keeps(c);
    assert(lower.push(c).drop_last() == lower);
    assert(lower.push(c).last() == c);
    assert(lower.push(c).filter(keeps) == if slug_keeps(c) {
        lower.filter(keeps).push(c)
    } else {
        lower.filter(keeps)
    });
}

/// A slug text is made of slug characters alone.
pub proof fn lemma_slug_text_is_slug(lower: Seq<char>)
    ensures
        is_slug_text(slug_text(lower)),
{
    let keeps = |c: char| slug_keeps(c);
    let filtered = lower.filter(keeps);
    assert forall|i: int| 0 <= i < slug_text(lower).len() implies slug_char(
        #[trigger] slug_text(lower)[i],
    ) by {
        lower.lemma_filter_pred(keeps, i);
        assert(keeps(filtered[i]));
    }
}

/// Filtering takes nothing from a text whose characters are all kept.
proof fn lemma_filter_keeps_all(text: Seq<char>)
    requires
        forall|i: int| 0 <= i < text.len() ==> slug_keeps(#[trigger] text[i]),
    ensures
        text.filter(|c: char| slug_keeps(c)) == text,
    decreases text.len(),
{
    reveal(Seq::filter);
    if text.len() > 0 {
        let rest = text.drop_last();
        assert forall|i: int| 0 <= i < rest.len() implies slug_keeps(#[trigger] rest[i]) by {
            assert(rest[i] == text[i]);
        }
        lemma_filter_keeps_all(rest);
        assert(rest.push(text.last()) == text);
    }
}

/// A slug text holds neither a space nor a separator.
pub proof fn lemma_slug_text_is_plain(text: Seq<char>)
    requires
        is_slug_text(text),
    ensures
        !text.contains(' '),
        !text.contains('/'),
        !text.contains('\\'),
{
}

/// Of a text in which every character is kept, the slug is the text itself
/// with a hyphen in the place of each space: it is as long as the text, and
/// it has a hyphen exactly where the text has a space.
pub proof fn lemma_slug_text_in_place(lower: Seq<char>)
    requires
        forall|i: int| 0 <= i < lower.len() ==> slug_keeps(#[trigger] lower[i]),
    ensures
        slug_text(lower) == lower.map_values(|c: char| hyphenated(c)),
        slug_text(lower).len() == lower.len(),
        forall|i: int| 0 <= i < lower.len() ==> (slug_text(lower)[i] == '-' <==> lower[i] == ' '),
        !slug_text(lower).contains(' '),
{
    lemma_filter_keeps_all(lower);
    lemma_slug_text_is_slug(lower);
    lemma_slug_text_is_plain(slug_text(lower));
}

/// Taking the slug of a slug text once more changes nothing if and only if
/// the text it was made from holds no space. (The slug of `"a b"` is `"a-b"`,
/// and no hyphen is kept: the slug of `"a-b"` is `"ab"`.)
pub proof fn lemma_slug_text_idempotent(lower: Seq<char>)
    ensures
        slug_text(slug_text(lower)) == slug_text(lower) <==> !lower.contains(' '),
{
    let keeps = |c: char| slug_keeps(c);
    let hyphen = |c: char| hyphenated(c);
    let filtered = lower.filter(keeps);
    let once = slug_text(lower);
    let twice = slug_text(once);
    if lower.contains(' ') {
        let i = choose|i: int| 0 <= i < lower.len() && lower[i] == ' ';
        lower.lemma_filter_contains(keeps, i);
        let j = choose|j: int| 0 <= j < filtered.len() && filtered[j] == ' ';
        assert(once[j] == '-');
        let again = once.filter(keeps);
        assert forall|k: int| 0 <= k < twice.len() implies twice[k] != '-' by {
            once.lemma_filter_pred(keeps, k);
            assert(keeps(again[k]));
            assert(again.contains(again[k]));
            once.lemma_filter_contains_rev(keeps, again[k]);
            let m = choose|m: int| 0 <= m < once.len() && once[m] == again[k];
            assert(once[m] == hyphenated(filtered[m]));
        }
        if twice == once {
            assert(twice[j] == '-');
        }
    } else {
        assert forall|i: int| 0 <= i < filtered.len() implies slug_keeps(#[trigger] filtered[i])
            && filtered[i] != ' ' by {
            lower.lemma_filter_pred(keeps, i);
            assert(keeps(filtered[i]));
            assert(filtered.contains(filtered[i]));
            lower.lemma_filter_contains_rev(keeps, filtered[i]);
        }
        assert(filtered.map_values(hyphen) =~= filtered);
        lemma_filter_keeps_all(filtered);
    }
}

/// For a name whose slug lowercasing leaves alone, taking the slug of the
/// slug changes nothing if and only if the name in lower case holds no
/// space.
pub proof fn lemma_slug_idempotent(name: Seq<char>)
    requires
        lowercase(slug_of(name)) == slug_of(name),
    ensures
        slug_of(slug_of(name)) == slug_of(name) <==> !lowercase(name).contains(' '),
{
    lemma_slug_text_idempotent(lowercase(name));
}

/// Two names with the same lowercase form have the same slug: the slug does
/// not tell `A.PDF` from `a.pdf`.
pub proof fn lemma_slug_ignores_case(a: Seq<char>, b: Seq<char>)
    requires
        lowercase(a) == lowercase(b),
    ensures
        slug_of(a) == slug_of(b),
{
}

/// Whether `c` is a letter or a digit.
fn is_letter_or_digit(c: char) -> (b: bool)
    ensures
        b == letter_or_digit(c),
{
    if c <= '\x7f' {
        ('0' <= c && c <= '9') || ('a' <= c && c <= 'z') || ('A' <= c && c <= 'Z')
    } else {
        c.is_alphanumeric()
    }
}

/// A normalised file name.
#[derive(Debug, PartialEq, Eq)]
pub struct Slug(String);

impl View for Slug {
    type V = Seq<char>;

    closed spec fn view(&self) -> Seq<char> {
        self.0@
    }
}

impl Slug {
    #[verifier::type_invariant]
    spec fn well_formed(self) -> bool {
        is_slug_text(self.0@)
    }

    /// The slug of `s`: `s` in lower case, without the characters that are
    /// neither letters nor digits nor a space nor a dot, and with a hyphen for
    /// each space.
    pub fn new(s: &str) -> (slug: Self)
        ensures
            slug@ == slug_of(s@),
    {
        let lower = s.to_lowercase();
        slug_of_lowercase(lower.as_str())
    }

    /// The slug as a string slice, made of alphanumeric characters, dots and
    /// hyphens alone.
    pub fn as_str(&self) -> (text: &str)
        ensures
            text@ == self@,
            is_slug_text(text@),
    {
        proof {
            use_type_invariant(self);
        }
        self.0.as_str()
    }
}

/// The slug of a name that is in lower case already: its letters, digits,
/// spaces and dots in their order, with a hyphen for each space.
pub fn slug_of_lowercase(lower: &str) -> (slug: Slug)
    ensures
        slug@ == slug_text(lower@),
{
    let chars = chars_of(lower);
    let mut text = String::new();
    let mut i: usize = 0;
    proof {
        reveal(Seq::filter);
        assert(chars@.take(0) == Seq::<char>::empty());
        assert(slug_text(Seq::<char>::empty()) == Seq::<char>::empty());
    }
    while i < chars.len()
        invariant
            i <= chars.len(),
            text@ == slug_text(chars@.take(i as int)),
        decreases chars.len() - i,
    {
        let c = chars[i];
        proof {
            lemma_slug_text_push(chars@.take(i as int), c);
            assert(chars@.take(i + 1) == chars@.take(i as int).push(c));
        }
        if is_letter_or_digit(c) || c == ' ' || c == '.' {
            text.push(if c == ' ' {
                '-'
            } else {
                c
            });
        }
        i += 1;
    }
    proof {
        assert(chars@.take(chars.len() as int) == chars@);
        lemma_slug_text_is_slug(chars@);
    }
    Slug(text)
}

impl std::ops::Deref for Slug {
    type Target = str;

    fn deref(&self) -> (text: &str)
        ensures
            text@ == self@,
    {
        self.as_str()
    }
}

} // verus!
