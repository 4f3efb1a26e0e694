use asset_ops::{slug_of_lowercase, Slug};

fn slug(name: &str) -> String {
    Slug::new(name).as_str().to_string()
}

#[test]
fn slug_lowers_case_and_hyphenates_spaces() {
    assert_eq!(slug("My Photo.PNG"), "my-photo.png");
}

#[test]
fn names_that_differ_by_case_collide() {
    assert_eq!(slug("A.PDF"), "a.pdf");
    assert_eq!(slug("a.pdf"), "a.pdf");
    assert_eq!(Slug::new("A.PDF"), Slug::new("a.pdf"));
}

#[test]
fn names_that_differ_by_punctuation_collide() {
    assert_eq!(slug("re_port(1).pdf"), "report1.pdf");
    assert_eq!(slug("report1.pdf"), "report1.pdf");
    assert_eq!(slug("re-port#1!.pdf"), "report1.pdf");
}

#[test]
fn slug_drops_what_is_neither_alphanumeric_nor_space_nor_dot() {
    assert_eq!(slug("a/b\\c:d*e?f<g>h|i.png"), "abcdefghi.png");
    assert_eq!(slug("tab\there\nnew.wav"), "tabherenew.wav");
    assert_eq!(slug("-_-"), "");
    assert_eq!(slug(""), "");
}

#[test]
fn slug_keeps_every_space_as_a_hyphen() {
    assert_eq!(slug("  two  spaces  "), "--two--spaces--");
    assert_eq!(slug(" "), "-");
}

#[test]
fn slug_keeps_dots_and_digits() {
    assert_eq!(slug("v1.2.3.tar.GZ"), "v1.2.3.tar.gz");
    assert_eq!(slug("..."), "...");
    assert_eq!(slug("2024 01 31.mp3"), "2024-01-31.mp3");
}

#[test]
fn slug_goes_by_unicode() {
    assert_eq!(slug("\u{c9}T\u{c9}.PNG"), "\u{e9}t\u{e9}.png");
    assert_eq!(slug("\u{4eac}\u{90fd} 2.jpg"), "\u{4eac}\u{90fd}-2.jpg");
    assert_eq!(slug("\u{391}\u{3a3}"), "\u{3b1}\u{3c2}");
    assert_eq!(slug("\u{130}.png"), "i.png");
    assert_eq!(slug("a\u{a0}b"), "ab");
    assert_eq!(slug("\u{be}\u{2460}\u{663}"), "\u{be}\u{2460}\u{663}");
}

#[test]
fn slug_of_a_slug_without_hyphens_is_the_same() {
    for name in ["My.Photo.PNG", "a.pdf", "\u{c9}t\u{e9}.wav", "x(1).mp4", "", "...", "\u{391}\u{3a3}.Jpg"] {
        let once = slug(name);
        assert_eq!(slug(&once), once, "for {:?}", name);
    }
}

#[test]
fn slug_of_a_slug_loses_its_hyphens() {
    assert_eq!(slug("a b"), "a-b");
    assert_eq!(slug("a-b"), "ab");
    assert_eq!(slug(&slug("My Photo.PNG")), "myphoto.png");
}

#[test]
fn a_slug_reads_as_a_string_slice() {
    let s = Slug::new("Some Name.Mp3");
    assert_eq!(&*s, "some-name.mp3");
    assert_eq!(s.len(), 13);
    assert!(s.ends_with(".mp3"));
    assert_eq!(s.as_str(), &*s);
}

fn slug_by_the_standard_library(name: &str) -> String {
    name.to_lowercase()
        .chars()
        .filter(|&c| c.is_alphanumeric() || c == ' ' || c == '.')
        .collect::<String>()
        .replace(' ', "-")
}

#[test]
fn letters_and_digits_are_those_of_the_standard_library() {
    for code in 0..=0x10FFFFu32 {
        if let Some(c) = char::from_u32(code) {
            let mut name = String::new();
            name.push(c);
            assert_eq!(slug(&name), slug_by_the_standard_library(&name), "U+{:04X}", code);
        }
    }
}

#[test]
fn slugs_are_those_of_the_standard_library_on_mixed_names() {
    for name in [
        "My Photo.PNG",
        "R\u{c9}SUM\u{c9} (final) v2.PDF",
        "\u{391}\u{3a3} \u{3a3}\u{391}.Mp4",
        "\u{130}stanbul  \u{49}\u{307}.jpeg",
        "a-b_c+d=e.f g",
        "\u{1c5}\u{1c8} \u{2160}\u{2161}.wav",
        "tr\u{e8}s\u{a0}bien\u{2003}!.mp3",
    ] {
        assert_eq!(slug(name), slug_by_the_standard_library(name), "{:?}", name);
    }
}

#[test]
fn slug_of_lowercase_filters_and_hyphenates_without_lowering() {
    assert_eq!(slug_of_lowercase("my photo.png").as_str(), "my-photo.png");
    assert_eq!(slug_of_lowercase("a b.c").as_str(), "a-b.c");
    assert_eq!(slug_of_lowercase("My Photo.PNG").as_str(), "My-Photo.PNG");
    assert_eq!(slug_of_lowercase("a/b_c-d").as_str(), "abcd");
    assert_eq!(slug_of_lowercase("").as_str(), "");
    assert_eq!(slug_of_lowercase(" . ").as_str(), "-.-");
    assert_eq!(slug_of_lowercase("\u{e9}t\u{e9} \u{4eac}!").as_str(), "\u{e9}t\u{e9}-\u{4eac}");
}

#[test]
fn slug_is_the_slug_of_the_lowercase_name() {
    for name in ["My Photo.PNG", "A.PDF", "\u{391}\u{3a3} x", "R\u{c9}SUM\u{c9}.pdf", "", "a-b"] {
        assert_eq!(Slug::new(name), slug_of_lowercase(&name.to_lowercase()), "{:?}", name);
    }
}

#[test]
fn a_name_of_kept_characters_keeps_its_length_and_gets_hyphens_in_place() {
    for name in ["My Photo 2.PNG", "a b  c.d", "...", "  ", "ABC123", "x.y z"] {
        let s = slug(name);
        assert_eq!(s, name.to_ascii_lowercase().replace(' ', "-"), "{:?}", name);
        assert_eq!(s.len(), name.len());
        for (kept, given) in s.chars().zip(name.chars()) {
            assert_eq!(kept == '-', given == ' ');
            assert!(kept != ' ');
        }
    }
}

#[test]
fn ascii_names_with_one_lowercase_form_have_one_slug() {
    for (a, b) in [("A.PDF", "a.pdf"), ("My Photo.PNG", "mY pHOTO.png"), ("X_1", "x_1")] {
        assert_eq!(a.to_ascii_lowercase(), b.to_ascii_lowercase());
        assert_eq!(Slug::new(a), Slug::new(b));
        assert_eq!(&*Slug::new(a), &*Slug::new(b));
    }
}
