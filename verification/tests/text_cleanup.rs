use openflow::injector::paste_payload;
use openflow::text::{chars_of, collapse_spaces_chars, is_whitespace_char, remove_all_chars, string_from_chars, trim_chars};
use openflow::transcriber::Transcriber;

type Session = Transcriber<()>;

/// The clean-up written with the standard library's string operations.
fn reference_clean(text: &str) -> String {
    let phrases = [
        "[музыка]", "[Музыка]", "(музыка)", "(Музыка)",
        "[звук]", "[Звук]", "(звук)", "(Звук)",
        "[аплодисменты]", "[Аплодисменты]", "(аплодисменты)", "(Аплодисменты)",
        "Подпишись на канал", "подпишись на канал",
        "Ставьте лайки", "ставьте лайки",
        "Спасибо за просмотр", "спасибо за просмотр",
    ];
    let mut result = text.to_string();
    for phrase in phrases.iter() {
        result = result.replace(phrase, "");
    }
    while result.contains("  ") {
        result = result.replace("  ", " ");
    }
    result.trim().to_string()
}

fn as_string(chars: &Vec<char>) -> String {
    string_from_chars(chars)
}

#[test]
fn removes_music_tag_and_extra_spaces() {
    assert_eq!(Session::clean_hallucinations("  Привет [музыка] мир  "), "Привет мир");
}

#[test]
fn removes_every_listed_phrase() {
    let text = "[Музыка](музыка)(Музыка)[звук][Звук](звук)(Звук)[аплодисменты][Аплодисменты](аплодисменты)(Аплодисменты)Подпишись на каналподпишись на каналСтавьте лайкиставьте лайкиСпасибо за просмотрспасибо за просмотр[музыка]";
    assert_eq!(Session::clean_hallucinations(text), "");
}

#[test]
fn only_phrase_gives_empty_text() {
    assert_eq!(Session::clean_hallucinations("Спасибо за просмотр"), "");
    assert_eq!(Session::clean_hallucinations("  [музыка]  "), "");
}

#[test]
fn removal_is_a_single_pass_per_phrase() {
    // Deleting the inner tag joins the halves into a new tag, which stays.
    assert_eq!(Session::clean_hallucinations("[му[музыка]зыка]"), "[музыка]");
}

#[test]
fn spaces_left_by_removal_are_folded() {
    assert_eq!(Session::clean_hallucinations("a (звук) b    c"), "a b c");
    assert_eq!(Session::clean_hallucinations("Подпишись  на канал"), "Подпишись на канал");
}

#[test]
fn unicode_whitespace_is_trimmed() {
    assert_eq!(Session::clean_hallucinations("\u{3000}\t текст\u{a0}\n"), "текст");
    assert_eq!(Session::clean_hallucinations("\u{200b}текст"), "\u{200b}текст");
}

#[test]
fn clean_text_is_unchanged() {
    let text = "Deploy the feature, fix the bug.";
    assert_eq!(Session::clean_hallucinations(text), text);
}

#[test]
fn clean_is_settled_after_one_pass() {
    let once = Session::clean_hallucinations("  x  [звук]  y ");
    assert_eq!(once, "x y");
    assert_eq!(Session::clean_hallucinations(&once), once);
}

#[test]
fn agrees_with_standard_library_version() {
    let samples = [
        "", " ", "   ", "a", " a ", "a  b", "a   b   c", "\t\n x \r\n",
        "[музыка] [музыка]", "[му[музыка]зыка]", "ставьте лайки, друзья",
        "Привет,  мир!  Спасибо за просмотр", "\u{2000}\u{2001}mid\u{205f}",
        "\u{85}edge\u{1680}", "x \u{a0} y", "  [звук]  [звук]  ", "((звук)звук)",
        "ааа  ббб   ввв", "end with space ", "tab\tinside",
    ];
    for s in samples.iter() {
        assert_eq!(Session::clean_hallucinations(s), reference_clean(s), "input {:?}", s);
    }
}

#[test]
fn whitespace_matches_char_is_whitespace() {
    for u in 0u32..0x3100 {
        if let Some(c) = char::from_u32(u) {
            assert_eq!(is_whitespace_char(c), c.is_whitespace(), "code point {:x}", u);
        }
    }
}

#[test]
fn trim_matches_str_trim() {
    for s in ["", "  ", " a", "a ", "\u{3000}a b\u{2028}", "\u{feff}a", "x"].iter() {
        let chars = chars_of(s);
        assert_eq!(as_string(&trim_chars(&chars)), s.trim());
    }
}

#[test]
fn remove_all_matches_replace() {
    let cases = [("aaa", "aa"), ("abab", "ab"), ("xaby", "ab"), ("", "a"), ("abc", ""), ("aXbXc", "X")];
    for (s, p) in cases.iter() {
        let r = remove_all_chars(&chars_of(s), &chars_of(p));
        assert_eq!(as_string(&r), s.replace(p, ""));
    }
}

#[test]
fn collapse_folds_each_run() {
    let r = collapse_spaces_chars(&chars_of("  a   b c    "));
    assert_eq!(as_string(&r), " a b c ");
    let r = collapse_spaces_chars(&chars_of("a\t\tb"));
    assert_eq!(as_string(&r), "a\t\tb");
}

#[test]
fn paste_payload_trims() {
    assert_eq!(paste_payload("  hello world \n"), Some("hello world".to_string()));
}

#[test]
fn paste_payload_empty_for_blank_text() {
    assert_eq!(paste_payload(""), None);
    assert_eq!(paste_payload(" \t\u{3000}\n"), None);
}
