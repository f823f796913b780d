use flovenet::moderation::flags_for_lowered;
use flovenet::moderation::check_content;

#[test]
fn clean_content_has_no_flags() {
    assert!(check_content("Hello friends, nice day").is_empty());
}

#[test]
fn banned_words_are_found_case_insensitively() {
    assert_eq!(check_content("This is SPAM and a Scam"), vec!["banned_word:spam", "banned_word:scam"]);
}

#[test]
fn spam_patterns_follow_banned_words() {
    assert_eq!(
        check_content("Free Money! click here: http://x"),
        vec!["spam_pattern:http://", "spam_pattern:free money", "spam_pattern:click here"]
    );
    assert_eq!(check_content("malware, act now"), vec!["banned_word:malware", "spam_pattern:act now"]);
}

#[test]
fn length_limits_in_bytes() {
    assert_eq!(check_content(""), vec!["too_short"]);
    assert_eq!(check_content("a"), vec!["too_short"]);
    assert!(check_content("ab").is_empty());
    // one two-byte character is long enough
    assert!(check_content("é").is_empty());
    let long = "a".repeat(2001);
    assert_eq!(check_content(&long), vec!["too_long"]);
    assert!(check_content(&"a".repeat(2000)).is_empty());
    // 1001 two-byte characters exceed 2000 bytes
    assert_eq!(check_content(&"é".repeat(1001)), vec!["too_long"]);
}

#[test]
fn phishing_words_inside_other_words() {
    assert_eq!(check_content("phishing attempt"), vec!["banned_word:phish"]);
}

#[test]
fn congratulations_phrase() {
    assert_eq!(
        check_content("CONGRATULATIONS YOU WON a prize"),
        vec!["spam_pattern:congratulations you won"]
    );
}

#[test]
fn flags_from_lowered_text() {
    assert_eq!(flags_for_lowered("free money, click here", 22), vec!["spam_pattern:free money", "spam_pattern:click here"]);
    assert_eq!(flags_for_lowered("SPAM", 4), Vec::<String>::new());
    assert_eq!(flags_for_lowered("a", 2001), vec!["too_long"]);
    assert_eq!(flags_for_lowered("", 0), vec!["too_short"]);
}
