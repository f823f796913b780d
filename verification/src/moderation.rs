//! Content moderation: the flags that the moderator raises for a piece of content.
use vstd::prelude::*;
use crate::text::{chars_of, contains_chars, has_substring, lowercase, to_lowercase};

verus! {

/// Longest content, in UTF-8 bytes, that is not flagged as too long.
pub const MAX_CONTENT_BYTES: usize = 2000;
/// Shortest content, in UTF-8 bytes, that is not flagged as too short.
pub const MIN_CONTENT_BYTES: usize = 2;

/// Words that are banned outright.
pub open spec fn spec_banned_words() -> Seq<Seq<char>> {
    seq!["spam"@, "scam"@, "phish"@, "malware"@]
}

/// Phrases typical of spam.
pub open spec fn spec_spam_patterns() -> Seq<Seq<char>> {
    seq![
        "http://"@,
        "free money"@,
        "click here"@,
        "act now"@,
        "limited time"@,
        "congratulations you won"@,
    ]
}

/// The views of a sequence of strings.
pub open spec fn views(v: Seq<String>) -> Seq<Seq<char>> {
    v.map_values(|s: String| s@)
}

/// For each of `words` that occurs in `text`, in order, the flag `tag + word`.
pub open spec fn tagged_hits(tag: Seq<char>, words: Seq<Seq<char>>, text: Seq<char>) -> Seq<Seq<char>>
    decreases words.len(),
{
    if words.len() == 0 {
        Seq::empty()
    } else {
        let rest = tagged_hits(tag, words.drop_last(), text);
        if has_substring(text, words.last()) {
            rest.push(tag + words.last())
        } else {
            rest
        }
    }
}

/// The flags raised for a text whose lower-case form is `lower` and whose UTF-8 length is
/// `bytes`: banned words and spam phrases found in `lower`, then `too_long` and `too_short`
/// by the length.
pub open spec fn content_flags(lower: Seq<char>, bytes: usize) -> Seq<Seq<char>> {
    tagged_hits("banned_word:"@, spec_banned_words(), lower)
        + tagged_hits("spam_pattern:"@, spec_spam_patterns(), lower)
        + (if bytes > MAX_CONTENT_BYTES { seq!["too_long"@] } else { Seq::empty() })
        + (if bytes < MIN_CONTENT_BYTES { seq!["too_short"@] } else { Seq::empty() })
}

/// The flags raised for `content`: those of its lower-case form and its length in UTF-8
/// bytes.
pub open spec fn spec_check_content(content: Seq<char>) -> Seq<Seq<char>> {
    content_flags(lowercase(content), vstd::utf8::encode_utf8(content).len() as usize)
}

fn banned_words() -> (v: Vec<&'static str>)
    ensures
        v@.map_values(|s: &str| s@) == spec_banned_words(),
{
    let v = vec!["spam", "scam", "phish", "malware"];
    assert(v@.map_values(|s: &str| s@) =~= spec_banned_words());
    v
}

fn spam_patterns() -> (v: Vec<&'static str>)
    ensures
        v@.map_values(|s: &str| s@) == spec_spam_patterns(),
{
    let v = vec![
        "http://",
        "free money",
        "click here",
        "act now",
        "limited time",
        "congratulations you won",
    ];
    assert(v@.map_values(|s: &str| s@) =~= spec_spam_patterns());
    v
}

/// Appends to `flags` the flag `tag + word` for each of `words` found in `text`.
fn push_tagged_hits(flags: &mut Vec<String>, tag: &str, words: &Vec<&'static str>, text: &Vec<char>)
    ensures
        views(final(flags)@) == views(old(flags)@) + tagged_hits(
            tag@,
            words@.map_values(|s: &str| s@),
            text@,
        ),
{
    let ghost ws = words@.map_values(|s: &str| s@);
    let ghost start = views(flags@);
    assert(ws.take(0) =~= Seq::<Seq<char>>::empty());
    assert(start + Seq::<Seq<char>>::empty() =~= start);
    for i in 0..words.len()
        invariant
            ws == words@.map_values(|s: &str| s@),
            views(flags@) == start + tagged_hits(tag@, ws.take(i as int), text@),
    {
        assert(ws.take(i + 1).drop_last() =~= ws.take(i as int));
        let word = chars_of(words[i]);
        if contains_chars(text, &word) {
            let mut f = tag.to_owned();
            f.append(words[i]);
            let ghost before = flags@;
            flags.push(f);
            assert(views(flags@) =~= views(before).push(tag@ + ws[i as int]));
        }
    }
    assert(ws.take(words@.len() as int) =~= ws);
}

/// The flags raised for a text whose lower-case form is `lower` and whose UTF-8 length is
/// `bytes`.
pub fn flags_for_lowered(lower: &str, bytes: usize) -> (flags: Vec<String>)
    ensures
        views(flags@) == content_flags(lower@, bytes),
{
    let lower_chars = chars_of(lower);
    let mut flags: Vec<String> = Vec::new();
    assert(views(flags@) =~= Seq::<Seq<char>>::empty());
    let banned = banned_words();
    push_tagged_hits(&mut flags, "banned_word:", &banned, &lower_chars);
    let spam = spam_patterns();
    push_tagged_hits(&mut flags, "spam_pattern:", &spam, &lower_chars);
    let ghost mid = views(flags@);
    assert(mid =~= tagged_hits("banned_word:"@, spec_banned_words(), lower@) + tagged_hits(
        "spam_pattern:"@,
        spec_spam_patterns(),
        lower@,
    ));
    if bytes > MAX_CONTENT_BYTES {
        let ghost before = flags@;
        flags.push("too_long".to_owned());
        assert(views(flags@) =~= views(before).push("too_long"@));
    }
    if bytes < MIN_CONTENT_BYTES {
        let ghost before = flags@;
        flags.push("too_short".to_owned());
        assert(views(flags@) =~= views(before).push("too_short"@));
    }
    assert(views(flags@) =~= content_flags(lower@, bytes));
    flags
}

/// The flags that the moderator raises for `content`.
pub fn check_content(content: &str) -> (flags: Vec<String>)
    ensures
        views(flags@) == spec_check_content(content@),
{
    let lower = to_lowercase(content);
    let nbytes = content.len();
    assert(nbytes == vstd::utf8::encode_utf8(content@).len() as usize);
    flags_for_lowered(lower.as_str(), nbytes)
}

/// No word of `words` occurs in `text`.
pub open spec fn none_occurs(words: Seq<Seq<char>>, text: Seq<char>) -> bool {
    forall|i: int| 0 <= i < words.len() ==> !has_substring(text, #[trigger] words[i])
}

proof fn lemma_tagged_hits_empty(tag: Seq<char>, words: Seq<Seq<char>>, text: Seq<char>)
    ensures
        tagged_hits(tag, words, text).len() == 0 <==> none_occurs(words, text),
    decreases words.len(),
{
    if words.len() > 0 {
        lemma_tagged_hits_empty(tag, words.drop_last(), text);
        if none_occurs(words, text) {
            assert(none_occurs(words.drop_last(), text)) by {
                assert forall|i: int| 0 <= i < words.drop_last().len() implies !has_substring(
                    text,
                    #[trigger] words.drop_last()[i],
                ) by {
                    assert(words.drop_last()[i] == words[i]);
                }
            }
            assert(!has_substring(text, words[words.len() - 1]));
        }
        if tagged_hits(tag, words, text).len() == 0 {
            assert forall|i: int| 0 <= i < words.len() implies !has_substring(text, #[trigger] words[i]) by {
                if i < words.len() - 1 {
                    assert(words.drop_last()[i] == words[i]);
                }
            }
        }
    }
}

/// Law: content raises no flag exactly when its lower-case form holds no banned word and no
/// spam phrase and its length is from `MIN_CONTENT_BYTES` to `MAX_CONTENT_BYTES` bytes.
pub proof fn law_clean_content_has_no_flags(content: Seq<char>)
    ensures
        spec_check_content(content).len() == 0 <==> {
            let lower = lowercase(content);
            let bytes = vstd::utf8::encode_utf8(content).len() as usize;
            &&& none_occurs(spec_banned_words(), lower)
            &&& none_occurs(spec_spam_patterns(), lower)
            &&& MIN_CONTENT_BYTES <= bytes <= MAX_CONTENT_BYTES
        },
{
    let lower = lowercase(content);
    lemma_tagged_hits_empty("banned_word:"@, spec_banned_words(), lower);
    lemma_tagged_hits_empty("spam_pattern:"@, spec_spam_patterns(), lower);
}

/// Law: every banned word or spam phrase found in the lower-case content is reported, under
/// its tag.
pub proof fn law_found_words_are_flagged(tag: Seq<char>, words: Seq<Seq<char>>, text: Seq<char>, i: int)
    requires
        0 <= i < words.len(),
        has_substring(text, words[i]),
    ensures
        tagged_hits(tag, words, text).contains(tag + words[i]),
    decreases words.len(),
{
    let r = tagged_hits(tag, words, text);
    if i == words.len() - 1 {
        assert(r.last() == tag + words[i]);
        assert(r[r.len() - 1] == tag + words[i]);
    } else {
        assert(words.drop_last()[i] == words[i]);
        law_found_words_are_flagged(tag, words.drop_last(), text, i);
        let r0 = tagged_hits(tag, words.drop_last(), text);
        let k = choose|k: int| 0 <= k < r0.len() && r0[k] == tag + words[i];
        assert(r[k] == r0[k]);
    }
}

proof fn lemma_hits_in_flags(lower: Seq<char>, bytes: usize, f: Seq<char>)
    requires
        tagged_hits("banned_word:"@, spec_banned_words(), lower).contains(f) || tagged_hits(
            "spam_pattern:"@,
            spec_spam_patterns(),
            lower,
        ).contains(f),
    ensures
        content_flags(lower, bytes).contains(f),
{
    let a = tagged_hits("banned_word:"@, spec_banned_words(), lower);
    let b = tagged_hits("spam_pattern:"@, spec_spam_patterns(), lower);
    let c: Seq<Seq<char>> = if bytes > MAX_CONTENT_BYTES { seq!["too_long"@] } else { Seq::empty() };
    let d: Seq<Seq<char>> = if bytes < MIN_CONTENT_BYTES { seq!["too_short"@] } else { Seq::empty() };
    let all = a + b + c + d;
    assert(all == content_flags(lower, bytes));
    if a.contains(f) {
        let k = choose|k: int| 0 <= k < a.len() && a[k] == f;
        assert(all[k] == f);
    } else {
        let k = choose|k: int| 0 <= k < b.len() && b[k] == f;
        assert(all[a.len() + k] == f);
    }
}

/// Law: the spam phrases are `http://`, `free money`, `click here`, `act now`,
/// `limited time` and `congratulations you won`: a text whose lower-case form contains one
/// of them is flagged `spam_pattern:` and that phrase, whatever its length.
pub proof fn law_spam_phrases_are_flagged(lower: Seq<char>, bytes: usize, w: Seq<char>)
    requires
        w == "http://"@ || w == "free money"@ || w == "click here"@ || w == "act now"@ || w == "limited time"@
            || w == "congratulations you won"@,
        has_substring(lower, w),
    ensures
        content_flags(lower, bytes).contains("spam_pattern:"@ + w),
{
    let ws = spec_spam_patterns();
    let i: int = if w == "http://"@ {
        0
    } else if w == "free money"@ {
        1
    } else if w == "click here"@ {
        2
    } else if w == "act now"@ {
        3
    } else if w == "limited time"@ {
        4
    } else {
        5
    };
    assert(ws[i] == w);
    law_found_words_are_flagged("spam_pattern:"@, ws, lower, i);
    lemma_hits_in_flags(lower, bytes, "spam_pattern:"@ + w);
}

/// Law: the banned words are `spam`, `scam`, `phish` and `malware`: a text whose lower-case
/// form contains one of them is flagged `banned_word:` and that word, whatever its length.
pub proof fn law_banned_words_are_flagged(lower: Seq<char>, bytes: usize, w: Seq<char>)
    requires
        w == "spam"@ || w == "scam"@ || w == "phish"@ || w == "malware"@,
        has_substring(lower, w),
    ensures
        content_flags(lower, bytes).contains("banned_word:"@ + w),
{
    let ws = spec_banned_words();
    let i: int = if w == "spam"@ {
        0
    } else if w == "scam"@ {
        1
    } else if w == "phish"@ {
        2
    } else {
        3
    };
    assert(ws[i] == w);
    law_found_words_are_flagged("banned_word:"@, ws, lower, i);
    lemma_hits_in_flags(lower, bytes, "banned_word:"@ + w);
}

proof fn lemma_hits_are_tagged_words(tag: Seq<char>, words: Seq<Seq<char>>, text: Seq<char>, f: Seq<char>)
    requires
        tagged_hits(tag, words, text).contains(f),
    ensures
        exists|i: int| 0 <= i < words.len() && f == tag + #[trigger] words[i],
    decreases words.len(),
{
    let r0 = tagged_hits(tag, words.drop_last(), text);
    if r0.contains(f) {
        lemma_hits_are_tagged_words(tag, words.drop_last(), text, f);
        let i = choose|i: int| 0 <= i < words.drop_last().len() && f == tag + #[trigger] words.drop_last()[i];
        assert(words[i] == words.drop_last()[i]);
    } else {
        let r = tagged_hits(tag, words, text);
        let k = choose|k: int| 0 <= k < r.len() && r[k] == f;
        assert(r == r0.push(tag + words.last()));
        assert(k == r0.len());
        assert(words[words.len() - 1] == words.last());
    }
}

/// Law: every flag raised is one of the listed ones: `banned_word:` and one of `spam`,
/// `scam`, `phish`, `malware`; `spam_pattern:` and one of the six spam phrases; `too_long`;
/// or `too_short`.
pub proof fn law_flags_are_listed(lower: Seq<char>, bytes: usize, f: Seq<char>)
    requires
        content_flags(lower, bytes).contains(f),
    ensures
        f == "banned_word:"@ + "spam"@ || f == "banned_word:"@ + "scam"@ || f == "banned_word:"@ + "phish"@
            || f == "banned_word:"@ + "malware"@ || f == "spam_pattern:"@ + "http://"@ || f == "spam_pattern:"@
            + "free money"@ || f == "spam_pattern:"@ + "click here"@ || f == "spam_pattern:"@ + "act now"@ || f
            == "spam_pattern:"@ + "limited time"@ || f == "spam_pattern:"@ + "congratulations you won"@ || f
            == "too_long"@ || f == "too_short"@,
{
    let a = tagged_hits("banned_word:"@, spec_banned_words(), lower);
    let b = tagged_hits("spam_pattern:"@, spec_spam_patterns(), lower);
    let c: Seq<Seq<char>> = if bytes > MAX_CONTENT_BYTES { seq!["too_long"@] } else { Seq::empty() };
    let d: Seq<Seq<char>> = if bytes < MIN_CONTENT_BYTES { seq!["too_short"@] } else { Seq::empty() };
    let all = a + b + c + d;
    assert(all == content_flags(lower, bytes));
    let k = choose|k: int| 0 <= k < all.len() && all[k] == f;
    if k < a.len() {
        assert(a[k] == f);
        lemma_hits_are_tagged_words("banned_word:"@, spec_banned_words(), lower, f);
        let i = choose|i: int| 0 <= i < spec_banned_words().len() && f == "banned_word:"@ + #[trigger] spec_banned_words()[i];
        assert(0 <= i < 4);
    } else if k < a.len() + b.len() {
        assert(b[k - a.len()] == f);
        lemma_hits_are_tagged_words("spam_pattern:"@, spec_spam_patterns(), lower, f);
        let i = choose|i: int| 0 <= i < spec_spam_patterns().len() && f == "spam_pattern:"@ + #[trigger] spec_spam_patterns()[i];
        assert(0 <= i < 6);
    } else if k < a.len() + b.len() + c.len() {
        assert(c[k - a.len() - b.len()] == f);
    } else {
        assert(d[k - a.len() - b.len() - c.len()] == f);
    }
}

} // verus!
