use vstd::prelude::*;
use crate::text::chars_of;

verus! {

/// The code point of a character, capital ASCII letters taken as small ones.
pub open spec fn folded(c: char) -> u32 {
    if 'A' <= c && c <= 'Z' {
        (c as u32 + 32) as u32
    } else {
        c as u32
    }
}

/// Whether a character can stand inside a word: an ASCII letter or digit, or
/// an underscore.
pub open spec fn word_char(c: char) -> bool {
    ('a' <= c && c <= 'z') || ('A' <= c && c <= 'Z') || ('0' <= c && c <= '9') || c == '_'
}

/// Whether `word` stands in `text` at position `i` as a whole word, letter
/// case aside: the characters agree once folded, and neither the character
/// before nor the one after can stand inside a word.
pub open spec fn word_at(text: Seq<char>, word: Seq<char>, i: int) -> bool {
    &&& 0 <= i
    &&& i + word.len() <= text.len()
    &&& forall|k: int| 0 <= k < word.len() ==> folded(#[trigger] text[i + k]) == folded(word[k])
    &&& (i == 0 || !word_char(text[i - 1]))
    &&& (i + word.len() == text.len() || !word_char(text[i + word.len()]))
}

/// Whether the non-empty `word` stands somewhere in `text` as a whole word,
/// letter case aside.
pub open spec fn has_word(text: Seq<char>, word: Seq<char>) -> bool {
    word.len() > 0 && exists|i: int| word_at(text, word, i)
}

fn fold(c: char) -> (r: u32)
    ensures
        r == folded(c),
{
    if 'A' <= c && c <= 'Z' {
        c as u32 + 32
    } else {
        c as u32
    }
}

fn is_word_char(c: char) -> (r: bool)
    ensures
        r == word_char(c),
{
    ('a' <= c && c <= 'z') || ('A' <= c && c <= 'Z') || ('0' <= c && c <= '9') || c == '_'
}

/// Whether `word` stands in `text` at position `i` as a whole word.
fn stands_at(text: &Vec<char>, word: &Vec<char>, i: usize) -> (r: bool)
    requires
        i + word.len() <= text.len(),
    ensures
        r == word_at(text@, word@, i as int),
{
    if i > 0 && is_word_char(text[i - 1]) {
        return false;
    }
    if i + word.len() < text.len() && is_word_char(text[i + word.len()]) {
        return false;
    }
    let mut k: usize = 0;
    while k < word.len()
        invariant
            k <= word.len(),
            i + word.len() <= text.len(),
            forall|j: int| 0 <= j < k ==> folded(#[trigger] text[i + j]) == folded(word[j]),
        decreases word.len() - k,
    {
        if fold(text[i + k]) != fold(word[k]) {
            return false;
        }
        k = k + 1;
    }
    true
}

/// Whether the text holds the word as a whole word, letter case aside. The
/// empty word is in no text.
pub fn contains_whole_word_ci(text: &str, word: &str) -> (r: bool)
    ensures
        r == has_word(text@, word@),
{
    let t = chars_of(text);
    let w = chars_of(word);
    if w.len() == 0 || w.len() > t.len() {
        return false;
    }
    let last = t.len() - w.len();
    let mut i: usize = 0;
    while i <= last
        invariant
            t@ == text@,
            w@ == word@,
            w.len() > 0,
            w.len() <= t.len(),
            last == t.len() - w.len(),
            i <= last + 1,
            forall|j: int| 0 <= j < i ==> !word_at(t@, w@, j),
        decreases last + 1 - i,
    {
        if stands_at(&t, &w, i) {
            return true;
        }
        i = i + 1;
    }
    false
}

/// Whether a name can go into a script as it is: it is not empty, and it
/// holds ASCII letters, digits and underscores only.
pub open spec fn plain_name(name: Seq<char>) -> bool {
    name.len() > 0 && forall|i: int| 0 <= i < name.len() ==> word_char(#[trigger] name[i])
}

/// Whether a name can go into a script as it is.
pub fn is_plain_name(name: &str) -> (r: bool)
    ensures
        r == plain_name(name@),
{
    let chars = chars_of(name);
    if chars.len() == 0 {
        return false;
    }
    let mut i: usize = 0;
    while i < chars.len()
        invariant
            i <= chars.len(),
            chars@ == name@,
            forall|k: int| 0 <= k < i ==> word_char(#[trigger] chars[k]),
        decreases chars.len() - i,
    {
        if !is_word_char(chars[i]) {
            return false;
        }
        i = i + 1;
    }
    true
}

} // verus!
