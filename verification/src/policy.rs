//! The suppression policy: in which windows the keys are left as they are.

use crate::focus::FocusSnapshot;
use vstd::prelude::*;

verus! {

/// The pattern stands in the text at position `at`.
pub open spec fn occurs_at(text: Seq<char>, pattern: Seq<char>, at: int) -> bool {
    0 <= at && at + pattern.len() <= text.len() && text.subrange(at, at + pattern.len())
        =~= pattern
}

/// The pattern stands somewhere in the text, character for character.
pub open spec fn has_text(text: Seq<char>, pattern: Seq<char>) -> bool {
    exists|at: int| occurs_at(text, pattern, at)
}

/// The small letter of a capital letter of the ASCII alphabet; every other
/// character is left as it is.
pub open spec fn ascii_lower(c: char) -> char {
    match c {
        'A' => 'a',
        'B' => 'b',
        'C' => 'c',
        'D' => 'd',
        'E' => 'e',
        'F' => 'f',
        'G' => 'g',
        'H' => 'h',
        'I' => 'i',
        'J' => 'j',
        'K' => 'k',
        'L' => 'l',
        'M' => 'm',
        'N' => 'n',
        'O' => 'o',
        'P' => 'p',
        'Q' => 'q',
        'R' => 'r',
        'S' => 's',
        'T' => 't',
        'U' => 'u',
        'V' => 'v',
        'W' => 'w',
        'X' => 'x',
        'Y' => 'y',
        'Z' => 'z',
        _ => c,
    }
}

/// The text with its capital ASCII letters made small.
pub open spec fn lowered(text: Seq<char>) -> Seq<char> {
    text.map_values(|c: char| ascii_lower(c))
}

/// Whether a window with this title and class asks for the keys untouched: a
/// terminal by its class, or an editor by its title. The class is compared as
/// it is written; in the title, capital and small ASCII letters count as the
/// same.
pub open spec fn suppressing(title: Seq<char>, class: Seq<char>) -> bool {
    has_text(class, "terminal"@) || has_text(lowered(title), "vim"@) || has_text(
        lowered(title),
        "code"@,
    ) || has_text(lowered(title), "emacs"@)
}

/// Whether remapping is suppressed, given what is known of the focus. Where
/// nothing is known the keys are remapped.
pub open spec fn suppressed_by(snapshot: Option<FocusSnapshot>) -> bool {
    match snapshot {
        Some(s) => suppressing(s.title@, s.window_class@),
        None => false,
    }
}

/// The characters of a text.
fn chars_of(text: &str) -> (chars: Vec<char>)
    ensures
        chars@ == text@,
{
    let mut chars: Vec<char> = Vec::new();
    for c in it: text.chars()
        invariant
            it.seq() == text@,
            chars@ == it.seq().take(it.index() as int),
    {
        proof {
            assert(it.seq().take(it.index() + 1) =~= it.seq().take(it.index() as int).push(c));
        }
        chars.push(c);
    }
    proof {
        assert(text@.take(text@.len() as int) =~= text@);
    }
    chars
}

/// Whether the pattern stands in the text at position `at`.
fn matches_at(text: &Vec<char>, pattern: &Vec<char>, at: usize) -> (r: bool)
    requires
        at + pattern.len() <= text.len(),
    ensures
        r == occurs_at(text@, pattern@, at as int),
{
    let m = pattern.len();
    let mut k: usize = 0;
    while k < m
        invariant
            m == pattern.len(),
            k <= m,
            at + m <= text.len(),
            forall|j: int| 0 <= j < k ==> text[at + j] == #[trigger] pattern[j],
        decreases m - k,
    {
        if text[at + k] != pattern[k] {
            proof {
                let part = text@.subrange(at as int, at + m);
                assert(part[k as int] == text[at + k]);
            }
            return false;
        }
        k = k + 1;
    }
    true
}

/// Whether the pattern stands somewhere in the text.
fn find(hay: &Vec<char>, needle: &Vec<char>) -> (r: bool)
    ensures
        r == has_text(hay@, needle@),
{
    let n = hay.len();
    let m = needle.len();
    if m > n {
        return false;
    }
    let mut at: usize = 0;
    while at <= n - m
        invariant
            n == hay.len(),
            m == needle.len(),
            m <= n,
            at <= n - m + 1,
            forall|i: int| 0 <= i < at ==> !occurs_at(hay@, needle@, i),
        decreases n - m + 1 - at,
    {
        if matches_at(hay, needle, at) {
            return true;
        }
        at = at + 1;
    }
    false
}

/// The small letter of a capital ASCII letter, and every other character as
/// it is.
pub fn to_ascii_lower(c: char) -> (r: char)
    ensures
        r == ascii_lower(c),
{
    match c {
        'A' => 'a',
        'B' => 'b',
        'C' => 'c',
        'D' => 'd',
        'E' => 'e',
        'F' => 'f',
        'G' => 'g',
        'H' => 'h',
        'I' => 'i',
        'J' => 'j',
        'K' => 'k',
        'L' => 'l',
        'M' => 'm',
        'N' => 'n',
        'O' => 'o',
        'P' => 'p',
        'Q' => 'q',
        'R' => 'r',
        'S' => 's',
        'T' => 't',
        'U' => 'u',
        'V' => 'v',
        'W' => 'w',
        'X' => 'x',
        'Y' => 'y',
        'Z' => 'z',
        _ => c,
    }
}

/// The characters of a text, capital ASCII letters made small.
fn lowered_chars(chars: &Vec<char>) -> (low: Vec<char>)
    ensures
        low@ == lowered(chars@),
{
    let mut low: Vec<char> = Vec::new();
    let n = chars.len();
    let mut i: usize = 0;
    while i < n
        invariant
            n == chars.len(),
            i <= n,
            low@ == lowered(chars@.take(i as int)),
        decreases n - i,
    {
        proof {
            assert(lowered(chars@.take(i + 1)) =~= lowered(chars@.take(i as int)).push(
                ascii_lower(chars[i as int]),
            ));
        }
        low.push(to_ascii_lower(chars[i]));
        i = i + 1;
    }
    proof {
        assert(chars@.take(n as int) =~= chars@);
    }
    low
}

/// Whether the pattern stands somewhere in the text. The comparison is by
/// character and case-sensitive; the empty pattern stands in every text.
pub fn contains_text(text: &str, pattern: &str) -> (r: bool)
    ensures
        r == has_text(text@, pattern@),
{
    let hay = chars_of(text);
    let needle = chars_of(pattern);
    find(&hay, &needle)
}

/// Whether the pattern stands somewhere in the text when capital and small
/// ASCII letters count as the same.
pub fn contains_text_ignoring_case(text: &str, pattern: &str) -> (r: bool)
    ensures
        r == has_text(lowered(text@), lowered(pattern@)),
{
    let hay = lowered_chars(&chars_of(text));
    let needle = lowered_chars(&chars_of(pattern));
    find(&hay, &needle)
}

/// Whether remapping is suppressed while this is what is known of the focus.
pub fn is_suppressed(snapshot: Option<&FocusSnapshot>) -> (r: bool)
    ensures
        r == suppressed_by(
            match snapshot {
                Some(s) => Some(*s),
                None => None,
            },
        ),
{
    match snapshot {
        Some(s) => {
            if contains_text(s.window_class.as_str(), "terminal") {
                return true;
            }
            let title = lowered_chars(&chars_of(s.title.as_str()));
            find(&title, &chars_of("vim")) || find(&title, &chars_of("code")) || find(
                &title,
                &chars_of("emacs"),
            )
        },
        None => false,
    }
}

} // verus!
