//! Text rules that the requests rely on: what counts as surrounding
//! whitespace, and when a keyword occurs in a title.

use vstd::prelude::*;

verus! {

/// Whether `c` is white space: a character with the Unicode property
/// `White_Space`.
pub open spec fn is_space(c: char) -> bool {
    let n = c as u32;
    ||| 0x09 <= n <= 0x0D
    ||| n == 0x20
    ||| n == 0x85
    ||| n == 0xA0
    ||| n == 0x1680
    ||| 0x2000 <= n <= 0x200A
    ||| n == 0x2028
    ||| n == 0x2029
    ||| n == 0x202F
    ||| n == 0x205F
    ||| n == 0x3000
}

/// `s` without the white space at its start.
pub open spec fn trimmed_start(s: Seq<char>) -> Seq<char>
    decreases s.len(),
{
    if s.len() > 0 && is_space(s[0]) {
        trimmed_start(s.drop_first())
    } else {
        s
    }
}

/// `s` without the white space at its end.
pub open spec fn trimmed_end(s: Seq<char>) -> Seq<char>
    decreases s.len(),
{
    if s.len() > 0 && is_space(s.last()) {
        trimmed_end(s.drop_last())
    } else {
        s
    }
}

/// `s` without the white space at its start and at its end.
pub open spec fn trimmed(s: Seq<char>) -> Seq<char> {
    trimmed_end(trimmed_start(s))
}

/// `str::trim` of the standard library: the slice of `s` that is left when
/// the leading and the trailing characters with the Unicode property
/// `White_Space` are removed. Nothing of this contract is proved here.
#[verifier::external_body]
pub(crate) fn trim(s: &str) -> (inner: &str)
    ensures
        inner@ == trimmed(s@),
{
    s.trim()
}

/// Whether two strings hold the same characters.
pub fn same_text(a: &str, b: &str) -> (same: bool)
    ensures
        same == (a@ == b@),
{
    a.to_owned() == b.to_owned()
}

/// The code of `c`, with the letters `A` to `Z` taken as `a` to `z`.
pub open spec fn folded(c: char) -> int {
    if 0x41 <= c as u32 <= 0x5A {
        c as u32 + 0x20
    } else {
        c as u32 as int
    }
}

/// Whether `word` stands in `text` at index `at`, the case of the letters
/// `A` to `Z` and `a` to `z` set aside.
pub open spec fn occurs_at(text: Seq<char>, word: Seq<char>, at: int) -> bool {
    &&& 0 <= at
    &&& at + word.len() <= text.len()
    &&& forall|k: int| 0 <= k < word.len() ==> folded(#[trigger] text[at + k]) == folded(word[k])
}

/// Whether `keyword` occurs somewhere in `title`, the case of the letters
/// `A` to `Z` and `a` to `z` set aside. The empty keyword occurs in every
/// title.
pub open spec fn title_has(title: Seq<char>, keyword: Seq<char>) -> bool {
    exists|at: int| occurs_at(title, keyword, at)
}

/// Computes the folded code of a character.
pub fn fold(c: char) -> (code: u32)
    ensures
        code == folded(c),
{
    let n: u32 = c as u32;
    if 0x41 <= n && n <= 0x5A {
        n + 0x20
    } else {
        n
    }
}

/// The characters of a string.
pub fn chars_of(s: &str) -> (chars: Vec<char>)
    ensures
        chars@ == s@,
{
    let mut chars: Vec<char> = Vec::new();
    for c in it: s.chars()
        invariant
            it.seq() == s@,
            chars@ =~= it.seq().take(it.index() as int),
    {
        chars.push(c);
    }
    assert(s@.take(s@.len() as int) =~= s@);
    chars
}

/// Whether `word` stands in `text` at index `at`, case set aside.
fn stands_at(text: &Vec<char>, word: &Vec<char>, at: usize) -> (found: bool)
    requires
        at + word.len() <= text.len(),
    ensures
        found == occurs_at(text@, word@, at as int),
{
    let mut k: usize = 0;
    while k < word.len()
        invariant
            k <= word.len(),
            at + word.len() <= text.len(),
            forall|j: int| 0 <= j < k ==> folded(#[trigger] text@[at + j]) == folded(word@[j]),
        decreases word.len() - k,
    {
        if fold(text[at + k]) != fold(word[k]) {
            return false;
        }
        k = k + 1;
    }
    true
}

/// Decides whether `keyword` occurs somewhere in `title`, the case of the
/// letters `A` to `Z` and `a` to `z` set aside.
pub fn title_matches(title: &str, keyword: &str) -> (found: bool)
    ensures
        found == title_has(title@, keyword@),
{
    let text = chars_of(title);
    let word = chars_of(keyword);
    if word.len() > text.len() {
        return false;
    }
    let last: usize = text.len() - word.len();
    let mut at: usize = 0;
    while at <= last
        invariant
            at <= last + 1,
            last == text.len() - word.len(),
            word.len() <= text.len(),
            text@ == title@,
            word@ == keyword@,
            forall|a: int| 0 <= a < at ==> !occurs_at(text@, word@, a),
        decreases last + 1 - at,
    {
        if stands_at(&text, &word, at) {
            assert(occurs_at(title@, keyword@, at as int));
            return true;
        }
        at = at + 1;
    }
    false
}

} // verus!
