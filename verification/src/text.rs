//! Searching and splitting of character sequences.
//!
//! The request grammar is stated over `Seq<char>`; the executable functions
//! here work on `&str` and are proved against those statements.

use vstd::prelude::*;
use vstd::string::StrSliceExecFns;
use vstd::string::StringExecFns;

verus! {

/// `pat` stands in `s` at position `i`.
pub open spec fn occurs_at(s: Seq<char>, pat: Seq<char>, i: int) -> bool {
    &&& 0 <= i
    &&& i + pat.len() <= s.len()
    &&& s.subrange(i, i + pat.len()) == pat
}

/// `pat` stands in `s` at position `i` and at no earlier position.
pub open spec fn is_first_occurrence(s: Seq<char>, pat: Seq<char>, i: int) -> bool {
    &&& occurs_at(s, pat, i)
    &&& forall|j: int| 0 <= j < i ==> !occurs_at(s, pat, j)
}

/// The position of the first occurrence of `pat` in `s`, if there is one.
pub open spec fn first_occurrence(s: Seq<char>, pat: Seq<char>) -> Option<int> {
    if exists|i: int| occurs_at(s, pat, i) {
        Some(choose|i: int| is_first_occurrence(s, pat, i))
    } else {
        None
    }
}

/// What lies before and after the first occurrence of `pat` in `s`.
pub open spec fn spec_split_once(s: Seq<char>, pat: Seq<char>) -> Option<(Seq<char>, Seq<char>)> {
    match first_occurrence(s, pat) {
        Some(i) => Some((s.take(i), s.skip(i + pat.len()))),
        None => None,
    }
}

/// Among the positions at which `pat` occurs there is a least one.
pub proof fn lemma_least_occurrence(s: Seq<char>, pat: Seq<char>, i: int)
    requires
        occurs_at(s, pat, i),
    ensures
        exists|k: int| 0 <= k <= i && is_first_occurrence(s, pat, k),
    decreases i,
{
    if exists|j: int| 0 <= j < i && occurs_at(s, pat, j) {
        let j = choose|j: int| 0 <= j < i && occurs_at(s, pat, j);
        lemma_least_occurrence(s, pat, j);
    } else {
        assert(is_first_occurrence(s, pat, i));
    }
}

/// A first occurrence is the one that `first_occurrence` names.
pub proof fn lemma_first_occurrence_at(s: Seq<char>, pat: Seq<char>, i: int)
    requires
        is_first_occurrence(s, pat, i),
    ensures
        first_occurrence(s, pat) == Some(i),
{
    let c = choose|k: int| is_first_occurrence(s, pat, k);
    if c < i {
        assert(!occurs_at(s, pat, c));
    } else if i < c {
        assert(!occurs_at(s, pat, i));
    }
}

/// Whatever `first_occurrence` names is a first occurrence.
pub proof fn lemma_first_occurrence_is_first(s: Seq<char>, pat: Seq<char>)
    ensures
        first_occurrence(s, pat) matches Some(i) ==> is_first_occurrence(s, pat, i),
        first_occurrence(s, pat) is None ==> forall|i: int| !occurs_at(s, pat, i),
{
    if exists|i: int| occurs_at(s, pat, i) {
        let i = choose|i: int| occurs_at(s, pat, i);
        lemma_least_occurrence(s, pat, i);
    }
}

/// Splitting at a pattern that is not empty leaves two parts that together
/// are shorter than the whole.
pub proof fn lemma_split_once_shorter(s: Seq<char>, pat: Seq<char>)
    requires
        pat.len() > 0,
    ensures
        spec_split_once(s, pat) matches Some((head, tail)) ==> {
            &&& head + pat + tail == s
            &&& head.len() + pat.len() + tail.len() == s.len()
        },
{
    lemma_first_occurrence_is_first(s, pat);
    if let Some(i) = first_occurrence(s, pat) {
        assert(s.take(i) + s.subrange(i, i + pat.len()) + s.skip(i + pat.len()) =~= s);
    }
}

/// The characters of `s`, one by one.
pub fn to_chars(s: &str) -> (chars: Vec<char>)
    ensures
        chars@ == s@,
{
    let mut chars: Vec<char> = Vec::new();
    for c in it: s.chars()
        invariant
            chars@ == it.seq().take(it.index() as int),
    {
        chars.push(c);
    }
    chars
}

/// Whether two texts hold the same characters.
pub fn text_eq(a: &str, b: &str) -> (same: bool)
    ensures
        same == (a@ == b@),
{
    String::from_str(a) == String::from_str(b)
}

/// The lower-case form of a text, as the standard library's
/// `str::to_lowercase` gives it.
pub uninterp spec fn lowercase(s: Seq<char>) -> Seq<char>;

/// Calls `str::to_lowercase`, which maps each character by the Unicode
/// lower-case tables. The contract only names the result: it is a function
/// of the text alone, and nothing more is claimed of it.
#[verifier::external_body]
pub(crate) fn to_lowercase(s: &str) -> (lowered: String)
    ensures
        lowered@ == lowercase(s@),
{
    s.to_lowercase()
}

/// The text that the standard library's `String::from_utf8_lossy` reads
/// from `bytes`.
pub uninterp spec fn lossy_text(bytes: Seq<u8>) -> Seq<char>;

/// Calls `String::from_utf8_lossy`, which decodes UTF-8 and puts the
/// replacement character in place of what is not valid UTF-8. The contract
/// only names the result: it is a function of the bytes alone, and nothing
/// more is claimed of it.
#[verifier::external_body]
pub(crate) fn from_utf8_lossy(bytes: &[u8]) -> (text: String)
    ensures
        text@ == lossy_text(bytes@),
{
    String::from_utf8_lossy(bytes).into_owned()
}

/// The character that writes the digit `d`.
pub open spec fn digit(d: nat) -> char {
    if d == 0 {
        '0'
    } else if d == 1 {
        '1'
    } else if d == 2 {
        '2'
    } else if d == 3 {
        '3'
    } else if d == 4 {
        '4'
    } else if d == 5 {
        '5'
    } else if d == 6 {
        '6'
    } else if d == 7 {
        '7'
    } else if d == 8 {
        '8'
    } else {
        '9'
    }
}

/// The decimal numeral of `n`, without leading zeros.
pub open spec fn decimal(n: nat) -> Seq<char>
    decreases n,
{
    if n < 10 {
        seq![digit(n)]
    } else {
        decimal(n / 10).push(digit(n % 10))
    }
}

/// The one-character text that writes the digit `d`.
fn digit_text(d: usize) -> (text: &'static str)
    requires
        d < 10,
    ensures
        text@ == seq![digit(d as nat)],
{
    let text = if d == 0 {
        "0"
    } else if d == 1 {
        "1"
    } else if d == 2 {
        "2"
    } else if d == 3 {
        "3"
    } else if d == 4 {
        "4"
    } else if d == 5 {
        "5"
    } else if d == 6 {
        "6"
    } else if d == 7 {
        "7"
    } else if d == 8 {
        "8"
    } else {
        "9"
    };
    proof {
        reveal_strlit("0");
        reveal_strlit("1");
        reveal_strlit("2");
        reveal_strlit("3");
        reveal_strlit("4");
        reveal_strlit("5");
        reveal_strlit("6");
        reveal_strlit("7");
        reveal_strlit("8");
        reveal_strlit("9");
        assert(text@ =~= seq![digit(d as nat)]);
    }
    text
}

/// Writes `n` as a decimal numeral.
pub fn decimal_string(n: usize) -> (numeral: String)
    ensures
        numeral@ == decimal(n as nat),
{
    let mut numeral = String::from_str(digit_text(n % 10));
    let mut rest: usize = n / 10;
    while rest > 0
        invariant
            rest > 0 ==> decimal(n as nat) == decimal(rest as nat) + numeral@,
            rest == 0 ==> decimal(n as nat) == numeral@,
        decreases rest,
    {
        let ghost lower = numeral@;
        numeral = String::from_str(digit_text(rest % 10)).concat(numeral.as_str());
        proof {
            let d = seq![digit((rest % 10) as nat)];
            if rest >= 10 {
                assert(decimal(rest as nat) == decimal((rest / 10) as nat) + d);
                assert((decimal((rest / 10) as nat) + d) + lower =~= decimal((rest / 10) as nat)
                    + (d + lower));
            }
        }
        rest = rest / 10;
    }
    numeral
}

/// Whether `pat` stands in `s` at position `i`.
fn matches_at(s: &Vec<char>, pat: &Vec<char>, i: usize) -> (found: bool)
    requires
        i + pat@.len() <= s@.len(),
    ensures
        found == occurs_at(s@, pat@, i as int),
{
    let len: usize = s.len();
    let mut k: usize = 0;
    while k < pat.len()
        invariant
            k <= pat@.len(),
            i + pat@.len() <= s@.len(),
            len == s@.len(),
            forall|m: int| 0 <= m < k ==> s@[i + m] == pat@[m],
        decreases pat@.len() - k,
    {
        if s[i + k] != pat[k] {
            assert(s@.subrange(i as int, i + pat@.len())[k as int] == s@[i + k]);
            return false;
        }
        k += 1;
    }
    assert(s@.subrange(i as int, i + pat@.len()) =~= pat@);
    true
}

/// The position of the first occurrence of `pat` in `s`.
pub fn find(s: &Vec<char>, pat: &Vec<char>) -> (found: Option<usize>)
    ensures
        match found {
            Some(i) => first_occurrence(s@, pat@) == Some(i as int),
            None => first_occurrence(s@, pat@) is None,
        },
{
    if pat.len() > s.len() {
        return None;
    }
    let last: usize = s.len() - pat.len();
    let mut i: usize = 0;
    loop
        invariant
            i <= last,
            last + pat@.len() == s@.len(),
            forall|j: int| 0 <= j < i ==> !occurs_at(s@, pat@, j),
        decreases last - i,
    {
        if matches_at(s, pat, i) {
            proof {
                lemma_first_occurrence_at(s@, pat@, i as int);
            }
            return Some(i);
        }
        if i == last {
            return None;
        }
        i += 1;
    }
}

/// Splits `s` at the first occurrence of `pat`: the text before it and the
/// text after it, or `None` where `pat` does not occur.
pub fn split_once<'a>(s: &'a str, pat: &str) -> (parts: Option<(&'a str, &'a str)>)
    ensures
        match parts {
            Some((head, tail)) => spec_split_once(s@, pat@) == Some((head@, tail@)),
            None => spec_split_once(s@, pat@) is None,
        },
{
    let chars = to_chars(s);
    let pat_chars = to_chars(pat);
    match find(&chars, &pat_chars) {
        Some(i) => {
            proof {
                lemma_first_occurrence_is_first(s@, pat@);
            }
            let len: usize = chars.len();
            let head = s.substring_char(0, i);
            let tail = s.substring_char(i + pat_chars.len(), len);
            assert(head@ =~= s@.take(i as int));
            assert(tail@ =~= s@.skip(i + pat@.len()));
            Some((head, tail))
        },
        None => None,
    }
}

/// Whether `prefix` stands at the start of `s`.
pub fn starts_with(s: &str, prefix: &str) -> (found: bool)
    ensures
        found == prefix@.is_prefix_of(s@),
{
    let chars = to_chars(s);
    let prefix_chars = to_chars(prefix);
    if prefix_chars.len() > chars.len() {
        return false;
    }
    let found = matches_at(&chars, &prefix_chars, 0);
    assert(found == prefix@.is_prefix_of(s@)) by {
        assert(s@.subrange(0, prefix@.len() as int) =~= s@.take(prefix@.len() as int));
        if prefix@.is_prefix_of(s@) {
            assert(s@.take(prefix@.len() as int) =~= prefix@);
        }
    }
    found
}

/// Whether a character is white space, as the standard library's
/// `char::is_whitespace` says.
pub uninterp spec fn whitespace(c: char) -> bool;

/// Calls `char::is_whitespace`, which tells whether a character has the
/// Unicode property `White_Space`. The contract only names the result: it
/// is a function of the character alone, and nothing more is claimed of it.
#[verifier::external_body]
pub(crate) fn is_whitespace(c: char) -> (space: bool)
    ensures
        space == whitespace(c),
{
    c.is_whitespace()
}

/// For each character of `s`, whether it is white space.
pub open spec fn spaces_of(s: Seq<char>) -> Seq<bool> {
    Seq::new(s.len(), |i: int| whitespace(s[i]))
}

/// How many marks at the start of `marks` are `mark`.
pub open spec fn run_len(marks: Seq<bool>, mark: bool) -> nat
    decreases marks.len(),
{
    if marks.len() > 0 && marks[0] == mark {
        1 + run_len(marks.drop_first(), mark)
    } else {
        0
    }
}

/// Where a run of `mark` that starts at `from` ends.
pub open spec fn run_end(marks: Seq<bool>, from: int, mark: bool) -> int {
    from + run_len(marks.skip(from), mark)
}

/// Where the second word stands in a text of which `marks` tells, for each
/// character, whether it is white space: words are the runs of characters
/// that are none. `None` where the text holds less than two words.
pub open spec fn spec_second_word_bounds(marks: Seq<bool>) -> Option<(int, int)> {
    let first_start = run_end(marks, 0, true);
    let first_end = run_end(marks, first_start, false);
    let start = run_end(marks, first_end, true);
    let end = run_end(marks, start, false);
    if end > start {
        Some((start, end))
    } else {
        None
    }
}

/// The second word of `s`, if it holds two.
pub open spec fn spec_second_word(s: Seq<char>) -> Option<Seq<char>> {
    match spec_second_word_bounds(spaces_of(s)) {
        Some((start, end)) => Some(s.subrange(start, end)),
        None => None,
    }
}

/// Where the run of `mark` that starts at `from` ends.
fn find_run_end(marks: &Vec<bool>, from: usize, mark: bool) -> (end: usize)
    requires
        from <= marks@.len(),
    ensures
        from <= end <= marks@.len(),
        end == run_end(marks@, from as int, mark),
{
    let len: usize = marks.len();
    let mut i: usize = from;
    loop
        invariant
            from <= i <= len,
            len == marks@.len(),
            run_len(marks@.skip(from as int), mark) == (i - from) + run_len(
                marks@.skip(i as int),
                mark,
            ),
        decreases len - i,
    {
        if i == len {
            return i;
        }
        assert(marks@.skip(i as int)[0] == marks@[i as int]);
        if marks[i] != mark {
            return i;
        }
        assert(marks@.skip(i as int).drop_first() =~= marks@.skip(i + 1));
        i += 1;
    }
}

/// Where the second word stands in a text of which `marks` tells, for each
/// character, whether it is white space.
pub fn second_word_bounds(marks: &Vec<bool>) -> (bounds: Option<(usize, usize)>)
    ensures
        match bounds {
            Some((start, end)) => spec_second_word_bounds(marks@) == Some(
                (start as int, end as int),
            ) && start < end <= marks@.len(),
            None => spec_second_word_bounds(marks@) is None,
        },
{
    let first_start = find_run_end(marks, 0, true);
    let first_end = find_run_end(marks, first_start, false);
    let start = find_run_end(marks, first_end, true);
    let end = find_run_end(marks, start, false);
    if end > start {
        Some((start, end))
    } else {
        None
    }
}

/// For each character of `chars`, whether it is white space.
fn mark_spaces(chars: &Vec<char>) -> (marks: Vec<bool>)
    ensures
        marks@ == spaces_of(chars@),
{
    let mut marks: Vec<bool> = Vec::new();
    let mut i: usize = 0;
    while i < chars.len()
        invariant
            i <= chars@.len(),
            marks@ == spaces_of(chars@.take(i as int)),
        decreases chars@.len() - i,
    {
        marks.push(is_whitespace(chars[i]));
        i += 1;
        assert(marks@ =~= spaces_of(chars@.take(i as int)));
    }
    assert(chars@.take(i as int) =~= chars@);
    marks
}

/// The second word of `s`, if it holds two. Words are what white space
/// keeps apart.
pub fn second_word<'a>(s: &'a str) -> (word: Option<&'a str>)
    ensures
        match word {
            Some(w) => spec_second_word(s@) == Some(w@),
            None => spec_second_word(s@) is None,
        },
{
    let chars = to_chars(s);
    let marks = mark_spaces(&chars);
    match second_word_bounds(&marks) {
        Some((start, end)) => Some(s.substring_char(start, end)),
        None => None,
    }
}

} // verus!
