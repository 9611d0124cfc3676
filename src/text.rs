//! Character classes, ASCII case folding and token scanning over strings.
use vstd::prelude::*;
use vstd::string::StrSliceExecFns;

verus! {

/// The classes of characters that the condition grammar is built from.
#[derive(Clone, Copy, PartialEq, Eq, Structural)]
pub enum CharClass {
    /// Space or tab.
    Blank,
    /// ASCII letters, `_` and `-`: the characters of a keyword.
    KeywordChar,
    /// ASCII letters, digits, `_` and `-`: the characters of a target name.
    WordChar,
    /// ASCII decimal digits.
    Digit,
}

pub open spec fn is_ascii_alpha(c: char) -> bool {
    (65 <= (c as u32) && (c as u32) <= 90) || (97 <= (c as u32) && (c as u32) <= 122)
}

pub open spec fn is_ascii_digit(c: char) -> bool {
    48 <= (c as u32) && (c as u32) <= 57
}

pub open spec fn in_class(c: char, class: CharClass) -> bool {
    match class {
        CharClass::Blank => c == ' ' || c == '\t',
        CharClass::KeywordChar => is_ascii_alpha(c) || c == '_' || c == '-',
        CharClass::WordChar => is_ascii_alpha(c) || is_ascii_digit(c) || c == '_' || c == '-',
        CharClass::Digit => is_ascii_digit(c),
    }
}

/// Whether `c` belongs to `class`.
pub fn char_in_class(c: char, class: CharClass) -> (r: bool)
    ensures
        r == in_class(c, class),
{
    let v = c as u32;
    let alpha = (65 <= v && v <= 90) || (97 <= v && v <= 122);
    let digit = 48 <= v && v <= 57;
    match class {
        CharClass::Blank => c == ' ' || c == '\t',
        CharClass::KeywordChar => alpha || c == '_' || c == '-',
        CharClass::WordChar => alpha || digit || c == '_' || c == '-',
        CharClass::Digit => digit,
    }
}

/// The end of the longest run of `class` characters in `s` starting at `i`.
pub open spec fn run_end(s: Seq<char>, i: int, class: CharClass) -> int
    decreases s.len() - i,
{
    if 0 <= i < s.len() && in_class(s[i], class) {
        run_end(s, i + 1, class)
    } else {
        i
    }
}

pub proof fn lemma_run_end_bounds(s: Seq<char>, i: int, class: CharClass)
    requires
        0 <= i <= s.len(),
    ensures
        i <= run_end(s, i, class) <= s.len(),
        forall|k: int| i <= k < run_end(s, i, class) ==> in_class(#[trigger] s[k], class),
        run_end(s, i, class) < s.len() ==> !in_class(s[run_end(s, i, class)], class),
    decreases s.len() - i,
{
    if i < s.len() && in_class(s[i], class) {
        lemma_run_end_bounds(s, i + 1, class);
    }
}

/// Skips the run of `class` characters of `text` that starts at `start`.
pub fn scan_run(text: &str, len: usize, start: usize, class: CharClass) -> (end: usize)
    requires
        len == text@.len(),
        start <= len,
    ensures
        end == run_end(text@, start as int, class),
        start <= end <= len,
{
    proof {
        lemma_run_end_bounds(text@, start as int, class);
    }
    let mut j: usize = start;
    while j < len
        invariant
            len == text@.len(),
            start <= j <= len,
            run_end(text@, j as int, class) == run_end(text@, start as int, class),
        decreases len - j,
    {
        let c = text.get_char(j);
        if !char_in_class(c, class) {
            assert(run_end(text@, j as int, class) == j);
            return j;
        }
        j = j + 1;
    }
    assert(run_end(text@, j as int, class) == j);
    j
}

/// The code of `c` after ASCII lowercasing.
pub open spec fn fold_char(c: char) -> int {
    if 65 <= (c as u32) && (c as u32) <= 90 {
        (c as u32) + 32
    } else {
        c as u32 as int
    }
}

/// `a` and `b` are equal when ASCII letters are compared without regard to case.
pub open spec fn eq_ignore_case(a: Seq<char>, b: Seq<char>) -> bool {
    &&& a.len() == b.len()
    &&& forall|k: int| 0 <= k < a.len() ==> fold_char(#[trigger] a[k]) == fold_char(b[k])
}

fn fold(c: char) -> (r: u32)
    ensures
        r as int == fold_char(c),
{
    let v = c as u32;
    if 65 <= v && v <= 90 {
        v + 32
    } else {
        v
    }
}

/// Compares `text[from..to]` with `word`, ignoring ASCII case.
pub fn range_eq_ignore_case(text: &str, from: usize, to: usize, word: &Vec<char>) -> (r: bool)
    requires
        from <= to <= text@.len(),
    ensures
        r == eq_ignore_case(text@.subrange(from as int, to as int), word@),
{
    let n = to - from;
    if n != word.len() {
        return false;
    }
    let mut k: usize = 0;
    while k < n
        invariant
            n == to - from,
            from <= to <= text@.len(),
            n == word@.len(),
            k <= n,
            forall|m: int|
                0 <= m < k ==> fold_char(#[trigger] text@[from + m]) == fold_char(word@[m]),
        decreases n - k,
    {
        if fold(text.get_char(from + k)) != fold(word[k]) {
            assert(text@.subrange(from as int, to as int)[k as int] == text@[from + k]);
            return false;
        }
        k = k + 1;
    }
    assert forall|m: int| 0 <= m < n implies fold_char(
        #[trigger] text@.subrange(from as int, to as int)[m],
    ) == fold_char(word@[m]) by {
        assert(text@.subrange(from as int, to as int)[m] == text@[from + m]);
    }
    true
}

/// Compares two strings, ignoring ASCII case.
pub fn str_eq_ignore_case(a: &str, b: &str) -> (r: bool)
    ensures
        r == eq_ignore_case(a@, b@),
{
    let n = a.unicode_len();
    if n != b.unicode_len() {
        return false;
    }
    let mut k: usize = 0;
    while k < n
        invariant
            n == a@.len(),
            n == b@.len(),
            k <= n,
            forall|m: int| 0 <= m < k ==> fold_char(#[trigger] a@[m]) == fold_char(b@[m]),
        decreases n - k,
    {
        if fold(a.get_char(k)) != fold(b.get_char(k)) {
            return false;
        }
        k = k + 1;
    }
    true
}

/// The value of a string of decimal digits.
pub open spec fn digits_value(s: Seq<char>) -> nat
    decreases s.len(),
{
    if s.len() == 0 {
        0
    } else {
        digits_value(s.drop_last()) * 10 + ((s.last() as u32) - 48) as nat
    }
}

/// The decimal digits of `n`, most significant first, without leading zeros.
pub open spec fn decimal(n: nat) -> Seq<char>
    decreases n,
{
    if n < 10 {
        seq![digit_char(n)]
    } else {
        decimal(n / 10).push(digit_char(n % 10))
    }
}

pub open spec fn digit_char(d: nat) -> char {
    if d == 0 { '0' }
    else if d == 1 { '1' }
    else if d == 2 { '2' }
    else if d == 3 { '3' }
    else if d == 4 { '4' }
    else if d == 5 { '5' }
    else if d == 6 { '6' }
    else if d == 7 { '7' }
    else if d == 8 { '8' }
    else { '9' }
}

} // verus!
