//! Letter-case patterns of a span: how to detect one and how to put one back.
use vstd::prelude::*;

use crate::text::{
    char_is_alphabetic, char_is_lowercase, char_is_uppercase, chars_of, is_alpha, is_lower,
    is_upper, lower_chars, lower_text, upper_chars, upper_text,
};

verus! {

/// The overall casing of a span, judged from its letters alone.
#[derive(PartialEq, Eq, Structural, Copy, Clone, Debug)]
pub enum CaseType {
    /// the whole word is in lowercase (the default)
    Lcase,
    /// the whole word is in uppercase
    Ucase,
    /// the first letter is uppercase, the rest is lowercase
    FstUcase,
}

/// The alphabetic characters of `s`, in order.
pub open spec fn letters(s: Seq<char>) -> Seq<char> {
    s.filter(|c: char| is_alpha(c))
}

pub open spec fn any_upper(a: Seq<char>) -> bool {
    exists|i: int| 0 <= i < a.len() && is_upper(#[trigger] a[i])
}

pub open spec fn any_lower(a: Seq<char>) -> bool {
    exists|i: int| 0 <= i < a.len() && is_lower(#[trigger] a[i])
}

/// Lowercase letters only: lowercase. Uppercase letters only: uppercase.
/// Both, with an uppercase first letter and a lowercase second one:
/// capitalised. Anything else, no letters included: lowercase.
pub open spec fn classify(s: Seq<char>) -> CaseType {
    let a = letters(s);
    if any_lower(a) && !any_upper(a) {
        CaseType::Lcase
    } else if any_upper(a) && !any_lower(a) {
        CaseType::Ucase
    } else if a.len() >= 2 && is_upper(a[0]) && is_lower(a[1]) {
        CaseType::FstUcase
    } else {
        CaseType::Lcase
    }
}

/// The first character upper-cased, the rest kept.
pub open spec fn capitalize(s: Seq<char>) -> Seq<char> {
    if s.len() == 0 {
        s
    } else {
        upper_text(seq![s[0]]) + s.skip(1)
    }
}

/// `s`, which holds lowercase text, put into the casing `case`.
pub open spec fn restored(s: Seq<char>, case: CaseType) -> Seq<char> {
    match case {
        CaseType::Lcase => lower_text(s),
        CaseType::Ucase => upper_text(s),
        CaseType::FstUcase => capitalize(lower_text(s)),
    }
}

/// The casing pattern of a sequence of characters.
pub fn case_of_chars(txt: &Vec<char>) -> (r: CaseType)
    ensures
        r == classify(txt@),
{
    let mut alph: Vec<char> = Vec::new();
    let n = txt.len();
    let mut i: usize = 0;
    while i < n
        invariant
            n == txt@.len(),
            i <= n,
            alph@ == letters(txt@.take(i as int)),
        decreases n - i,
    {
        let c = txt[i];
        proof {
            reveal(Seq::filter);
            assert(txt@.take(i + 1).drop_last() =~= txt@.take(i as int));
            assert(txt@.take(i + 1).last() == c);
        }
        if char_is_alphabetic(c) {
            alph.push(c);
        }
        i = i + 1;
    }
    assert(txt@.take(n as int) =~= txt@);
    let mut has_upper = false;
    let mut has_lower = false;
    let m = alph.len();
    let mut j: usize = 0;
    while j < m
        invariant
            m == alph@.len(),
            j <= m,
            has_upper == exists|k: int| 0 <= k < j && is_upper(#[trigger] alph@[k]),
            has_lower == exists|k: int| 0 <= k < j && is_lower(#[trigger] alph@[k]),
        decreases m - j,
    {
        let c = alph[j];
        if char_is_uppercase(c) {
            has_upper = true;
        }
        if char_is_lowercase(c) {
            has_lower = true;
        }
        j = j + 1;
    }
    if has_lower && !has_upper {
        CaseType::Lcase
    } else if has_upper && !has_lower {
        CaseType::Ucase
    } else if m >= 2 && char_is_uppercase(alph[0]) && char_is_lowercase(alph[1]) {
        CaseType::FstUcase
    } else {
        CaseType::Lcase
    }
}

/// The casing pattern of `txt`, judged from its alphabetic characters.
pub fn get_case(txt: &str) -> (r: CaseType)
    ensures
        r == classify(txt@),
{
    let chars = chars_of(txt);
    case_of_chars(&chars)
}

/// Puts the lowercase text `txt` into the casing `case`.
pub fn restore_case(txt: &Vec<char>, case: CaseType) -> (r: Vec<char>)
    ensures
        r@ == restored(txt@, case),
{
    match case {
        CaseType::Lcase => lower_chars(txt),
        CaseType::Ucase => upper_chars(txt),
        CaseType::FstUcase => {
            let low = lower_chars(txt);
            if low.len() == 0 {
                return low;
            }
            let first: Vec<char> = vec![low[0]];
            assert(first@ =~= seq![low@[0]]);
            let mut out = upper_chars(&first);
            let n = low.len();
            let mut i: usize = 1;
            while i < n
                invariant
                    n == low@.len(),
                    1 <= i <= n,
                    out@ == upper_text(seq![low@[0]]) + low@.subrange(1, i as int),
                decreases n - i,
            {
                out.push(low[i]);
                assert(low@.subrange(1, i + 1) =~= low@.subrange(1, i as int).push(low@[i as int]));
                i = i + 1;
            }
            assert(low@.subrange(1, n as int) =~= low@.skip(1));
            out
        },
    }
}

} // verus!
