//! The word rewrite: short words through the sound table, longer ones from
//! their first vowel on, every word behind the "schm" marker.
use vstd::prelude::*;

use crate::casing::{case_of_chars, classify, restore_case, restored, CaseType};
use crate::segment::{segment, segments};
use crate::text::{char_is_alphabetic, chars_of, is_alpha, lower_chars, lower_text, string_of};

verus! {

/// The marker that every rewritten word starts with.
pub open spec fn marker() -> Seq<char> {
    seq!['s', 'c', 'h', 'm']
}

pub open spec fn is_vowel(c: char) -> bool {
    c == 'a' || c == 'e' || c == 'i' || c == 'o' || c == 'u' || c == 'ä' || c == 'ö' || c == 'ü'
}

/// What replaces the first letter of a short word, after the marker.
pub open spec fn sound(c: char) -> Seq<char> {
    match c {
        'a' | 'e' | 'i' | 'o' | 'u' | 'ä' | 'ö' | 'ü' => seq![c],
        'b' | 'c' | 'd' | 'g' | 'p' | 't' | 'w' => seq!['e'],
        'f' | 'l' | 'm' | 'n' | 'r' | 's' => seq!['e', c],
        'h' | 'k' => seq!['a'],
        'j' => seq!['o', 't'],
        'q' => seq!['u'],
        'v' => seq!['a', 'u'],
        'x' => seq!['i', 'x'],
        'y' => seq![c],
        'z' => seq!['e', 't'],
        _ => seq![c],
    }
}

/// The marker followed by the sound of `c`.
pub open spec fn phonetic(c: char) -> Seq<char> {
    marker() + sound(c)
}

/// How many characters stand before the first vowel of `w`.
pub open spec fn leading_non_vowels(w: Seq<char>) -> nat
    decreases w.len(),
{
    if w.len() == 0 || is_vowel(w[0]) {
        0
    } else {
        1 + leading_non_vowels(w.drop_first())
    }
}

/// The position of the first vowel of `w`, or 0 where it has none.
pub open spec fn vowel_pos(w: Seq<char>) -> int {
    if leading_non_vowels(w) == w.len() {
        0
    } else {
        leading_non_vowels(w) as int
    }
}

/// The lowercase form of `s` starts with the marker.
pub open spec fn is_marked(s: Seq<char>) -> bool {
    lower_text(s).len() >= 4 && lower_text(s).take(4) == marker()
}

/// Inputs that come back as they are: empty, a single non-alphabetic
/// character, or already marked.
pub open spec fn untouched(s: Seq<char>) -> bool {
    s.len() == 0 || (s.len() == 1 && !is_alpha(s[0])) || is_marked(s)
}

/// The rewrite of one word `s`, whose casing was `case`.
pub open spec fn rewrite_word(s: Seq<char>, case: CaseType) -> Seq<char> {
    let w = lower_text(s);
    if w.len() == 0 || !is_alpha(w[0]) {
        w
    } else if w.len() <= 3 && case != CaseType::FstUcase {
        restored(phonetic(w[0]) + w.skip(1), case)
    } else {
        restored(marker() + w.skip(vowel_pos(w)), case)
    }
}

/// The rewrite of a text that holds at most one segment.
pub open spec fn schmfy_piece(s: Seq<char>) -> Seq<char> {
    if untouched(s) {
        s
    } else {
        rewrite_word(s, classify(s))
    }
}

/// The result of `schmfy` on `s`: a text of several segments has each of
/// them rewritten on its own, in order.
pub open spec fn schmfied(s: Seq<char>) -> Seq<char> {
    if !untouched(s) && segments(s).len() > 1 {
        segments(s).map_values(|g: Seq<char>| schmfy_piece(g)).flatten()
    } else {
        schmfy_piece(s)
    }
}

/// Appends `w[start..]` to `v`.
fn append_from(v: &mut Vec<char>, w: &Vec<char>, start: usize)
    requires
        start <= w@.len(),
    ensures
        final(v)@ == old(v)@ + w@.skip(start as int),
{
    let n = w.len();
    let mut i: usize = start;
    while i < n
        invariant
            n == w@.len(),
            start <= i <= n,
            v@ == old(v)@ + w@.subrange(start as int, i as int),
        decreases n - i,
    {
        v.push(w[i]);
        assert(w@.subrange(start as int, i + 1) =~= w@.subrange(start as int, i as int).push(
            w@[i as int],
        ));
        i = i + 1;
    }
    assert(w@.subrange(start as int, n as int) =~= w@.skip(start as int));
}

/// The marker and the sound of a single character.
fn schmfy_char(c: char) -> (r: Vec<char>)
    ensures
        r@ == phonetic(c),
{
    let mut schmet: Vec<char> = vec!['s', 'c', 'h', 'm'];
    match c {
        'a' | 'e' | 'i' | 'o' | 'u' | 'ä' | 'ö' | 'ü' => {
            schmet.push(c);
        },
        'b' | 'c' | 'd' | 'g' | 'p' | 't' | 'w' => schmet.push('e'),
        'f' | 'l' | 'm' | 'n' | 'r' | 's' => {
            schmet.push('e');
            schmet.push(c)
        },
        'h' | 'k' => schmet.push('a'),
        'j' => {
            schmet.push('o');
            schmet.push('t')
        },
        'q' => schmet.push('u'),
        'v' => {
            schmet.push('a');
            schmet.push('u')
        },
        'x' => {
            schmet.push('i');
            schmet.push('x')
        },
        'y' => schmet.push(c),
        'z' => {
            schmet.push('e');
            schmet.push('t')
        },
        _ => schmet.push(c),
    }
    assert(schmet@ =~= phonetic(c));
    schmet
}

/// The position of the first vowel of `w`, or 0 where it has none.
fn find_vowel(w: &Vec<char>) -> (r: usize)
    ensures
        r == vowel_pos(w@),
        r <= w@.len(),
{
    let n = w.len();
    let mut i: usize = 0;
    assert(w@.skip(0) =~= w@);
    while i < n && !(w[i] == 'a' || w[i] == 'e' || w[i] == 'i' || w[i] == 'o' || w[i] == 'u'
        || w[i] == 'ä' || w[i] == 'ö' || w[i] == 'ü')
        invariant
            n == w@.len(),
            i <= n,
            leading_non_vowels(w@) == i + leading_non_vowels(w@.skip(i as int)),
        decreases n - i,
    {
        assert(w@.skip(i as int).drop_first() =~= w@.skip(i + 1));
        i = i + 1;
    }
    assert(leading_non_vowels(w@.skip(i as int)) == 0);
    if i == n {
        0
    } else {
        i
    }
}

/// Whether `s` is returned as it is.
fn is_untouched(s: &Vec<char>) -> (r: bool)
    ensures
        r == untouched(s@),
{
    if s.len() == 0 {
        return true;
    }
    if s.len() == 1 && !char_is_alphabetic(s[0]) {
        return true;
    }
    let low = lower_chars(s);
    if low.len() >= 4 && low[0] == 's' && low[1] == 'c' && low[2] == 'h' && low[3] == 'm' {
        assert(low@.take(4) =~= marker());
        true
    } else {
        assert(low@.len() >= 4 ==> low@.take(4)[0] == low@[0] && low@.take(4)[1] == low@[1]
            && low@.take(4)[2] == low@[2] && low@.take(4)[3] == low@[3]);
        false
    }
}

/// Rewrites the single word `source`, whose casing was `case`.
fn rewrite(source: &Vec<char>, case: CaseType) -> (r: Vec<char>)
    ensures
        r@ == rewrite_word(source@, case),
{
    let w = lower_chars(source);
    if w.len() == 0 || !char_is_alphabetic(w[0]) {
        return w;
    }
    if w.len() <= 3 && case != CaseType::FstUcase {
        let mut v = schmfy_char(w[0]);
        append_from(&mut v, &w, 1);
        return restore_case(&v, case);
    }
    let pos = find_vowel(&w);
    let mut v: Vec<char> = vec!['s', 'c', 'h', 'm'];
    assert(v@ =~= marker());
    append_from(&mut v, &w, pos);
    restore_case(&v, case)
}

/// Rewrites a text that holds at most one segment.
fn schmfy_segment(s: &Vec<char>) -> (r: Vec<char>)
    ensures
        r@ == schmfy_piece(s@),
{
    if is_untouched(s) {
        let mut same: Vec<char> = Vec::new();
        append_from(&mut same, s, 0);
        assert(s@.skip(0) =~= s@);
        return same;
    }
    let case = case_of_chars(s);
    rewrite(s, case)
}

/// `schmfy` on a sequence of characters.
fn schmfy_chars(s: &Vec<char>) -> (r: Vec<char>)
    ensures
        r@ == schmfied(s@),
{
    if is_untouched(s) {
        return schmfy_segment(s);
    }
    let segs = segment(s);
    if segs.len() > 1 {
        let ghost parts = segments(s@).map_values(|g: Seq<char>| schmfy_piece(g));
        let mut out: Vec<char> = Vec::new();
        let n = segs.len();
        let mut i: usize = 0;
        while i < n
            invariant
                n == segs@.len(),
                segs@.map_values(|v: Vec<char>| v@) == segments(s@),
                parts == segments(s@).map_values(|g: Seq<char>| schmfy_piece(g)),
                i <= n,
                out@ == parts.take(i as int).flatten(),
            decreases n - i,
        {
            broadcast use Seq::lemma_flatten_push;

            assert(segs@[i as int]@ == segments(s@)[i as int]);
            let p = schmfy_segment(&segs[i]);
            append_from(&mut out, &p, 0);
            assert(p@.skip(0) =~= p@);
            assert(parts.take(i + 1) =~= parts.take(i as int).push(parts[i as int]));
            i = i + 1;
        }
        assert(parts.take(n as int) =~= parts);
        return out;
    }
    schmfy_segment(s)
}

/// Rewrites every word of `source` with the "schm" marker, keeping every
/// other character, and the casing of each word, as it was.
pub fn schmfy(source: &str) -> (r: String)
    ensures
        r@ == schmfied(source@),
{
    let chars = chars_of(source);
    let out = schmfy_chars(&chars);
    string_of(&out)
}

} // verus!
