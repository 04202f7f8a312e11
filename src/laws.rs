//! What holds of `schmfy` across calls and across inputs, for text of ASCII
//! characters and umlauts, where every character table it consults is known
//! exactly.
use vstd::prelude::*;

use crate::casing::{any_lower, any_upper, classify, letters, restored, CaseType};
use crate::rewrite::{
    is_marked, leading_non_vowels, marker, phonetic, rewrite_word, schmfied, schmfy_piece, sound,
    untouched, vowel_pos,
};
use crate::segment::{
    is_single_other, is_word, lemma_segments_of_well_split, lemma_segments_shape, segments,
    well_split,
};
use crate::text::{
    is_alpha, is_ascii_lower, is_plain_text, is_umlaut_lower, lower_text, plain_lower, plain_upper,
    upper_text,
};

verus! {

/// A lowercase ASCII letter or a lowercase umlaut.
pub open spec fn is_lower_letter(c: char) -> bool {
    is_ascii_lower(c) || is_umlaut_lower(c)
}

/// A non-empty run of lowercase letters, ASCII or umlaut.
pub open spec fn is_lower_word(x: Seq<char>) -> bool {
    x.len() > 0 && forall|i: int| 0 <= i < x.len() ==> is_lower_letter(#[trigger] x[i])
}

proof fn lemma_letters_of_word(w: Seq<char>)
    requires
        forall|i: int| 0 <= i < w.len() ==> is_alpha(#[trigger] w[i]),
    ensures
        letters(w) == w,
    decreases w.len(),
{
    reveal(Seq::filter);
    if w.len() > 0 {
        let v = w.drop_last();
        assert forall|i: int| 0 <= i < v.len() implies is_alpha(#[trigger] v[i]) by {
            assert(v[i] == w[i]);
        }
        lemma_letters_of_word(v);
        assert(is_alpha(w[w.len() - 1]));
        assert(v.push(w.last()) =~= w);
    }
}

proof fn lemma_leading_bound(w: Seq<char>)
    ensures
        leading_non_vowels(w) <= w.len(),
    decreases w.len(),
{
    if w.len() > 0 {
        lemma_leading_bound(w.drop_first());
    }
}

/// A lowercase word put into a casing comes out as a plain word of that
/// casing, whose lowercase form is the word again.
proof fn lemma_restored_lower_word(x: Seq<char>, case: CaseType)
    requires
        is_lower_word(x),
        x.len() >= 2,
    ensures
        is_plain_text(restored(x, case)),
        is_word(restored(x, case)),
        lower_text(restored(x, case)) == x,
        classify(restored(x, case)) == case,
{
    assert(lower_text(x) =~= x);
    let r = restored(x, case);
    match case {
        CaseType::Lcase => {
            assert(r == x);
        },
        CaseType::Ucase => {
            assert(r =~= x.map_values(|c: char| plain_upper(c)));
        },
        CaseType::FstUcase => {
            let head = seq![x[0]];
            assert(is_plain_text(head));
            assert(upper_text(head) =~= seq![plain_upper(x[0])]);
            assert(r.len() == x.len());
            assert forall|i: int| 1 <= i < r.len() implies #[trigger] r[i] == x[i] by {
                assert(r[i] == x.skip(1)[i - 1]);
            }
            assert(r[0] == plain_upper(x[0]));
        },
    }
    assert(is_plain_text(r));
    assert(lower_text(r) =~= x);
    lemma_letters_of_word(r);
    match case {
        CaseType::Lcase => {
            assert(is_lower_letter(r[0]));
            assert(any_lower(letters(r)));
        },
        CaseType::Ucase => {
            assert(!is_lower_letter(r[0]));
            assert(any_upper(letters(r)));
        },
        CaseType::FstUcase => {
            assert(is_lower_letter(r[1]));
            assert(!is_lower_letter(r[0]));
            assert(any_upper(letters(r)));
            assert(any_lower(letters(r)));
        },
    }
}

/// The sound of a lowercase letter is made of lowercase letters.
proof fn lemma_sound_lower(c: char)
    requires
        is_lower_letter(c),
    ensures
        forall|i: int| 0 <= i < sound(c).len() ==> is_lower_letter(#[trigger] sound(c)[i]),
{
}

/// A rewritten plain word is a plain word again, carries the marker, and
/// keeps the casing of the original.
proof fn lemma_rewrite_word(s: Seq<char>)
    requires
        is_plain_text(s),
        is_word(s),
    ensures
        is_plain_text(rewrite_word(s, classify(s))),
        is_word(rewrite_word(s, classify(s))),
        is_marked(rewrite_word(s, classify(s))),
        classify(rewrite_word(s, classify(s))) == classify(s),
{
    let case = classify(s);
    let w = lower_text(s);
    assert(w =~= s.map_values(|c: char| plain_lower(c)));
    assert(is_lower_word(w));
    assert(is_alpha(w[0]));
    let x = if w.len() <= 3 && case != CaseType::FstUcase {
        phonetic(w[0]) + w.skip(1)
    } else {
        marker() + w.skip(vowel_pos(w))
    };
    assert(rewrite_word(s, case) == restored(x, case));
    if w.len() <= 3 && case != CaseType::FstUcase {
        lemma_sound_lower(w[0]);
        assert forall|i: int| 0 <= i < x.len() implies is_lower_letter(#[trigger] x[i]) by {
            if i >= 4 + sound(w[0]).len() {
                assert(x[i] == w[i - 4 - sound(w[0]).len() + 1]);
            } else if i >= 4 {
                assert(x[i] == sound(w[0])[i - 4]);
            }
        }
    } else {
        lemma_leading_bound(w);
        assert forall|i: int| 0 <= i < x.len() implies is_lower_letter(#[trigger] x[i]) by {
            if i >= 4 {
                assert(x[i] == w[i - 4 + vowel_pos(w)]);
            }
        }
    }
    lemma_restored_lower_word(x, case);
    assert(x.take(4) =~= marker());
}

/// One segment of plain text, rewritten: a word stays a word and anything
/// else stays as it was; the result is left alone by a second rewrite.
proof fn lemma_piece(g: Seq<char>)
    requires
        is_plain_text(g),
        is_word(g) || is_single_other(g),
    ensures
        is_plain_text(schmfy_piece(g)),
        is_word(schmfy_piece(g)) == is_word(g),
        !is_word(g) ==> schmfy_piece(g) == g,
        is_single_other(schmfy_piece(g)) == is_single_other(g),
        untouched(schmfy_piece(g)),
{
    if is_word(g) && !untouched(g) {
        lemma_rewrite_word(g);
    }
}

/// Every segment of plain text is plain.
proof fn lemma_segments_plain(s: Seq<char>)
    requires
        is_plain_text(s),
    ensures
        forall|i: int| 0 <= i < segments(s).len() ==> is_plain_text(#[trigger] segments(s)[i]),
{
    let ps = segments(s);
    lemma_segments_shape(s);
    assert forall|i: int| 0 <= i < ps.len() implies is_plain_text(#[trigger] ps[i]) by {
        assert(ps.take(i).push(ps[i]) + ps.skip(i + 1) =~= ps);
        vstd::seq_lib::lemma_flatten_concat(ps.take(i).push(ps[i]), ps.skip(i + 1));
        vstd::seq_lib::lemma_flatten_concat(ps.take(i), seq![ps[i]]);
        assert(ps.take(i).push(ps[i]) =~= ps.take(i) + seq![ps[i]]);
        assert(seq![ps[i]].flatten() == ps[i]) by {
            reveal_with_fuel(Seq::flatten, 2);
            assert(ps[i] + Seq::<char>::empty() =~= ps[i]);
        }
        let pre = ps.take(i).flatten();
        assert forall|k: int| 0 <= k < ps[i].len() implies #[trigger] (crate::text::is_plain_char(
            ps[i][k],
        )) by {
            assert(s[pre.len() + k] == ps[i][k]);
        }
    }
}

/// Text of several segments, rewritten segment by segment: the rewritten
/// segments are well split, one for one with the original ones.
proof fn lemma_pieces(s: Seq<char>)
    requires
        is_plain_text(s),
    ensures
        ({
            let segs = segments(s);
            let parts = segs.map_values(|g: Seq<char>| schmfy_piece(g));
            &&& well_split(parts)
            &&& is_plain_text(parts.flatten())
            &&& parts.map_values(|g: Seq<char>| schmfy_piece(g)) == parts
            &&& forall|i: int|
                0 <= i < segs.len() ==> (is_word(#[trigger] parts[i]) == is_word(segs[i])) && (
                !is_word(segs[i]) ==> parts[i] == segs[i])
        }),
{
    let segs = segments(s);
    let parts = segs.map_values(|g: Seq<char>| schmfy_piece(g));
    lemma_segments_shape(s);
    lemma_segments_plain(s);
    assert forall|i: int| 0 <= i < segs.len() implies {
        &&& is_plain_text(#[trigger] parts[i])
        &&& is_word(parts[i]) == is_word(segs[i])
        &&& is_single_other(parts[i]) == is_single_other(segs[i])
        &&& (!is_word(segs[i]) ==> parts[i] == segs[i])
        &&& untouched(parts[i])
    } by {
        lemma_piece(segs[i]);
    }
    assert forall|i: int| 0 <= i < parts.len() - 1 implies !(is_word(#[trigger] parts[i])
        && is_word(parts[i + 1])) by {
        assert(is_word(parts[i]) == is_word(segs[i]));
        assert(is_word(parts[i + 1]) == is_word(segs[i + 1]));
    }
    assert(parts.map_values(|g: Seq<char>| schmfy_piece(g)) =~= parts);
    lemma_flatten_plain(parts);
}

proof fn lemma_flatten_plain(ps: Seq<Seq<char>>)
    requires
        forall|i: int| 0 <= i < ps.len() ==> is_plain_text(#[trigger] ps[i]),
    ensures
        is_plain_text(ps.flatten()),
    decreases ps.len(),
{
    if ps.len() > 0 {
        let rest = ps.drop_first();
        assert forall|i: int| 0 <= i < rest.len() implies is_plain_text(#[trigger] rest[i]) by {
            assert(rest[i] == ps[i + 1]);
        }
        lemma_flatten_plain(rest);
        assert(ps.flatten() == ps[0] + rest.flatten());
        assert(is_plain_text(ps[0]));
        assert forall|k: int| 0 <= k < ps.flatten().len() implies #[trigger] (
        crate::text::is_plain_char(ps.flatten()[k])) by {
            if k < ps[0].len() {
                assert(ps.flatten()[k] == ps[0][k]);
            } else {
                assert(ps.flatten()[k] == rest.flatten()[k - ps[0].len()]);
            }
        }
    }
}

/// Non-empty text whose segments are not several is a single segment.
proof fn lemma_one_segment(s: Seq<char>)
    requires
        s.len() > 0,
        segments(s).len() <= 1,
    ensures
        segments(s) == seq![s],
        is_word(s) || is_single_other(s),
{
    lemma_segments_shape(s);
    let ps = segments(s);
    if ps.len() == 0 {
        assert(ps.flatten() =~= Seq::<char>::empty());
    }
    assert(ps.flatten() == ps[0]) by {
        reveal_with_fuel(Seq::flatten, 2);
        assert(ps[0] + Seq::<char>::empty() =~= ps[0]);
    }
    assert(ps =~= seq![s]);
}

/// Rewriting is idempotent: rewriting plain text (ASCII and umlauts) a second time changes
/// nothing, since every rewritten word already carries the marker.
pub proof fn lemma_schmfy_idempotent(s: Seq<char>)
    requires
        is_plain_text(s),
    ensures
        schmfied(schmfied(s)) == schmfied(s),
{
    let t = schmfied(s);
    if untouched(s) {
    } else if segments(s).len() > 1 {
        let parts = segments(s).map_values(|g: Seq<char>| schmfy_piece(g));
        lemma_pieces(s);
        if !untouched(t) {
            lemma_segments_of_well_split(parts);
        }
    } else {
        lemma_one_segment(s);
        lemma_rewrite_word(s);
    }
}

/// Rewriting keeps the segment structure of plain text (ASCII and umlauts): as many segments
/// come out as went in, words where there were words, and every other
/// character unchanged in its place.
pub proof fn lemma_schmfy_keeps_structure(s: Seq<char>)
    requires
        is_plain_text(s),
    ensures
        segments(schmfied(s)).len() == segments(s).len(),
        forall|i: int|
            0 <= i < segments(s).len() ==> is_word(#[trigger] segments(schmfied(s))[i]) == is_word(
                segments(s)[i],
            ),
        forall|i: int|
            0 <= i < segments(s).len() && !is_word(#[trigger] segments(s)[i]) ==> segments(
                schmfied(s),
            )[i] == segments(s)[i],
{
    if untouched(s) {
    } else if segments(s).len() > 1 {
        let parts = segments(s).map_values(|g: Seq<char>| schmfy_piece(g));
        lemma_pieces(s);
        lemma_segments_of_well_split(parts);
    } else {
        lemma_one_segment(s);
        lemma_rewrite_word(s);
        let t = schmfied(s);
        reveal_with_fuel(Seq::flatten, 2);
        assert(seq![t].flatten() =~= t);
        assert(well_split(seq![t]));
        lemma_segments_of_well_split(seq![t]);
    }
}

/// A single plain word (ASCII letters and umlauts) keeps its casing pattern
/// when rewritten.
pub proof fn lemma_schmfy_keeps_case(s: Seq<char>)
    requires
        is_plain_text(s),
        is_word(s),
    ensures
        classify(schmfied(s)) == classify(s),
{
    if !untouched(s) {
        lemma_one_segment_word(s);
        lemma_rewrite_word(s);
    }
}

proof fn lemma_one_segment_word(s: Seq<char>)
    requires
        is_word(s),
    ensures
        segments(s) == seq![s],
{
    reveal_with_fuel(Seq::flatten, 2);
    assert(seq![s].flatten() =~= s);
    lemma_segments_of_well_split(seq![s]);
}

} // verus!
