//! Splitting text into maximal alphabetic runs and single other characters.
use vstd::prelude::*;

use crate::text::{char_is_alphabetic, is_alpha};

verus! {

/// A non-empty run of alphabetic characters.
pub open spec fn is_word(w: Seq<char>) -> bool {
    w.len() > 0 && forall|i: int| 0 <= i < w.len() ==> is_alpha(#[trigger] w[i])
}

/// Exactly one character, not alphabetic.
pub open spec fn is_single_other(w: Seq<char>) -> bool {
    w.len() == 1 && !is_alpha(w[0])
}

/// Every piece is a word or a single other character, and no two words
/// stand side by side.
pub open spec fn well_split(ps: Seq<Seq<char>>) -> bool {
    &&& forall|i: int| 0 <= i < ps.len() ==> is_word(#[trigger] ps[i]) || is_single_other(ps[i])
    &&& forall|i: int|
        0 <= i < ps.len() - 1 ==> !(is_word(#[trigger] ps[i]) && is_word(ps[i + 1]))
}

/// The pending run, if any, appended to the finished pieces.
pub open spec fn flush(done: Seq<Seq<char>>, buf: Seq<char>) -> Seq<Seq<char>> {
    if buf.len() > 0 {
        done.push(buf)
    } else {
        done
    }
}

/// Left-to-right scan of `s`: the finished pieces and the pending run of
/// letters.
pub open spec fn scan(s: Seq<char>) -> (Seq<Seq<char>>, Seq<char>)
    decreases s.len(),
{
    if s.len() == 0 {
        (seq![], seq![])
    } else {
        let prev = scan(s.drop_last());
        let c = s.last();
        if is_alpha(c) {
            (prev.0, prev.1.push(c))
        } else {
            (flush(prev.0, prev.1).push(seq![c]), seq![])
        }
    }
}

/// The pieces of `s`: each maximal alphabetic run, and each other character
/// on its own, in order.
pub open spec fn segments(s: Seq<char>) -> Seq<Seq<char>> {
    flush(scan(s).0, scan(s).1)
}

/// Splits `source` into its pieces.
pub fn segment(source: &Vec<char>) -> (r: Vec<Vec<char>>)
    ensures
        r@.map_values(|v: Vec<char>| v@) == segments(source@),
{
    let mut current: Vec<char> = Vec::new();
    let mut subs: Vec<Vec<char>> = Vec::new();
    let n = source.len();
    let mut i: usize = 0;
    while i < n
        invariant
            n == source@.len(),
            i <= n,
            subs@.map_values(|v: Vec<char>| v@) == scan(source@.take(i as int)).0,
            current@ == scan(source@.take(i as int)).1,
        decreases n - i,
    {
        let c = source[i];
        assert(source@.take(i + 1).drop_last() =~= source@.take(i as int));
        if char_is_alphabetic(c) {
            current.push(c);
        } else {
            if current.len() > 0 {
                subs.push(current);
                assert(subs@.map_values(|v: Vec<char>| v@) =~= scan(source@.take(i as int)).0.push(
                    scan(source@.take(i as int)).1,
                ));
            }
            let mut single: Vec<char> = Vec::new();
            single.push(c);
            subs.push(single);
            current = Vec::new();
            assert(subs@.map_values(|v: Vec<char>| v@) =~= scan(source@.take(i + 1)).0);
            assert(current@ =~= scan(source@.take(i + 1)).1);
        }
        i = i + 1;
    }
    assert(source@.take(n as int) =~= source@);
    if current.len() > 0 {
        subs.push(current);
    }
    assert(subs@.map_values(|v: Vec<char>| v@) =~= segments(source@));
    subs
}

proof fn lemma_scan_shape(s: Seq<char>)
    ensures
        scan(s).0.flatten() + scan(s).1 == s,
        well_split(scan(s).0),
        forall|i: int| 0 <= i < scan(s).1.len() ==> is_alpha(#[trigger] scan(s).1[i]),
        scan(s).0.len() > 0 ==> is_single_other(scan(s).0.last()),
    decreases s.len(),
{
    broadcast use Seq::lemma_flatten_push;

    if s.len() > 0 {
        lemma_scan_shape(s.drop_last());
        let prev = scan(s.drop_last());
        let c = s.last();
        assert(s.drop_last().push(c) =~= s);
        if is_alpha(c) {
            assert(prev.0.flatten() + prev.1.push(c) =~= (prev.0.flatten() + prev.1).push(c));
        } else {
            let f = flush(prev.0, prev.1);
            assert(f.flatten() == s.drop_last()) by {
                if prev.1.len() > 0 {
                    assert(f.flatten() =~= prev.0.flatten() + prev.1);
                } else {
                    assert(prev.0.flatten() + prev.1 =~= prev.0.flatten());
                }
            }
            assert(f.push(seq![c]).flatten() =~= s);
            assert(scan(s).1 =~= Seq::<char>::empty());
            assert(scan(s).0.flatten() + scan(s).1 =~= scan(s).0.flatten());
        }
    }
}

/// Concatenating the pieces of `s` gives `s` back, and they are well split.
pub proof fn lemma_segments_shape(s: Seq<char>)
    ensures
        segments(s).flatten() == s,
        well_split(segments(s)),
{
    broadcast use Seq::lemma_flatten_push;

    lemma_scan_shape(s);
    let d = scan(s).0;
    let b = scan(s).1;
    if b.len() == 0 {
        assert(d.flatten() + b =~= d.flatten());
    }
}

proof fn lemma_scan_letters(f: Seq<char>, w: Seq<char>)
    requires
        forall|i: int| 0 <= i < w.len() ==> is_alpha(#[trigger] w[i]),
    ensures
        scan(f + w) == (scan(f).0, scan(f).1 + w),
    decreases w.len(),
{
    if w.len() == 0 {
        assert(f + w =~= f);
        assert(scan(f).1 + w =~= scan(f).1);
    } else {
        let v = w.drop_last();
        lemma_scan_letters(f, v);
        assert((f + w).drop_last() =~= f + v);
        assert((f + w).last() == w.last());
        assert(scan(f).1 + w =~= (scan(f).1 + v).push(w.last()));
    }
}

proof fn lemma_scan_well_split(ps: Seq<Seq<char>>)
    requires
        well_split(ps),
    ensures
        scan(ps.flatten()) == (if ps.len() > 0 && is_word(ps.last()) {
            (ps.drop_last(), ps.last())
        } else {
            (ps, Seq::<char>::empty())
        }),
    decreases ps.len(),
{
    broadcast use Seq::lemma_flatten_push;

    if ps.len() == 0 {
        assert(ps.flatten() =~= Seq::<char>::empty());
    } else {
        let qs = ps.drop_last();
        let x = ps.last();
        assert(qs.push(x) =~= ps);
        assert(well_split(qs)) by {
            assert forall|i: int| 0 <= i < qs.len() - 1 implies !(is_word(#[trigger] qs[i])
                && is_word(qs[i + 1])) by {
                assert(qs[i] == ps[i] && qs[i + 1] == ps[i + 1]);
            }
            assert forall|i: int| 0 <= i < qs.len() implies is_word(#[trigger] qs[i])
                || is_single_other(qs[i]) by {
                assert(qs[i] == ps[i]);
            }
        }
        lemma_scan_well_split(qs);
        let f = qs.flatten();
        assert(ps.flatten() == f + x);
        assert(flush(scan(f).0, scan(f).1) =~= qs);
        if is_word(x) {
            if qs.len() > 0 {
                assert(!is_word(qs.last())) by {
                    assert(ps[qs.len() - 1] == qs.last());
                }
            }
            lemma_scan_letters(f, x);
            assert(Seq::<char>::empty() + x =~= x);
        } else {
            assert(is_single_other(x)) by {
                assert(ps[ps.len() - 1] == x);
            }
            assert(x =~= seq![x[0]]);
            assert((f + x).drop_last() =~= f);
            assert((f + x).last() == x[0]);
        }
    }
}

/// Well-split pieces, concatenated and split again, come back as they were.
pub proof fn lemma_segments_of_well_split(ps: Seq<Seq<char>>)
    requires
        well_split(ps),
    ensures
        segments(ps.flatten()) == ps,
{
    lemma_scan_well_split(ps);
    if ps.len() > 0 && is_word(ps.last()) {
        assert(ps.drop_last().push(ps.last()) =~= ps);
    }
}

} // verus!
