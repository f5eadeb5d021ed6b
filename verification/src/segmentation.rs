//! Character and word boundaries for text navigation, on top of the
//! UAX #29 segmentation of the `unicode-segmentation` crate.

use unicode_segmentation::UnicodeSegmentation;
use crate::white_space::{all_white_space, str_is_all_white_space};
use vstd::prelude::*;

verus! {

/// The extended grapheme clusters that `UnicodeSegmentation::graphemes`
/// yields for `text` (with `is_extended` set), each by its characters.
pub uninterp spec fn extended_grapheme_clusters(text: Seq<char>) -> Seq<Seq<char>>;

/// The substrings that `UnicodeSegmentation::split_word_bound_indices`
/// yields for `text`, each by its characters.
pub uninterp spec fn word_bound_segments(text: Seq<char>) -> Seq<Seq<char>>;

/// The characters of each string slice.
pub open spec fn str_views<'a>(strs: Seq<&'a str>) -> Seq<Seq<char>> {
    strs.map_values(|s: &'a str| s@)
}

/// Calls `UnicodeSegmentation::graphemes(text, true)` and collects the
/// clusters. Claimed: the clusters are the named result, each is
/// non-empty, and in order they make up `text` (the iterator hands out
/// consecutive slices from the start of `text` to its end).
#[verifier::external_body]
fn graphemes_of<'a>(text: &'a str) -> (clusters: Vec<&'a str>)
    ensures
        str_views(clusters@) == extended_grapheme_clusters(text@),
        str_views(clusters@).flatten() == text@,
        forall|i: int| 0 <= i < clusters@.len() ==> (#[trigger] clusters@[i])@.len() > 0,
{
    text.graphemes(true).collect()
}

/// Calls `UnicodeSegmentation::split_word_bound_indices(text)` and keeps
/// the substrings (the byte offsets are not used). Claimed: the substrings
/// are the named result and, in order, make up `text`, as the crate's
/// documentation of `split_word_bounds` states.
#[verifier::external_body]
fn word_bounds_of<'a>(text: &'a str) -> (segments: Vec<&'a str>)
    ensures
        str_views(segments@) == word_bound_segments(text@),
        str_views(segments@).flatten() == text@,
{
    text.split_word_bound_indices().map(|(_, segment)| segment).collect()
}

/// Two characters: a carriage return and a line feed.
pub open spec fn crlf() -> Seq<char> {
    seq!['\r', '\n']
}

/// A cluster as navigation sees it: `\r\n` is two pieces, any other
/// cluster one.
pub open spec fn crlf_pieces(cluster: Seq<char>) -> Seq<Seq<char>> {
    if cluster == crlf() {
        seq![seq!['\r'], seq!['\n']]
    } else {
        seq![cluster]
    }
}

/// The clusters with each `\r\n` split in two.
pub open spec fn split_crlf(clusters: Seq<Seq<char>>) -> Seq<Seq<char>>
    decreases clusters.len(),
{
    if clusters.len() == 0 {
        Seq::empty()
    } else {
        split_crlf(clusters.drop_last()) + crlf_pieces(clusters.last())
    }
}

/// The characters (visible units) of `text`, in order.
pub open spec fn character_pieces(text: Seq<char>) -> Seq<Seq<char>> {
    split_crlf(extended_grapheme_clusters(text))
}

proof fn lemma_split_crlf_concat(a: Seq<Seq<char>>, b: Seq<Seq<char>>)
    ensures
        split_crlf(a + b) == split_crlf(a) + split_crlf(b),
    decreases b.len(),
{
    if b.len() == 0 {
        assert(a + b =~= a);
        assert(split_crlf(a) + split_crlf(b) =~= split_crlf(a));
    } else {
        lemma_split_crlf_concat(a, b.drop_last());
        assert((a + b).drop_last() =~= a + b.drop_last());
        assert((a + b).last() == b.last());
        assert(split_crlf(a + b) =~= split_crlf(a) + split_crlf(b));
    }
}

proof fn lemma_split_crlf_flatten(cs: Seq<Seq<char>>)
    ensures
        split_crlf(cs).flatten() == cs.flatten(),
    decreases cs.len(),
{
    if cs.len() > 0 {
        let init = cs.drop_last();
        let last = cs.last();
        lemma_split_crlf_flatten(init);
        vstd::seq_lib::lemma_flatten_concat(split_crlf(init), crlf_pieces(last));
        if last == crlf() {
            reveal_with_fuel(Seq::flatten, 3);
            assert(crlf_pieces(last).flatten() =~= last);
        } else {
            crlf_pieces(last).lemma_flatten_one_element();
        }
        init.lemma_flatten_push(last);
        assert(init.push(last) =~= cs);
    }
}

proof fn lemma_split_crlf_nonempty(cs: Seq<Seq<char>>)
    requires
        forall|i: int| 0 <= i < cs.len() ==> (#[trigger] cs[i]).len() > 0,
    ensures
        forall|i: int| 0 <= i < split_crlf(cs).len() ==> (#[trigger] split_crlf(cs)[i]).len() > 0,
    decreases cs.len(),
{
    if cs.len() > 0 {
        let init = cs.drop_last();
        assert forall|i: int| 0 <= i < init.len() implies (#[trigger] init[i]).len() > 0 by {
            assert(init[i] == cs[i]);
        }
        lemma_split_crlf_nonempty(init);
        assert(cs.last() == cs[cs.len() - 1]);
        let a = split_crlf(init);
        let p = crlf_pieces(cs.last());
        assert(split_crlf(cs) == a + p);
        assert forall|i: int| 0 <= i < (a + p).len() implies (#[trigger] (a + p)[i]).len() > 0 by {
            if i >= a.len() {
                assert((a + p)[i] == p[i - a.len()]);
            }
        }
    }
}

/// `true` when `s` is exactly `\r\n`.
fn is_crlf(s: &str) -> (b: bool)
    ensures
        b == (s@ == crlf()),
{
    if s.unicode_len() != 2 {
        return false;
    }
    let first = s.get_char(0);
    let second = s.get_char(1);
    if first == '\r' && second == '\n' {
        assert(s@ =~= crlf());
        true
    } else {
        false
    }
}

/// Splits `text` into its characters as a user navigates them: the
/// extended grapheme clusters, except that `\r\n` counts as two.
///
/// The pieces are non-empty and, in order, make up `text`.
pub fn split_at_character_boundaries<'a>(text: &'a str) -> (pieces: Vec<&'a str>)
    ensures
        str_views(pieces@) == character_pieces(text@),
        str_views(pieces@).flatten() == text@,
        forall|i: int| 0 <= i < pieces@.len() ==> (#[trigger] pieces@[i])@.len() > 0,
{
    let clusters = graphemes_of(text);
    let ghost cs = str_views(clusters@);
    let mut result: Vec<&'a str> = Vec::new();
    let mut i: usize = 0;
    while i < clusters.len()
        invariant
            i <= clusters@.len(),
            cs == str_views(clusters@),
            str_views(result@) == split_crlf(cs.take(i as int)),
        decreases clusters@.len() - i,
    {
        let g: &'a str = clusters[i];
        let ghost before = result@;
        if is_crlf(g) {
            result.push("\r");
            result.push("\n");
            proof {
                reveal_strlit("\r");
                reveal_strlit("\n");
                assert("\r"@ =~= seq!['\r']);
                assert("\n"@ =~= seq!['\n']);
                assert(result@ == before.push("\r").push("\n"));
                assert(str_views(result@) =~= str_views(before) + crlf_pieces(g@));
            }
        } else {
            result.push(g);
            proof {
                assert(str_views(result@) =~= str_views(before) + crlf_pieces(g@));
            }
        }
        proof {
            assert(cs.take(i + 1).drop_last() =~= cs.take(i as int));
            assert(cs.take(i + 1).last() == g@);
        }
        i += 1;
    }
    proof {
        assert(cs.take(i as int) =~= cs);
        lemma_split_crlf_flatten(cs);
        assert forall|k: int| 0 <= k < cs.len() implies (#[trigger] cs[k]).len() > 0 by {
            assert(cs[k] == clusters@[k]@);
        }
        lemma_split_crlf_nonempty(cs);
        assert forall|k: int| 0 <= k < result@.len() implies (#[trigger] result@[k])@.len() > 0 by {
            assert(str_views(result@)[k] == result@[k]@);
        }
    }
    result
}

} // verus!

verus! {

/// Where piece `k` starts: the number of characters in the pieces before it.
pub open spec fn piece_start(pieces: Seq<Seq<char>>, k: int) -> int {
    pieces.take(k).flatten().len() as int
}

/// Where piece `k` ends (exclusive).
pub open spec fn piece_end(pieces: Seq<Seq<char>>, k: int) -> int {
    piece_start(pieces, k) + pieces[k].len()
}

/// Piece `k` exists and holds the character at `offset`.
pub open spec fn piece_holds(pieces: Seq<Seq<char>>, k: int, offset: int) -> bool {
    0 <= k < pieces.len() && piece_start(pieces, k) <= offset < piece_end(pieces, k)
}

proof fn lemma_piece_start_step(pieces: Seq<Seq<char>>, k: int)
    requires
        0 <= k < pieces.len(),
    ensures
        piece_start(pieces, k + 1) == piece_end(pieces, k),
{
    assert(pieces.take(k + 1) =~= pieces.take(k).push(pieces[k]));
    pieces.take(k).lemma_flatten_push(pieces[k]);
}

proof fn lemma_piece_start_bounds(pieces: Seq<Seq<char>>, k: int)
    requires
        0 <= k <= pieces.len(),
    ensures
        0 <= piece_start(pieces, k) <= pieces.flatten().len(),
        piece_start(pieces, pieces.len() as int) == pieces.flatten().len(),
        piece_start(pieces, 0) == 0,
{
    assert(pieces =~= pieces.take(k) + pieces.skip(k));
    vstd::seq_lib::lemma_flatten_concat(pieces.take(k), pieces.skip(k));
    assert(pieces.take(pieces.len() as int) =~= pieces);
    assert(pieces.take(0) =~= Seq::<Seq<char>>::empty());
}

proof fn lemma_split_crlf_single(c: Seq<char>)
    ensures
        split_crlf(seq![c]) == crlf_pieces(c),
{
    assert(seq![c].drop_last() =~= Seq::<Seq<char>>::empty());
    assert(seq![c].last() == c);
    assert(split_crlf(Seq::<Seq<char>>::empty()) =~= Seq::<Seq<char>>::empty());
    assert(Seq::<Seq<char>>::empty() + crlf_pieces(c) =~= crlf_pieces(c));
}

/// The pieces of the clusters before `i`, then those of cluster `i`, then
/// those of the rest.
proof fn lemma_pieces_around(cs: Seq<Seq<char>>, i: int)
    requires
        0 <= i < cs.len(),
    ensures
        split_crlf(cs) == split_crlf(cs.take(i)) + crlf_pieces(cs[i]) + split_crlf(cs.skip(i + 1)),
{
    assert(cs =~= cs.take(i) + seq![cs[i]] + cs.skip(i + 1));
    lemma_split_crlf_concat(cs.take(i) + seq![cs[i]], cs.skip(i + 1));
    lemma_split_crlf_concat(cs.take(i), seq![cs[i]]);
    lemma_split_crlf_single(cs[i]);
}

/// The span `(start, end)` of the character (see
/// `split_at_character_boundaries`) at code point `offset` of `text`; past
/// the end of the text, `(offset, offset + 1)`.
///
/// Within the text the span is that of the unique piece holding `offset`,
/// so `start <= offset < end <= text.len()`.
pub fn character_offsets(text: &str, offset: usize) -> (span: (usize, usize))
    requires
        offset < usize::MAX,
    ensures
        offset >= text@.len() ==> span == (offset, (offset + 1) as usize),
        offset < text@.len() ==> exists|k: int|
            #![trigger piece_start(character_pieces(text@), k)]
            piece_holds(character_pieces(text@), k, offset as int) && span.0 == piece_start(
                character_pieces(text@),
                k,
            ) && span.1 == piece_end(character_pieces(text@), k),
        offset < text@.len() ==> span.0 <= offset < span.1 <= text@.len(),
{
    let char_count = text.unicode_len();
    if offset >= char_count {
        return (offset, offset + 1);
    }
    let clusters = graphemes_of(text);
    let ghost cs = str_views(clusters@);
    let ghost pieces = character_pieces(text@);
    proof {
        lemma_split_crlf_flatten(cs);
        lemma_piece_start_bounds(cs, 0);
    }
    let mut start: usize = 0;
    let mut i: usize = 0;
    while i < clusters.len()
        invariant
            i <= clusters@.len(),
            cs == str_views(clusters@),
            cs == extended_grapheme_clusters(text@),
            pieces == split_crlf(cs),
            pieces == character_pieces(text@),
            cs.flatten() == text@,
            char_count == text@.len(),
            offset < char_count,
            start == piece_start(cs, i as int),
            start <= offset,
        decreases clusters@.len() - i,
    {
        let g: &str = clusters[i];
        proof {
            lemma_pieces_around(cs, i as int);
            lemma_split_crlf_flatten(cs.take(i as int));
            lemma_piece_start_step(cs, i as int);
            lemma_piece_start_bounds(cs, i + 1);
            assert(cs[i as int] == g@);
        }
        let ghost before = split_crlf(cs.take(i as int));
        let ghost k = before.len() as int;
        proof {
            assert(pieces.take(k) =~= before);
        }
        if is_crlf(g) {
            proof {
                assert(pieces[k] == seq!['\r']);
                assert(pieces[k + 1] == seq!['\n']);
                lemma_piece_start_step(pieces, k);
                lemma_piece_start_bounds(pieces, k);
            }
            if offset == start {
                proof {
                    assert(piece_holds(pieces, k, offset as int));
                }
                return (start, start + 1);
            }
            if offset == start + 1 {
                proof {
                    assert(piece_holds(pieces, k + 1, offset as int));
                }
                return (start + 1, start + 2);
            }
            start = start + 2;
        } else {
            let len = g.unicode_len();
            proof {
                assert(pieces[k] == g@);
            }
            if offset < start + len {
                proof {
                    assert(piece_holds(pieces, k, offset as int));
                }
                return (start, start + len);
            }
            start = start + len;
        }
        i += 1;
    }
    proof {
        lemma_piece_start_bounds(cs, cs.len() as int);
        assert(false);
    }
    (offset, offset + 1)
}

} // verus!

verus! {

/// The word span for the word-boundary segment `k`: white space belongs
/// to the word before it, so a white-space segment reaches back over the
/// preceding segment, and any other segment takes in a white-space
/// segment that follows it.
pub open spec fn word_span(segments: Seq<Seq<char>>, k: int) -> (int, int) {
    if all_white_space(segments[k]) {
        (
            if k > 0 {
                piece_start(segments, k - 1)
            } else {
                piece_start(segments, k)
            },
            piece_end(segments, k),
        )
    } else {
        (
            piece_start(segments, k),
            if k + 1 < segments.len() && all_white_space(segments[k + 1]) {
                piece_end(segments, k + 1)
            } else {
                piece_end(segments, k)
            },
        )
    }
}

/// The span `(start, end)` of the word at code point `offset` of `text`;
/// for empty text or past its end, `(offset, offset + 1)`.
///
/// The word is built from the UAX #29 word-boundary segment holding
/// `offset` (see `word_span`), so `start <= offset < end <= text.len()`.
pub fn word_offsets(text: &str, offset: usize) -> (span: (usize, usize))
    requires
        offset < usize::MAX,
    ensures
        offset >= text@.len() ==> span == (offset, (offset + 1) as usize),
        offset < text@.len() ==> exists|k: int|
            #![trigger word_span(word_bound_segments(text@), k)]
            piece_holds(word_bound_segments(text@), k, offset as int) && (span.0 as int, span.1 as int)
                == word_span(word_bound_segments(text@), k),
        offset < text@.len() ==> span.0 <= offset < span.1 <= text@.len(),
{
    let char_count = text.unicode_len();
    if char_count == 0 {
        return (offset, offset + 1);
    }
    if offset >= char_count {
        return (offset, offset + 1);
    }
    let segments = word_bounds_of(text);
    let ghost segs = str_views(segments@);
    proof {
        lemma_piece_start_bounds(segs, 0);
    }
    // Each segment's span in code points.
    let mut ranges: Vec<(usize, usize)> = Vec::new();
    let mut char_offset: usize = 0;
    let mut i: usize = 0;
    while i < segments.len()
        invariant
            i <= segments@.len(),
            segs == str_views(segments@),
            segs.flatten() == text@,
            char_count == text@.len(),
            ranges@.len() == i,
            char_offset == piece_start(segs, i as int),
            forall|j: int|
                0 <= j < i ==> (#[trigger] ranges@[j]).0 == piece_start(segs, j) && ranges@[j].1
                    == piece_end(segs, j),
        decreases segments@.len() - i,
    {
        let len = segments[i].unicode_len();
        proof {
            assert(segs[i as int] == segments@[i as int]@);
            lemma_piece_start_step(segs, i as int);
            lemma_piece_start_bounds(segs, i + 1);
        }
        ranges.push((char_offset, char_offset + len));
        char_offset = char_offset + len;
        i += 1;
    }
    proof {
        lemma_piece_start_bounds(segs, segs.len() as int);
    }
    // The segment holding `offset`.
    let mut seg_idx: usize = 0;
    let mut j: usize = 0;
    while j < ranges.len()
        invariant
            j <= ranges@.len(),
            ranges@.len() == segs.len(),
            forall|m: int|
                0 <= m < ranges@.len() ==> (#[trigger] ranges@[m]).0 == piece_start(segs, m)
                    && ranges@[m].1 == piece_end(segs, m),
            piece_start(segs, segs.len() as int) == char_count,
            offset < char_count,
            offset >= piece_start(segs, j as int),
        ensures
            j <= ranges@.len(),
            j < ranges@.len() ==> seg_idx == j && ranges@[j as int].0 <= offset < ranges@[j as int].1,
            j == ranges@.len() ==> offset >= piece_start(segs, j as int),
        decreases ranges@.len() - j,
    {
        let (start, end) = ranges[j];
        proof {
            lemma_piece_start_step(segs, j as int);
        }
        if offset >= start && offset < end {
            seg_idx = j;
            break;
        }
        j += 1;
    }
    if j == ranges.len() {
        proof {
            assert(false);
        }
    }
    let ghost k = seg_idx as int;
    assert(seg_idx == j);
    assert(piece_holds(segs, k, offset as int));
    let (mut word_start, mut word_end) = ranges[seg_idx];
    proof {
        lemma_piece_start_step(segs, k);
        lemma_piece_start_bounds(segs, k + 1);
        assert(segs[k] == segments@[k]@);
    }
    if str_is_all_white_space(segments[seg_idx]) {
        if seg_idx > 0 {
            word_start = ranges[seg_idx - 1].0;
            proof {
                lemma_piece_start_step(segs, k - 1);
            }
        }
    } else {
        if seg_idx + 1 < segments.len() {
            proof {
                assert(segs[k + 1] == segments@[k + 1]@);
                lemma_piece_start_step(segs, k + 1);
                lemma_piece_start_bounds(segs, k + 2);
            }
            if str_is_all_white_space(segments[seg_idx + 1]) {
                word_end = ranges[seg_idx + 1].1;
            }
        }
    }
    proof {
        assert((word_start as int, word_end as int) == word_span(segs, k));
    }
    (word_start, word_end)
}

} // verus!
