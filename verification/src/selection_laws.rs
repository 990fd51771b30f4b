//! What a selection reads and marks.
use crate::numbers::total_place;
use crate::selection::{
    at_space, bands, bands_from, goes_on, is_nearest, judged_alike, letter_before, letter_before_space,
    letter_from, letter_is_before, letter_is_behind, read_text, run_ends, wide_space,
    wide_space_is_met_again, Glyph, GlyphDirection, GlyphStep,
};
use crate::text::is_white_space;
use vstd::prelude::*;

verus! {

/// One glyph reads as its character, whatever it is.
pub proof fn one_glyph_reads_as_its_character(glyphs: Seq<Glyph>, index: int)
    ensures
        read_text(glyphs, index, index + 1) == seq![glyphs[index].character],
{
    reveal_with_fuel(read_text, 2);
}

/// Two selections next to each other read together as one after the other, with a line break
/// between them exactly where the line changes.
pub proof fn neighbouring_selections_read_one_after_the_other(
    glyphs: Seq<Glyph>,
    first: int,
    middle: int,
    end: int,
)
    requires
        first < middle < end,
    ensures
        glyphs[middle - 1].line_index == glyphs[middle].line_index ==> read_text(
            glyphs,
            first,
            end,
        ) == read_text(glyphs, first, middle) + read_text(glyphs, middle, end),
        glyphs[middle - 1].line_index != glyphs[middle].line_index ==> read_text(
            glyphs,
            first,
            end,
        ) == read_text(glyphs, first, middle) + seq!['\n'] + read_text(glyphs, middle, end),
    decreases end - middle,
{
    let before = read_text(glyphs, first, middle);
    let behind = read_text(glyphs, middle, end);
    let joint = if glyphs[middle - 1].line_index == glyphs[middle].line_index {
        before
    } else {
        before + seq!['\n']
    };
    if end == middle + 1 {
        one_glyph_reads_as_its_character(glyphs, middle);
        assert(read_text(glyphs, first, end) =~= joint + behind);
    } else {
        neighbouring_selections_read_one_after_the_other(glyphs, first, middle, end - 1);
        let shorter = read_text(glyphs, middle, end - 1);
        assert(read_text(glyphs, first, end - 1) =~= joint + shorter);
        assert(read_text(glyphs, first, end) =~= joint + behind);
    }
    assert(joint + behind == read_text(glyphs, first, end));
}

/// Within one line a selection reads as the characters of its glyphs: as many, and each in its
/// place.
pub proof fn a_line_reads_as_its_characters(glyphs: Seq<Glyph>, first: int, end: int)
    requires
        first <= end,
        forall|i: int|
            first <= i < end ==> (#[trigger] glyphs[i]).line_index == glyphs[first].line_index,
    ensures
        read_text(glyphs, first, end).len() == end - first,
        forall|i: int|
            0 <= i < end - first ==> (#[trigger] read_text(glyphs, first, end)[i])
                == glyphs[first + i].character,
    decreases end - first,
{
    if first < end {
        a_line_reads_as_its_characters(glyphs, first, end - 1);
        if end - 1 > first {
            assert(glyphs[end - 1].line_index == glyphs[end - 2].line_index);
        }
    }
}

/// The places before the glyph at `index` where the line changes.
pub open spec fn line_changes(glyphs: Seq<Glyph>, first: int, index: int) -> int
    decreases index - first,
{
    if index <= first {
        0
    } else {
        line_changes(glyphs, first, index - 1) + if glyphs[index].line_index
            != glyphs[index - 1].line_index {
            1int
        } else {
            0int
        }
    }
}

/// Over any lines, every glyph of a selection is read: the characters stand in the order of the
/// glyphs, each behind those before it and one line break for each change of the line.
pub proof fn every_glyph_is_read(glyphs: Seq<Glyph>, first: int, end: int, index: int)
    requires
        first <= index < end,
    ensures
        read_text(glyphs, first, end).len() == end - first + line_changes(glyphs, first, end - 1),
        0 <= index - first + line_changes(glyphs, first, index) < read_text(
            glyphs,
            first,
            end,
        ).len(),
        read_text(glyphs, first, end)[index - first + line_changes(glyphs, first, index)]
            == glyphs[index].character,
        index > first && glyphs[index].line_index != glyphs[index - 1].line_index ==> read_text(
            glyphs,
            first,
            end,
        )[index - first + line_changes(glyphs, first, index) - 1] == '\n',
        0 <= line_changes(glyphs, first, index) <= index - first,
    decreases end - first,
{
    if end - 1 > first {
        if index < end - 1 {
            every_glyph_is_read(glyphs, first, end - 1, index);
        } else {
            every_glyph_is_read(glyphs, first, end - 1, index - 1);
        }
    } else {
        one_glyph_reads_as_its_character(glyphs, first);
    }
}

/// Whether a band marks the glyph at `index`.
pub open spec fn marks(band: (int, int), index: int) -> bool {
    band.0 <= index < band.1
}

/// Whether some band marks the glyph at `index`.
pub open spec fn is_marked(bands: Seq<(int, int)>, index: int) -> bool {
    exists|i: int| 0 <= i < bands.len() && marks(#[trigger] bands[i], index)
}

/// Where bands from `from` on lie: in the order of the text, one behind the other.
pub open spec fn follow_each_other(bands: Seq<(int, int)>, from: int, end: int) -> bool {
    &&& forall|i: int|
        0 <= i < bands.len() ==> from <= (#[trigger] bands[i]).0 <= bands[i].1 <= end
    &&& forall|i: int, j: int|
        0 <= i < j < bands.len() ==> (#[trigger] bands[i]).1 <= (#[trigger] bands[j]).0
}

/// The glyphs of a run are on one line, go on one to the next, and go in one direction.
pub open spec fn is_run(
    glyphs: Seq<Glyph>,
    steps: Seq<GlyphStep>,
    first: int,
    end: int,
) -> bool {
    &&& forall|k: int|
        first <= k < end ==> (#[trigger] glyphs[k]).line_index == glyphs[first].line_index
    &&& forall|k: int| first < k < end ==> #[trigger] goes_on(glyphs, steps, k)
    &&& forall|j: int, k: int|
        first < j < end && first < k < end ==> (#[trigger] steps[j]).direction == (
        #[trigger] steps[k]).direction
}

/// A band in front of others that follow each other.
proof fn one_more_band(
    band: (int, int),
    rest: Seq<(int, int)>,
    from: int,
    end: int,
    index: int,
)
    requires
        from <= band.0 <= band.1 <= end,
        follow_each_other(rest, band.1, end),
    ensures
        follow_each_other(seq![band] + rest, from, end),
        is_marked(seq![band] + rest, index) == (marks(band, index) || is_marked(rest, index)),
{
    let all = seq![band] + rest;
    assert(all[0] == band);
    assert forall|i: int| 0 <= i < rest.len() implies #[trigger] rest[i] == all[i + 1] by {}
    assert forall|i: int| 0 < i < all.len() implies #[trigger] all[i] == rest[i - 1] by {}
    if is_marked(all, index) {
        let i = choose|i: int| 0 <= i < all.len() && marks(#[trigger] all[i], index);
        if i > 0 {
            assert(marks(rest[i - 1], index));
        }
    }
    if is_marked(rest, index) {
        let i = choose|i: int| 0 <= i < rest.len() && marks(#[trigger] rest[i], index);
        assert(marks(all[i + 1], index));
    }
    if marks(band, index) {
        assert(marks(all[0], index));
    }
}

/// What holds of the bands from a run on: every letter is marked, and every band is a run.
proof fn bands_from_mark_the_letters(
    glyphs: Seq<Glyph>,
    steps: Seq<GlyphStep>,
    run_start: int,
    run_direction: Option<GlyphDirection>,
    index: int,
    letter: int,
)
    requires
        0 <= run_start <= index <= glyphs.len(),
        run_start < glyphs.len(),
        1 <= index,
        is_run(glyphs, steps, run_start, index),
        index > run_start + 1 ==> run_direction == Some(steps[index - 1].direction),
    ensures
        ({
            let marked = bands_from(glyphs, steps, run_start, run_direction, index);
            &&& follow_each_other(marked, run_start, glyphs.len() as int)
            &&& run_start <= letter < glyphs.len() && !is_white_space(glyphs[letter].character)
                ==> is_marked(marked, letter)
            &&& forall|i: int|
                0 <= i < marked.len() ==> is_run(
                    glyphs,
                    steps,
                    (#[trigger] marked[i]).0,
                    marked[i].1,
                )
        }),
    decreases glyphs.len() - index, glyphs.len() - run_start,
{
    let marked = bands_from(glyphs, steps, run_start, run_direction, index);
    let end = glyphs.len() as int;
    if index >= glyphs.len() {
        assert(marked =~= seq![(run_start, end)]);
        if run_start <= letter < end {
            assert(marks(marked[0], letter));
        }
    } else if run_ends(glyphs, steps, run_start, run_direction, index) {
        match wide_space(glyphs, steps, index) {
            Some((space_start, space_end)) => {
                letter_is_before(glyphs, index - 1);
                letter_is_behind(glyphs, index);
                if space_end <= run_start {
                    bands_from_mark_the_letters(
                        glyphs,
                        steps,
                        run_start,
                        run_direction,
                        index + 1,
                        letter,
                    );
                } else {
                    let rest = bands_from(glyphs, steps, space_end, None, space_end);
                    bands_from_mark_the_letters(glyphs, steps, space_end, None, space_end, letter);
                    if run_start < space_start {
                        let band = (run_start, space_start);
                        assert(is_run(glyphs, steps, run_start, space_start));
                        assert(follow_each_other(rest, space_start, end));
                        one_more_band(band, rest, run_start, end, letter);
                        assert forall|i: int| 0 <= i < marked.len() implies is_run(
                            glyphs,
                            steps,
                            (#[trigger] marked[i]).0,
                            marked[i].1,
                        ) by {
                            if i > 0 {
                                assert(marked[i] == rest[i - 1]);
                            }
                        }
                    }
                }
            },
            None => {
                let rest = bands_from(glyphs, steps, index, None, index + 1);
                bands_from_mark_the_letters(glyphs, steps, index, None, index + 1, letter);
                one_more_band((run_start, index), rest, run_start, end, letter);
                assert forall|i: int| 0 <= i < marked.len() implies is_run(
                    glyphs,
                    steps,
                    (#[trigger] marked[i]).0,
                    marked[i].1,
                ) by {
                    if i > 0 {
                        assert(marked[i] == rest[i - 1]);
                    }
                }
            },
        }
    } else {
        bands_from_mark_the_letters(
            glyphs,
            steps,
            run_start,
            Some(steps[index].direction),
            index + 1,
            letter,
        );
    }
}

/// Every selected glyph that is no white space is marked by exactly one band.
pub proof fn every_letter_is_marked_once(glyphs: Seq<Glyph>, steps: Seq<GlyphStep>, letter: int)
    requires
        0 <= letter < glyphs.len(),
        !is_white_space(glyphs[letter].character),
    ensures
        exists|i: int|
            0 <= i < bands(glyphs, steps).len() && (#[trigger] bands(glyphs, steps)[i]).0 <= letter
                < bands(glyphs, steps)[i].1,
        forall|i: int, j: int|
            #![trigger bands(glyphs, steps)[i], bands(glyphs, steps)[j]]
            0 <= i < bands(glyphs, steps).len() && 0 <= j < bands(glyphs, steps).len() && bands(
                glyphs,
                steps,
            )[i].0 <= letter < bands(glyphs, steps)[i].1 && bands(glyphs, steps)[j].0 <= letter
                < bands(glyphs, steps)[j].1 ==> i == j,
{
    bands_from_mark_the_letters(glyphs, steps, 0, None, 1, letter);
    let marked = bands(glyphs, steps);
    assert(is_marked(marked, letter));
    let i = choose|i: int| 0 <= i < marked.len() && marks(#[trigger] marked[i], letter);
    assert(bands(glyphs, steps)[i].0 <= letter < bands(glyphs, steps)[i].1);
}

/// A band keeps to one line and to one direction, and two letters next to each other in it
/// touch.
pub proof fn bands_do_not_cross_gaps(glyphs: Seq<Glyph>, steps: Seq<GlyphStep>, i: int)
    requires
        0 <= i < bands(glyphs, steps).len(),
    ensures
        ({
            let band = bands(glyphs, steps)[i];
            &&& 0 <= band.0 <= band.1 <= glyphs.len()
            &&& forall|j: int, k: int|
                band.0 <= j < band.1 && band.0 <= k < band.1 ==> (#[trigger] glyphs[j]).line_index
                    == (#[trigger] glyphs[k]).line_index
            &&& forall|j: int, k: int|
                band.0 < j < band.1 && band.0 < k < band.1 ==> (#[trigger] steps[j]).direction == (
                #[trigger] steps[k]).direction
            &&& forall|k: int|
                band.0 < k < band.1 && !is_white_space(glyphs[k - 1].character) && !is_white_space(
                    glyphs[k].character,
                ) ==> (#[trigger] steps[k]).touches
        }),
{
    bands_from_mark_the_letters(glyphs, steps, 0, None, 1, 0);
    let band = bands(glyphs, steps)[i];
    assert(is_run(glyphs, steps, band.0, band.1));
    assert forall|j: int, k: int|
        band.0 <= j < band.1 && band.0 <= k < band.1 implies (#[trigger] glyphs[j]).line_index == (
    #[trigger] glyphs[k]).line_index by {
        assert(glyphs[j].line_index == glyphs[band.0].line_index);
    }
    assert forall|k: int|
        band.0 < k < band.1 && !is_white_space(glyphs[k - 1].character) && !is_white_space(
            glyphs[k].character,
        ) implies (#[trigger] steps[k]).touches by {
        assert(goes_on(glyphs, steps, k));
    }
}

/// Whether the text goes on without a gap from the glyph before `index` to the one at it: on one
/// line, with touching letters or across white space that is not too wide.
pub open spec fn joined(glyphs: Seq<Glyph>, steps: Seq<GlyphStep>, index: int) -> bool {
    &&& glyphs[index - 1].line_index == glyphs[index].line_index
    &&& if is_white_space(glyphs[index - 1].character) || is_white_space(glyphs[index].character) {
        steps[index].bridged
    } else {
        steps[index].touches
    }
}

/// Whether white space between the letters at `left` and `right` of one line is too wide.
pub open spec fn apart(
    glyphs: Seq<Glyph>,
    steps: Seq<GlyphStep>,
    left: int,
    right: int,
) -> bool {
    &&& 0 <= left < left + 1 < right < glyphs.len()
    &&& glyphs[left].line_index == glyphs[right].line_index
    &&& !is_white_space(glyphs[left].character)
    &&& !is_white_space(glyphs[right].character)
    &&& forall|k: int| left < k < right ==> is_white_space((#[trigger] glyphs[k]).character)
    &&& forall|k: int| left < k <= right ==> !(#[trigger] steps[k]).bridged
}

/// White space that is too wide is met as such at each of its glyphs and at the letter behind it.
proof fn apart_is_wide(
    glyphs: Seq<Glyph>,
    steps: Seq<GlyphStep>,
    left: int,
    right: int,
    index: int,
)
    requires
        apart(glyphs, steps, left, right),
        left < index <= right,
    ensures
        wide_space(glyphs, steps, index) == Some((left + 1, right)),
        !goes_on(glyphs, steps, index),
{
    letter_before_space(glyphs, left, index - 1);
    letter_is_behind(glyphs, index);
    let found = letter_from(glyphs, index);
    if found < right {
        assert(is_white_space(glyphs[found].character));
    }
    if index < right {
        assert(is_white_space(glyphs[index].character));
    } else {
        assert(is_white_space(glyphs[right - 1].character));
    }
    assert(!steps[index].bridged);
}

/// What holds of the bands from a run on: none ends between joined glyphs of one direction, and
/// none marks white space that is too wide.
proof fn bands_from_go_as_far_as_they_can(
    glyphs: Seq<Glyph>,
    steps: Seq<GlyphStep>,
    run_start: int,
    run_direction: Option<GlyphDirection>,
    index: int,
    at: int,
    left: int,
    right: int,
)
    requires
        judged_alike(glyphs, steps),
        0 <= run_start <= index <= glyphs.len(),
        run_start < glyphs.len(),
        1 <= index,
        run_start == index ==> wide_space(glyphs, steps, index) is Some && (wide_space(
            glyphs,
            steps,
            index,
        )->0).1 == index,
        is_run(glyphs, steps, run_start, index),
        index > run_start + 1 ==> run_direction == Some(steps[index - 1].direction),
        index <= run_start + 1 ==> run_direction is None,
        apart(glyphs, steps, left, right) ==> (index <= left + 1 || run_start >= right) && !(left
            < run_start < right),
    ensures
        ({
            let marked = bands_from(glyphs, steps, run_start, run_direction, index);
            &&& forall|i: int|
                0 <= i < marked.len() && (#[trigger] marked[i]).0 < at && marked[i].1 == at
                    && at < glyphs.len() && joined(glyphs, steps, at) ==> at - 1 > marked[i].0
                    && steps[at].direction != steps[at - 1].direction
            &&& apart(glyphs, steps, left, right) ==> forall|i: int, k: int|
                0 <= i < marked.len() && left < k < right ==> !#[trigger] marks(marked[i], k)
        }),
    decreases glyphs.len() - index, glyphs.len() - run_start,
{
    let marked = bands_from(glyphs, steps, run_start, run_direction, index);
    let end = glyphs.len() as int;
    if index >= glyphs.len() {
        assert(marked =~= seq![(run_start, end)]);
        if apart(glyphs, steps, left, right) {
            assert forall|i: int, k: int| 0 <= i < marked.len() && left < k < right implies !(
            #[trigger] marks(marked[i], k)) by {}
        }
    } else if run_ends(glyphs, steps, run_start, run_direction, index) {
        match wide_space(glyphs, steps, index) {
            Some((space_start, space_end)) => {
                wide_space_is_met_again(glyphs, steps, index);
                letter_is_before(glyphs, index - 1);
                letter_is_behind(glyphs, index);
                if space_end <= run_start {
                    bands_from_go_as_far_as_they_can(
                        glyphs,
                        steps,
                        run_start,
                        run_direction,
                        index + 1,
                        at,
                        left,
                        right,
                    );
                } else {
                    let rest = bands_from(glyphs, steps, space_end, None, space_end);
                    if apart(glyphs, steps, left, right) && run_start < right {
                        assert(index <= left + 1);
                        if index <= left {
                            if space_end > left {
                                assert(is_white_space(glyphs[left].character));
                            }
                        } else {
                            apart_is_wide(glyphs, steps, left, right, index);
                        }
                    }
                    assert(!goes_on(glyphs, steps, space_end));
                    bands_from_go_as_far_as_they_can(
                        glyphs,
                        steps,
                        space_end,
                        None,
                        space_end,
                        at,
                        left,
                        right,
                    );
                    if run_start < space_start {
                        space_is_not_joined(glyphs, steps, index);
                        assert(marked =~= seq![(run_start, space_start)] + rest);
                        assert forall|i: int|
                            0 <= i < marked.len() && (#[trigger] marked[i]).0 < at && marked[i].1
                                == at && at < glyphs.len() && joined(glyphs, steps, at) implies at
                            - 1 > marked[i].0 && steps[at].direction != steps[at
                            - 1].direction by {
                            if i > 0 {
                                assert(marked[i] == rest[i - 1]);
                            }
                        }
                        if apart(glyphs, steps, left, right) {
                            assert forall|i: int, k: int|
                                0 <= i < marked.len() && left < k < right implies !#[trigger] marks(
                                marked[i],
                                k,
                            ) by {
                                if i > 0 {
                                    assert(marked[i] == rest[i - 1]);
                                    assert(!marks(rest[i - 1], k));
                                }
                            }
                        }
                    } else {
                        assert(marked == rest);
                    }
                }
            },
            None => {
                let rest = bands_from(glyphs, steps, index, None, index + 1);
                if apart(glyphs, steps, left, right) && run_start < right && index == left
                    + 1 {
                    apart_is_wide(glyphs, steps, left, right, index);
                }
                bands_from_go_as_far_as_they_can(
                    glyphs,
                    steps,
                    index,
                    None,
                    index + 1,
                    at,
                    left,
                    right,
                );
                assert(marked =~= seq![(run_start, index)] + rest);
                assert forall|i: int|
                    0 <= i < marked.len() && (#[trigger] marked[i]).0 < at && marked[i].1 == at
                        && at < glyphs.len() && joined(glyphs, steps, at) implies at - 1
                    > marked[i].0 && steps[at].direction != steps[at - 1].direction by {
                    if i > 0 {
                        assert(marked[i] == rest[i - 1]);
                    } else {
                        assert(glyphs[index - 1].line_index == glyphs[run_start].line_index);
                        assert(goes_on(glyphs, steps, index));
                    }
                }
                if apart(glyphs, steps, left, right) {
                    assert forall|i: int, k: int|
                        0 <= i < marked.len() && left < k < right implies !#[trigger] marks(
                        marked[i],
                        k,
                    ) by {
                        if i > 0 {
                            assert(marked[i] == rest[i - 1]);
                            assert(!marks(rest[i - 1], k));
                        }
                    }
                }
            },
        }
    } else {
        if apart(glyphs, steps, left, right) && index == left + 1 && run_start < right {
            apart_is_wide(glyphs, steps, left, right, index);
        }
        bands_from_go_as_far_as_they_can(
            glyphs,
            steps,
            run_start,
            Some(steps[index].direction),
            index + 1,
            at,
            left,
            right,
        );
        assert(marked == bands_from(
            glyphs,
            steps,
            run_start,
            Some(steps[index].direction),
            index + 1,
        ));
    }
}

/// White space that is too wide is not joined to the letter before it.
proof fn space_is_not_joined(glyphs: Seq<Glyph>, steps: Seq<GlyphStep>, index: int)
    requires
        judged_alike(glyphs, steps),
        0 < index < glyphs.len(),
        wide_space(glyphs, steps, index) is Some,
    ensures
        !joined(glyphs, steps, (wide_space(glyphs, steps, index)->0).0),
{
    let left = letter_before(glyphs, index - 1);
    let right = letter_from(glyphs, index);
    letter_is_before(glyphs, index - 1);
    letter_is_behind(glyphs, index);
    let start = left + 1;
    assert(start < right) by {
        if start >= right {
            assert(start == index && index == right);
            assert(at_space(glyphs, index));
        }
    }
    assert(is_white_space(glyphs[start].character));
    letter_before_space(glyphs, left, start - 1);
    letter_is_behind(glyphs, start);
    let found = letter_from(glyphs, start);
    if found < right {
        assert(is_white_space(glyphs[found].character));
    }
    assert(letter_from(glyphs, start) == right);
    assert(steps[start].bridged == steps[index].bridged);
}

/// Where the text goes on without a gap, a band goes on too, unless its direction changes: a band
/// that marks a glyph marks the next one.
pub proof fn joined_glyphs_share_a_band(
    glyphs: Seq<Glyph>,
    steps: Seq<GlyphStep>,
    i: int,
    at: int,
)
    requires
        judged_alike(glyphs, steps),
        0 <= i < bands(glyphs, steps).len(),
        bands(glyphs, steps)[i].0 < at <= bands(glyphs, steps)[i].1,
        at < glyphs.len(),
        joined(glyphs, steps, at),
        at - 1 == bands(glyphs, steps)[i].0 || steps[at].direction == steps[at - 1].direction,
    ensures
        at < bands(glyphs, steps)[i].1,
{
    bands_from_go_as_far_as_they_can(glyphs, steps, 0, None, 1, at, -1, -1);
}

/// White space between two letters of a line that is too wide stays unmarked.
pub proof fn wide_space_stays_unmarked(
    glyphs: Seq<Glyph>,
    steps: Seq<GlyphStep>,
    left: int,
    right: int,
    i: int,
    at: int,
)
    requires
        judged_alike(glyphs, steps),
        apart(glyphs, steps, left, right),
        left < at < right,
        0 <= i < bands(glyphs, steps).len(),
    ensures
        !(bands(glyphs, steps)[i].0 <= at < bands(glyphs, steps)[i].1),
{
    bands_from_go_as_far_as_they_can(glyphs, steps, 0, None, 1, 0, left, right);
    assert(!marks(bands(glyphs, steps)[i], at));
}

/// The nearest glyph is no farther than any other, and the first of those that are as near.
pub proof fn the_first_of_the_nearest_counts(distances: Seq<u32>, index: int, i: int)
    requires
        is_nearest(distances, index),
        0 <= i < distances.len(),
    ensures
        0 <= index < distances.len(),
        distances[index] < 0x8000_0000 && distances[i] < 0x8000_0000 ==> distances[index]
            <= distances[i],
        distances[i] == distances[index] ==> index <= i,
        is_nearest(distances, i) ==> i == index,
{
    if i < index {
        assert(total_place(distances[index]) < total_place(distances[i]));
    }
    if index < i && is_nearest(distances, i) {
        assert(total_place(distances[i]) < total_place(distances[index]));
    }
}

} // verus!
