//! Text selections: which glyphs are meant, what they read, and how they fall into bands.
use crate::annotation::any_quad;
use crate::numbers::{below, first_smallest, number_below, total_place};
use crate::text::{is_space, is_white_space};
use vstd::prelude::*;

verus! {

/// One glyph of a page, in the order of the text.
#[derive(Clone, Copy, Debug, PartialEq, Eq, Structural)]
pub struct Glyph {
    pub character: char,
    pub line_index: usize,
}

/// The direction from one glyph to the next.
#[derive(Clone, Copy, Debug, PartialEq, Eq, Structural)]
pub struct GlyphDirection {
    pub horizontal: bool,
    pub forward: bool,
}

/// How a glyph stands to those before it.
#[derive(Clone, Copy, Debug, PartialEq, Eq, Structural)]
pub struct GlyphStep {
    pub direction: GlyphDirection,
    /// The gap to the glyph just before it is no wider than one of the two.
    pub touches: bool,
    /// The gap between the last letter before it and the first letter from it on is no wider
    /// than one of the two.
    pub bridged: bool,
}

/// The index of the first smallest distance.
pub open spec fn is_nearest(distances: Seq<u32>, index: int) -> bool {
    &&& 0 <= index < distances.len()
    &&& forall|i: int|
        0 <= i < distances.len() ==> total_place(distances[index]) <= total_place(
            #[trigger] distances[i],
        )
    &&& forall|i: int|
        0 <= i < index ==> total_place(distances[index]) < total_place(#[trigger] distances[i])
}

/// Two glyphs cannot both be the nearest.
proof fn nearest_is_unique(distances: Seq<u32>, a: int, b: int)
    requires
        is_nearest(distances, a),
        is_nearest(distances, b),
    ensures
        a == b,
{
    if a < b {
        assert(total_place(distances[b]) < total_place(distances[a]));
    } else if b < a {
        assert(total_place(distances[a]) < total_place(distances[b]));
    }
}

/// The glyph nearest to a point. `distances` has the distance of each glyph.
pub fn nearest_glyph_index(distances: &Vec<u32>) -> (res: Option<usize>)
    ensures
        match res {
            None => distances@.len() == 0,
            Some(index) => is_nearest(distances@, index as int),
        },
{
    first_smallest(distances)
}

/// The glyph nearest to a point, if it is near enough. `usable` says that the limit is a
/// finite number that is not negative.
pub fn nearest_glyph_within(distances: &Vec<u32>, usable: bool, limit: u32) -> (res: Option<usize>)
    ensures
        match res {
            None => !usable || distances@.len() == 0 || exists|index: int|
                is_nearest(distances@, index) && below(limit, #[trigger] distances@[index]),
            Some(index) => usable && is_nearest(distances@, index as int) && !below(
                limit,
                distances@[index as int],
            ),
        },
{
    if !usable {
        return None;
    }
    match nearest_glyph_index(distances) {
        None => None,
        Some(index) => {
            if number_below(limit, distances[index]) {
                assert(below(limit, distances@[index as int]));
                return None;
            }
            Some(index)
        },
    }
}

/// The glyphs from the one nearest to the start of a drag to the one nearest to its end, in
/// the order of the text.
pub fn selected_glyph_range(start_distances: &Vec<u32>, end_distances: &Vec<u32>) -> (res: Option<
    (usize, usize),
>)
    ensures
        match res {
            None => start_distances@.len() == 0 || end_distances@.len() == 0,
            Some(range) => {
                ||| is_nearest(start_distances@, range.0 as int) && is_nearest(
                    end_distances@,
                    range.1 as int,
                ) && range.0 <= range.1
                ||| is_nearest(end_distances@, range.0 as int) && is_nearest(
                    start_distances@,
                    range.1 as int,
                ) && range.0 < range.1
            },
        },
{
    match (nearest_glyph_index(start_distances), nearest_glyph_index(end_distances)) {
        (Some(start), Some(end)) => if start <= end {
            Some((start, end))
        } else {
            Some((end, start))
        },
        _ => None,
    }
}

/// A drag from one point to another selects the same glyphs as the drag back.
pub proof fn drags_are_symmetric(start: Seq<u32>, end: Seq<u32>, a: (int, int), b: (int, int))
    requires
        is_nearest(start, a.0) && is_nearest(end, a.1),
        is_nearest(end, b.0) && is_nearest(start, b.1),
    ensures
        a.0 == b.1,
        a.1 == b.0,
{
    nearest_is_unique(start, a.0, b.1);
    nearest_is_unique(end, a.1, b.0);
}

/// `String::push` of std: the text ends with one more character, and nothing else changes.
pub assume_specification[ String::push ](text: &mut String, ch: char)
    ensures
        final(text)@ == old(text)@.push(ch),
;

/// What the glyphs from `first` to before `end` read: lines are kept apart.
pub open spec fn read_text(glyphs: Seq<Glyph>, first: int, end: int) -> Seq<char>
    decreases end - first,
{
    if end <= first {
        seq![]
    } else {
        let before = read_text(glyphs, first, end - 1);
        let character = glyphs[end - 1].character;
        if end - 1 > first && glyphs[end - 1].line_index != glyphs[end - 2].line_index {
            before.push('\n').push(character)
        } else {
            before.push(character)
        }
    }
}

/// What the glyphs from `first` to `last` read.
pub fn selected_text(glyphs: &Vec<Glyph>, first: usize, last: usize) -> (res: String)
    requires
        first <= last < glyphs@.len(),
    ensures
        res@ == read_text(glyphs@, first as int, last + 1),
{
    let end: usize = glyphs.len();
    let mut text = String::new();
    let mut previous_line: usize = glyphs[first].line_index;
    let mut i: usize = first;
    assert(text@ =~= read_text(glyphs@, first as int, first as int));
    while i <= last
        invariant
            first <= i <= last + 1,
            last < end,
            end == glyphs@.len(),
            text@ == read_text(glyphs@, first as int, i as int),
            i == first ==> previous_line == glyphs@[first as int].line_index,
            i > first ==> previous_line == glyphs@[i - 1].line_index,
        decreases last + 1 - i,
    {
        let glyph = glyphs[i];
        if glyph.line_index != previous_line {
            text.push('\n');
            previous_line = glyph.line_index;
        }
        text.push(glyph.character);
        i += 1;
    }
    text
}

/// Whether a point of a page is on the selection. `quads_hit` says which of its quads hold
/// the point.
pub fn selection_contains_point(selected_page: usize, page_index: usize, quads_hit: &Vec<bool>) -> (res:
    bool)
    ensures
        res == (selected_page == page_index && quads_hit@.contains(true)),
{
    selected_page == page_index && any_quad(quads_hit)
}

/// The last letter up to `index`; one before the first glyph if there is none.
pub open spec fn letter_before(glyphs: Seq<Glyph>, index: int) -> int
    decreases index + 1,
{
    if index < 0 {
        -1
    } else if !is_white_space(glyphs[index].character) {
        index
    } else {
        letter_before(glyphs, index - 1)
    }
}

/// The first letter from `index` on; the number of glyphs if there is none.
pub open spec fn letter_from(glyphs: Seq<Glyph>, index: int) -> int
    decreases glyphs.len() - index,
{
    if index >= glyphs.len() {
        glyphs.len() as int
    } else if !is_white_space(glyphs[index].character) {
        index
    } else {
        letter_from(glyphs, index + 1)
    }
}

/// White space stands between the glyph at `index` and the one before it.
pub open spec fn at_space(glyphs: Seq<Glyph>, index: int) -> bool {
    is_white_space(glyphs[index - 1].character) || is_white_space(glyphs[index].character)
}

/// The text goes on from the glyph before `index` to the one at it. Around white space, the
/// letters on both sides count.
pub open spec fn goes_on(glyphs: Seq<Glyph>, steps: Seq<GlyphStep>, index: int) -> bool {
    if at_space(glyphs, index) {
        ||| letter_before(glyphs, index - 1) < 0
        ||| letter_from(glyphs, index) >= glyphs.len()
        ||| steps[index].bridged
    } else {
        steps[index].touches
    }
}

/// The white space around `index` that is too wide to be marked, from its first glyph to the
/// next letter.
pub open spec fn wide_space(glyphs: Seq<Glyph>, steps: Seq<GlyphStep>, index: int) -> Option<
    (int, int),
> {
    let left = letter_before(glyphs, index - 1);
    let right = letter_from(glyphs, index);
    if at_space(glyphs, index) && left >= 0 && right < glyphs.len() && glyphs[left].line_index
        == glyphs[right].line_index && !steps[index].bridged {
        Some((left + 1, right))
    } else {
        None
    }
}

/// A run of glyphs ends before `index`: the line, the direction or the text breaks.
pub open spec fn run_ends(
    glyphs: Seq<Glyph>,
    steps: Seq<GlyphStep>,
    run_start: int,
    run_direction: Option<GlyphDirection>,
    index: int,
) -> bool {
    ||| glyphs[index].line_index != glyphs[run_start].line_index
    ||| !goes_on(glyphs, steps, index)
    ||| (run_direction is Some && run_direction->0 != steps[index].direction)
}

/// The bands from a run on that began at `run_start` and has reached `index`: each from its
/// first glyph to behind its last one.
pub open spec fn bands_from(
    glyphs: Seq<Glyph>,
    steps: Seq<GlyphStep>,
    run_start: int,
    run_direction: Option<GlyphDirection>,
    index: int,
) -> Seq<(int, int)>
    decreases glyphs.len() - index, glyphs.len() - run_start,
{
    if index >= glyphs.len() {
        seq![(run_start, glyphs.len() as int)]
    } else if run_ends(glyphs, steps, run_start, run_direction, index) {
        match wide_space(glyphs, steps, index) {
            Some((space_start, space_end)) if space_end >= index => if space_end <= run_start {
                bands_from(glyphs, steps, run_start, run_direction, index + 1)
            } else {
                let rest = bands_from(glyphs, steps, space_end, None, space_end);
                if run_start < space_start {
                    seq![(run_start, space_start)] + rest
                } else {
                    rest
                }
            },
            _ => seq![(run_start, index)] + bands_from(glyphs, steps, index, None, index + 1),
        }
    } else {
        bands_from(glyphs, steps, run_start, Some(steps[index].direction), index + 1)
    }
}

/// The bands of a selection.
pub open spec fn bands(glyphs: Seq<Glyph>, steps: Seq<GlyphStep>) -> Seq<(int, int)> {
    if glyphs.len() == 0 {
        seq![]
    } else {
        bands_from(glyphs, steps, 0, None, 1)
    }
}

fn find_letter_before(glyphs: &Vec<Glyph>, index: usize) -> (res: Option<usize>)
    requires
        index < glyphs@.len(),
    ensures
        match res {
            None => letter_before(glyphs@, index as int) < 0,
            Some(found) => found == letter_before(glyphs@, index as int) && found <= index,
        },
{
    let count: usize = glyphs.len();
    let mut i: usize = index + 1;
    while i > 0
        invariant
            i <= index + 1,
            index < glyphs@.len(),
            letter_before(glyphs@, index as int) == letter_before(glyphs@, i - 1),
        decreases i,
    {
        if !is_space(glyphs[i - 1].character) {
            return Some(i - 1);
        }
        i -= 1;
    }
    None
}

fn find_letter_from(glyphs: &Vec<Glyph>, index: usize) -> (res: Option<usize>)
    requires
        index < glyphs@.len(),
    ensures
        match res {
            None => letter_from(glyphs@, index as int) >= glyphs@.len(),
            Some(found) => found == letter_from(glyphs@, index as int) && index <= found
                < glyphs@.len(),
        },
{
    let mut i: usize = index;
    while i < glyphs.len()
        invariant
            index <= i <= glyphs@.len(),
            letter_from(glyphs@, index as int) == letter_from(glyphs@, i as int),
        decreases glyphs.len() - i,
    {
        if !is_space(glyphs[i].character) {
            return Some(i);
        }
        i += 1;
    }
    None
}

/// The letters that face each other across the place before the glyph at `index`: the last one
/// before it and the first one from it on. Returns nothing where there is none on a side.
pub fn facing_letters(glyphs: &Vec<Glyph>, index: usize) -> (res: Option<(usize, usize)>)
    requires
        index < glyphs@.len(),
    ensures
        ({
            let left = letter_before(glyphs@, index - 1);
            let right = letter_from(glyphs@, index as int);
            match res {
                None => left < 0 || right >= glyphs@.len(),
                Some(letters) => letters.0 == left && letters.1 == right && letters.0 < index
                    && index <= letters.1 < glyphs@.len(),
            }
        }),
{
    if index == 0 {
        return None;
    }
    match (find_letter_before(glyphs, index - 1), find_letter_from(glyphs, index)) {
        (Some(left), Some(right)) => Some((left, right)),
        _ => None,
    }
}

fn wide_whitespace_bridge(glyphs: &Vec<Glyph>, steps: &Vec<GlyphStep>, index: usize) -> (res: Option<
    (usize, usize),
>)
    requires
        1 <= index < glyphs@.len(),
        steps@.len() == glyphs@.len(),
    ensures
        match wide_space(glyphs@, steps@, index as int) {
            None => res is None,
            Some(space) => res is Some && (res->0).0 == space.0 && (res->0).1 == space.1
                && space.1 >= index && (res->0).0 <= index && (res->0).1 < glyphs@.len(),
        },
{
    if !is_space(glyphs[index - 1].character) && !is_space(glyphs[index].character) {
        return None;
    }
    match facing_letters(glyphs, index) {
        Some((left, right)) => {
            if glyphs[left].line_index != glyphs[right].line_index || steps[index].bridged {
                None
            } else {
                Some((left + 1, right))
            }
        },
        None => None,
    }
}

fn glyphs_are_continuous(glyphs: &Vec<Glyph>, steps: &Vec<GlyphStep>, index: usize) -> (res: bool)
    requires
        1 <= index < glyphs@.len(),
        steps@.len() == glyphs@.len(),
    ensures
        res == goes_on(glyphs@, steps@, index as int),
{
    if is_space(glyphs[index - 1].character) || is_space(glyphs[index].character) {
        find_letter_before(glyphs, index - 1).is_none() || find_letter_from(
            glyphs,
            index,
        ).is_none() || steps[index].bridged
    } else {
        steps[index].touches
    }
}

/// The views of bands.
pub open spec fn band_views(bands: Seq<(usize, usize)>) -> Seq<(int, int)> {
    Seq::new(bands.len(), |i: int| (bands[i].0 as int, bands[i].1 as int))
}

/// Splits a selection into the bands that are marked: each from its first glyph to behind its
/// last one. No band goes on over a wide gap, another line or another direction.
pub fn merge_line_bands(glyphs: &Vec<Glyph>, steps: &Vec<GlyphStep>) -> (res: Vec<(usize, usize)>)
    requires
        steps@.len() == glyphs@.len(),
    ensures
        band_views(res@) == bands(glyphs@, steps@),
{
    let mut res: Vec<(usize, usize)> = Vec::new();
    if glyphs.len() == 0 {
        assert(band_views(res@) =~= bands(glyphs@, steps@));
        return res;
    }
    let count: usize = glyphs.len();
    let mut run_start: usize = 0;
    let mut run_direction: Option<GlyphDirection> = None;
    let mut index: usize = 1;
    assert(band_views(res@) + bands_from(glyphs@, steps@, 0, None, 1) =~= bands(
        glyphs@,
        steps@,
    ));
    while index < count
        invariant
            count == glyphs@.len(),
            steps@.len() == glyphs@.len(),
            run_start <= index,
            1 <= index <= count,
            run_start < count,
            band_views(res@) + bands_from(
                glyphs@,
                steps@,
                run_start as int,
                run_direction,
                index as int,
            ) == bands(glyphs@, steps@),
        decreases count - index, count - run_start,
    {
        let ghost done = band_views(res@);
        let direction = steps[index].direction;
        let turns = match run_direction {
            None => false,
            Some(previous) => previous != direction,
        };
        let ended = glyphs[index].line_index != glyphs[run_start].line_index
            || !glyphs_are_continuous(glyphs, steps, index) || turns;
        assert(ended == run_ends(
            glyphs@,
            steps@,
            run_start as int,
            run_direction,
            index as int,
        ));
        if !ended {
            run_direction = Some(direction);
            index += 1;
        } else {
            match wide_whitespace_bridge(glyphs, steps, index) {
                Some((space_start, space_end)) => {
                    if space_end <= run_start {
                        index += 1;
                    } else {
                        if run_start < space_start {
                            res.push((run_start, space_start));
                            proof {
                                let rest = bands_from(
                                    glyphs@,
                                    steps@,
                                    space_end as int,
                                    None,
                                    space_end as int,
                                );
                                let band = (run_start as int, space_start as int);
                                assert(band_views(res@) =~= done.push(band));
                                assert(band_views(res@) + rest =~= done + (seq![band] + rest));
                            }
                        }
                        run_start = space_end;
                        run_direction = None;
                        index = space_end;
                    }
                },
                None => {
                    res.push((run_start, index));
                    proof {
                        let rest = bands_from(
                            glyphs@,
                            steps@,
                            index as int,
                            None,
                            index + 1,
                        );
                        let band = (run_start as int, index as int);
                        assert(band_views(res@) =~= done.push(band));
                        assert(band_views(res@) + rest =~= done + (seq![band] + rest));
                    }
                    run_start = index;
                    run_direction = None;
                    index += 1;
                },
            }
        }
    }
    res.push((run_start, count));
    assert(band_views(res@) =~= bands(glyphs@, steps@));
    res
}

/// Bands from `from` on: in order, apart from each other, and none of them empty.
pub open spec fn in_order(bands: Seq<(int, int)>, from: int, end: int) -> bool {
    &&& forall|i: int|
        0 <= i < bands.len() ==> from <= (#[trigger] bands[i]).0 < bands[i].1 <= end
    &&& forall|i: int, j: int|
        0 <= i < j < bands.len() ==> (#[trigger] bands[i]).1 <= (#[trigger] bands[j]).0
}

/// The gap between the same two letters is judged in the same way, wherever it is met.
pub open spec fn judged_alike(glyphs: Seq<Glyph>, steps: Seq<GlyphStep>) -> bool {
    forall|i: int, j: int|
        #![trigger steps[i], steps[j]]
        0 < i < glyphs.len() && 0 < j < glyphs.len() && letter_before(glyphs, i - 1)
            == letter_before(glyphs, j - 1) && letter_from(glyphs, i) == letter_from(glyphs, j)
            ==> steps[i].bridged == steps[j].bridged
}

/// The last letter up to `index` is a letter, and only white space stands behind it.
pub proof fn letter_is_before(glyphs: Seq<Glyph>, index: int)
    requires
        -1 <= index < glyphs.len(),
    ensures
        -1 <= letter_before(glyphs, index) <= index,
        letter_before(glyphs, index) >= 0 ==> !is_white_space(
            glyphs[letter_before(glyphs, index)].character,
        ),
        forall|k: int|
            letter_before(glyphs, index) < k <= index ==> is_white_space(
                (#[trigger] glyphs[k]).character,
            ),
    decreases index + 1,
{
    if index >= 0 && is_white_space(glyphs[index].character) {
        letter_is_before(glyphs, index - 1);
    }
}

/// The first letter from `index` on is a letter, and only white space stands before it.
pub proof fn letter_is_behind(glyphs: Seq<Glyph>, index: int)
    requires
        0 <= index <= glyphs.len(),
    ensures
        index <= letter_from(glyphs, index) <= glyphs.len(),
        letter_from(glyphs, index) < glyphs.len() ==> !is_white_space(
            glyphs[letter_from(glyphs, index)].character,
        ),
        forall|k: int|
            index <= k < letter_from(glyphs, index) ==> is_white_space(
                (#[trigger] glyphs[k]).character,
            ),
    decreases glyphs.len() - index,
{
    if index < glyphs.len() && is_white_space(glyphs[index].character) {
        letter_is_behind(glyphs, index + 1);
    }
}

/// Across white space, the last letter is the one in front of it.
pub proof fn letter_before_space(glyphs: Seq<Glyph>, left: int, index: int)
    requires
        0 <= left <= index < glyphs.len(),
        !is_white_space(glyphs[left].character),
        forall|k: int| left < k <= index ==> is_white_space((#[trigger] glyphs[k]).character),
    ensures
        letter_before(glyphs, index) == left,
    decreases index - left,
{
    if index > left {
        letter_before_space(glyphs, left, index - 1);
    }
}

/// The same wide space is met again at the letter behind it.
pub proof fn wide_space_is_met_again(glyphs: Seq<Glyph>, steps: Seq<GlyphStep>, index: int)
    requires
        0 < index < glyphs.len(),
        judged_alike(glyphs, steps),
        wide_space(glyphs, steps, index) is Some,
    ensures
        ({
            let space = wide_space(glyphs, steps, index)->0;
            &&& index <= space.1 < glyphs.len()
            &&& 0 < space.0 <= index
            &&& wide_space(glyphs, steps, space.1) == Some(space)
        }),
{
    let left = letter_before(glyphs, index - 1);
    let right = letter_from(glyphs, index);
    letter_is_before(glyphs, index - 1);
    letter_is_behind(glyphs, index);
    assert(is_white_space(glyphs[right - 1].character)) by {
        if right == index {
            assert(is_white_space(glyphs[index - 1].character));
        }
    }
    assert forall|k: int| left < k <= right - 1 implies is_white_space(
        (#[trigger] glyphs[k]).character,
    ) by {
    }
    letter_before_space(glyphs, left, right - 1);
    assert(letter_from(glyphs, right) == right);
    assert(steps[index].bridged == steps[right].bridged);
}

proof fn bands_from_are_in_order(
    glyphs: Seq<Glyph>,
    steps: Seq<GlyphStep>,
    run_start: int,
    run_direction: Option<GlyphDirection>,
    index: int,
)
    requires
        judged_alike(glyphs, steps),
        0 <= run_start <= index <= glyphs.len(),
        run_start < glyphs.len(),
        1 <= index,
        run_start == index ==> wide_space(glyphs, steps, index) is Some && (wide_space(
            glyphs,
            steps,
            index,
        )->0).1 == index,
    ensures
        in_order(
            bands_from(glyphs, steps, run_start, run_direction, index),
            run_start,
            glyphs.len() as int,
        ),
    decreases glyphs.len() - index, glyphs.len() - run_start,
{
    if index < glyphs.len() {
        if run_ends(glyphs, steps, run_start, run_direction, index) {
            match wide_space(glyphs, steps, index) {
                Some((space_start, space_end)) => {
                    wide_space_is_met_again(glyphs, steps, index);
                    if space_end <= run_start {
                        bands_from_are_in_order(
                            glyphs,
                            steps,
                            run_start,
                            run_direction,
                            index + 1,
                        );
                    } else {
                        bands_from_are_in_order(glyphs, steps, space_end, None, space_end);
                    }
                },
                None => {
                    bands_from_are_in_order(glyphs, steps, index, None, index + 1);
                },
            }
        } else {
            bands_from_are_in_order(
                glyphs,
                steps,
                run_start,
                Some(steps[index].direction),
                index + 1,
            );
        }
    }
}

/// The bands of a selection stand in the order of the text, apart from each other, and none
/// of them is empty.
pub proof fn bands_are_in_order(glyphs: Seq<Glyph>, steps: Seq<GlyphStep>)
    requires
        judged_alike(glyphs, steps),
    ensures
        in_order(bands(glyphs, steps), 0, glyphs.len() as int),
{
    if glyphs.len() > 0 {
        bands_from_are_in_order(glyphs, steps, 0, None, 1);
    }
}

} // verus!
