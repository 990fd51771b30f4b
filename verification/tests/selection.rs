use lunapdf::annotation::{
    annotations_at_point, decide_annotation_candidates, AnnotationCandidateDecision, AnnotationHit,
};
use lunapdf::document::AnnotationId;
use lunapdf::selection::{
    facing_letters, merge_line_bands, nearest_glyph_index, nearest_glyph_within,
    selected_glyph_range, selected_text, selection_contains_point, Glyph, GlyphDirection,
    GlyphStep,
};

/// A glyph with the left, top, right and bottom of its box.
#[derive(Clone, Copy)]
struct Boxed {
    glyph: Glyph,
    x0: f32,
    y0: f32,
    x1: f32,
    y1: f32,
}

fn boxed(character: char, line_index: usize, x0: f32, y0: f32, x1: f32, y1: f32) -> Boxed {
    Boxed {
        glyph: Glyph {
            character,
            line_index,
        },
        x0,
        y0,
        x1,
        y1,
    }
}

fn glyph(character: char, x: f32, line_index: usize) -> Boxed {
    let top = line_index as f32 * 20.0;
    boxed(character, line_index, x, top, x + 8.0, top + 10.0)
}

fn glyphs_of(boxes: &[Boxed]) -> Vec<Glyph> {
    boxes.iter().map(|b| b.glyph).collect()
}

fn distances(boxes: &[Boxed], x: f32, y: f32) -> Vec<u32> {
    boxes
        .iter()
        .map(|b| {
            let dx = x - x.clamp(b.x0, b.x1);
            let dy = y - y.clamp(b.y0, b.y1);
            (dx * dx + dy * dy).to_bits()
        })
        .collect()
}

fn direction(previous: Boxed, next: Boxed) -> GlyphDirection {
    let dx = (next.x0 + next.x1) / 2.0 - (previous.x0 + previous.x1) / 2.0;
    let dy = (next.y0 + next.y1) / 2.0 - (previous.y0 + previous.y1) / 2.0;
    let horizontal = dx.abs() >= dy.abs();
    GlyphDirection {
        horizontal,
        forward: if horizontal { dx >= 0.0 } else { dy >= 0.0 },
    }
}

fn touches(previous: Boxed, next: Boxed) -> bool {
    let d = direction(previous, next);
    if d.horizontal {
        let gap = if d.forward {
            next.x0 - previous.x1
        } else {
            previous.x0 - next.x1
        };
        gap <= (previous.x1 - previous.x0).max(next.x1 - next.x0)
    } else {
        let gap = if d.forward {
            next.y0 - previous.y1
        } else {
            previous.y0 - next.y1
        };
        gap <= (previous.y1 - previous.y0).max(next.y1 - next.y0)
    }
}

fn bands(boxes: &[Boxed]) -> Vec<(usize, usize)> {
    let glyphs = glyphs_of(boxes);
    let steps = (0..boxes.len())
        .map(|index| {
            let previous = boxes[index.max(1) - 1];
            GlyphStep {
                direction: direction(previous, boxes[index]),
                touches: touches(previous, boxes[index]),
                bridged: match facing_letters(&glyphs, index) {
                    Some((left, right)) => touches(boxes[left], boxes[right]),
                    None => true,
                },
            }
        })
        .collect();
    merge_line_bands(&glyphs, &steps)
}

/// The left, top, right and bottom of one band: from its first glyph to its last.
fn outline(boxes: &[Boxed]) -> (f32, f32, f32, f32) {
    boxes.iter().fold(
        (f32::INFINITY, f32::INFINITY, f32::NEG_INFINITY, f32::NEG_INFINITY),
        |(x0, y0, x1, y1), b| (x0.min(b.x0), y0.min(b.y0), x1.max(b.x1), y1.max(b.y1)),
    )
}

fn outlines(boxes: &[Boxed]) -> Vec<(f32, f32, f32, f32)> {
    bands(boxes)
        .into_iter()
        .map(|(start, end)| outline(&boxes[start..end]))
        .collect()
}

/// The outlines of the bands from one point to another.
fn selected_quads(
    boxes: &[Boxed],
    start: (f32, f32),
    end: (f32, f32),
) -> Vec<(f32, f32, f32, f32)> {
    match range(boxes, start, end) {
        Some((first, last)) => outlines(&boxes[first..=last]),
        None => Vec::new(),
    }
}

/// The character center that a point snaps to.
fn center(b: Boxed) -> (f32, f32) {
    ((b.x0 + b.x1) / 2.0, (b.y0 + b.y1) / 2.0)
}

fn range(boxes: &[Boxed], start: (f32, f32), end: (f32, f32)) -> Option<(usize, usize)> {
    selected_glyph_range(
        &distances(boxes, start.0, start.1),
        &distances(boxes, end.0, end.1),
    )
}

fn text(boxes: &[Boxed], start: (f32, f32), end: (f32, f32)) -> String {
    match range(boxes, start, end) {
        Some((first, last)) => selected_text(&glyphs_of(boxes), first, last),
        None => String::new(),
    }
}

#[test]
fn logical_selection_uses_document_order_for_reverse_drag() {
    let glyphs = [glyph('A', 0.0, 0), glyph('B', 10.0, 0), glyph('C', 20.0, 0)];

    assert_eq!(text(&glyphs, (25.0, 5.0), (1.0, 5.0)), "ABC");
}

#[test]
fn logical_selection_preserves_line_boundaries() {
    let glyphs = [glyph('A', 0.0, 0), glyph('B', 0.0, 1)];

    assert_eq!(text(&glyphs, (1.0, 5.0), (1.0, 25.0)), "A\nB");
}

#[test]
fn pointer_hit_mapping_snaps_to_the_nearest_glyph_center() {
    let glyphs = [glyph('A', 0.0, 0), glyph('B', 20.0, 0)];

    let snapped = nearest_glyph_index(&distances(&glyphs, 27.0, 4.0)).unwrap();

    assert_eq!(snapped, 1);
    assert_eq!(center(glyphs[snapped]), (24.0, 5.0));
    assert_eq!(range(&glyphs, (24.0, 5.0), (1.0, 5.0)), Some((0, 1)));
}

#[test]
fn bounded_pointer_hit_rejects_page_space_far_from_text() {
    let glyphs = [glyph('A', 0.0, 0), glyph('B', 20.0, 0)];
    let limit = (4.0_f32 * 4.0).to_bits();

    let snapped = nearest_glyph_within(&distances(&glyphs, 31.0, 5.0), true, limit);
    assert_eq!(snapped, Some(1));
    assert_eq!(center(glyphs[snapped.unwrap()]), (24.0, 5.0));
    assert_eq!(
        nearest_glyph_within(&distances(&glyphs, 80.0, 80.0), true, limit),
        None
    );
}

#[test]
fn an_unusable_limit_or_an_empty_page_hits_nothing() {
    assert_eq!(nearest_glyph_within(&vec![0], false, 1), None);
    assert_eq!(nearest_glyph_within(&vec![], true, 1), None);
    assert_eq!(nearest_glyph_index(&vec![]), None);
    assert_eq!(selected_glyph_range(&vec![], &vec![]), None);
}

#[test]
fn selection_quads_include_both_endpoint_glyphs() {
    let glyphs = [glyph('A', 0.0, 0), glyph('B', 10.0, 0), glyph('C', 20.0, 0)];

    let forward = selected_quads(&glyphs, (1.0, 5.0), (27.0, 5.0));
    let reverse = selected_quads(&glyphs, (27.0, 5.0), (1.0, 5.0));

    assert_eq!(forward.len(), 1);
    assert_eq!((forward[0].0, forward[0].1), (glyphs[0].x0, glyphs[0].y0));
    assert_eq!((forward[0].2, forward[0].3), (glyphs[2].x1, glyphs[2].y1));
    assert_eq!(reverse, forward);
}

#[test]
fn selection_outside_the_last_glyph_uses_the_same_endpoint_for_text_and_quads() {
    let glyphs = [glyph('A', 10.0, 0), glyph('B', 20.0, 1)];
    let start = (11.0, 5.0);
    let outside = (200.0, 200.0);

    assert_eq!(text(&glyphs, start, outside), "A\nB");
    assert_eq!(
        selected_quads(&glyphs, start, outside),
        glyphs.iter().map(|b| outline(&[*b])).collect::<Vec<_>>()
    );
}

#[test]
fn display_quads_merge_adjacent_glyphs_on_the_same_line() {
    let glyphs = [glyph('A', 0.0, 0), glyph('B', 10.0, 0), glyph('C', 20.0, 0)];

    let quads = selected_quads(&glyphs, (1.0, 5.0), (27.0, 5.0));

    assert_eq!(bands(&glyphs), vec![(0, 3)]);
    assert_eq!(quads.len(), 1);
    assert_eq!((quads[0].0, quads[0].1), (glyphs[0].x0, glyphs[0].y0));
    assert_eq!((quads[0].2, quads[0].3), (glyphs[2].x1, glyphs[2].y1));
}

#[test]
fn selection_quads_split_a_large_same_line_gap() {
    let glyphs = [glyph('A', 0.0, 0), glyph('B', 40.0, 0), glyph('C', 50.0, 0)];

    let quads = selected_quads(&glyphs, (1.0, 5.0), (57.0, 5.0));

    assert_eq!(quads.len(), 2);
    assert_eq!(quads[0], outline(&glyphs[..1]));
    assert_eq!((quads[1].0, quads[1].1), (glyphs[1].x0, glyphs[1].y0));
    assert_eq!((quads[1].2, quads[1].3), (glyphs[2].x1, glyphs[2].y1));
}

#[test]
fn display_quads_keep_separate_line_bands() {
    let glyphs = [
        glyph('A', 0.0, 0),
        glyph('B', 10.0, 0),
        glyph('C', 0.0, 1),
        glyph('D', 10.0, 1),
    ];

    let quads = selected_quads(&glyphs, (1.0, 5.0), (17.0, 25.0));

    assert_eq!(quads.len(), 2);
    assert_eq!((quads[0].0, quads[0].1), (glyphs[0].x0, glyphs[0].y0));
    assert_eq!((quads[0].2, quads[0].3), (glyphs[1].x1, glyphs[1].y1));
    assert_eq!((quads[1].0, quads[1].1), (glyphs[2].x0, glyphs[2].y0));
    assert_eq!((quads[1].2, quads[1].3), (glyphs[3].x1, glyphs[3].y1));
}

#[test]
fn vertical_selection_quads_merge_adjacent_glyphs() {
    let glyphs = [
        boxed('縦', 0, 10.0, 20.0, 20.0, 30.0),
        boxed('書', 0, 10.0, 32.0, 20.0, 42.0),
    ];

    let quads = selected_quads(&glyphs, (15.0, 21.0), (15.0, 41.0));

    assert_eq!(quads, vec![outline(&glyphs)]);
}

#[test]
fn wide_space_does_not_bridge_non_space_glyphs() {
    let glyphs = [
        glyph('A', 0.0, 0),
        boxed(' ', 0, 8.0, 0.0, 108.0, 10.0),
        glyph('B', 108.0, 0),
    ];

    let quads = outlines(&glyphs);

    assert_eq!(quads.len(), 2);
    assert_eq!(quads[0], (0.0, 0.0, 8.0, 10.0));
    assert_eq!(quads[1], (108.0, 0.0, 116.0, 10.0));
}

#[test]
fn normal_word_space_stays_in_one_band() {
    let glyphs = [
        glyph('A', 0.0, 0),
        boxed(' ', 0, 8.0, 0.0, 14.0, 10.0),
        glyph('B', 16.0, 0),
    ];

    assert_eq!(bands(&glyphs).len(), 1);
}

#[test]
fn whitespace_only_selection_remains_a_valid_band() {
    let glyphs = [
        boxed(' ', 0, 0.0, 0.0, 8.0, 10.0),
        boxed('\u{3000}', 0, 8.0, 0.0, 16.0, 10.0),
    ];

    assert_eq!(bands(&glyphs).len(), 1);
}

#[test]
fn letters_face_each_other_across_white_space() {
    let glyphs: Vec<Glyph> = " a \u{3000}b "
        .chars()
        .map(|character| Glyph {
            character,
            line_index: 0,
        })
        .collect();
    let facing: Vec<_> = (0..6).map(|index| facing_letters(&glyphs, index)).collect();
    assert_eq!(
        facing,
        vec![None, None, Some((1, 4)), Some((1, 4)), Some((1, 4)), None]
    );
}

#[test]
fn a_change_of_direction_ends_a_band() {
    let glyphs = [
        glyph('A', 0.0, 0),
        glyph('B', 10.0, 0),
        boxed('C', 0, 10.0, 12.0, 18.0, 22.0),
    ];

    assert_eq!(bands(&glyphs), vec![(0, 2), (2, 3)]);
    assert!(merge_line_bands(&vec![], &vec![]).is_empty());
}

#[test]
fn a_selection_holds_the_points_of_its_page_that_its_quads_hold() {
    assert!(selection_contains_point(2, 2, &vec![false, true]));
    assert!(!selection_contains_point(2, 2, &vec![false]));
    assert!(!selection_contains_point(2, 3, &vec![true]));
}

fn annotation(xref: i32, hit: bool) -> AnnotationHit {
    AnnotationHit {
        id: AnnotationId {
            page_index: 2,
            xref,
        },
        quads_hit: vec![false, hit],
    }
}

#[test]
fn hit_test_keeps_every_overlapping_candidate() {
    let annotations = vec![annotation(10, true), annotation(15, false), annotation(20, true)];

    let hits = annotations_at_point(&annotations);

    assert_eq!(hits.len(), 2);
    assert_eq!(hits[0].xref, 10);
    assert_eq!(hits[1].xref, 20);
    assert_eq!(
        decide_annotation_candidates(&hits),
        AnnotationCandidateDecision::Choose
    );
}

#[test]
fn candidate_policy_distinguishes_zero_one_and_many() {
    let id = annotation(10, true).id;

    assert_eq!(
        decide_annotation_candidates(&vec![]),
        AnnotationCandidateDecision::Nothing
    );
    assert_eq!(
        decide_annotation_candidates(&vec![id]),
        AnnotationCandidateDecision::Open(id)
    );
    assert_eq!(
        decide_annotation_candidates(&vec![id, id]),
        AnnotationCandidateDecision::Choose
    );
}
