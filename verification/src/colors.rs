//! The colors that annotations were given last.
use crate::session::{colors_error, same_color, MAX_RECENT_ANNOTATION_COLORS};
use vstd::prelude::*;

verus! {

/// The colors other than one, in their order.
pub open spec fn others(colors: Seq<[u8; 3]>, color: [u8; 3]) -> Seq<[u8; 3]>
    decreases colors.len(),
{
    if colors.len() == 0 {
        seq![]
    } else {
        let before = others(colors.drop_last(), color);
        if colors.last()@ == color@ {
            before
        } else {
            before.push(colors.last())
        }
    }
}

/// The colors once one was used: it comes first, and the oldest ones are forgotten.
pub open spec fn remembered(colors: Seq<[u8; 3]>, color: [u8; 3]) -> Seq<[u8; 3]> {
    let all = seq![color] + others(colors, color);
    if all.len() > MAX_RECENT_ANNOTATION_COLORS {
        all.take(MAX_RECENT_ANNOTATION_COLORS as int)
    } else {
        all
    }
}

/// Notes that a color was used.
pub fn remember_color(colors: &mut Vec<[u8; 3]>, color: [u8; 3])
    ensures
        final(colors)@ == remembered(old(colors)@, color),
{
    let ghost before = colors@;
    let mut all: Vec<[u8; 3]> = Vec::new();
    all.push(color);
    assert(all@ =~= seq![color] + others(before.take(0), color));
    let mut i: usize = 0;
    while i < colors.len()
        invariant
            i <= colors.len(),
            colors@ == before,
            all@ == seq![color] + others(before.take(i as int), color),
        decreases colors.len() - i,
    {
        assert(before.take(i as int + 1).drop_last() =~= before.take(i as int));
        let next: [u8; 3] = colors[i];
        if !same_color(&next, &color) {
            all.push(next);
        }
        assert(all@ =~= seq![color] + others(before.take(i as int + 1), color));
        i += 1;
    }
    assert(before.take(i as int) =~= before);
    if all.len() > MAX_RECENT_ANNOTATION_COLORS {
        all.truncate(MAX_RECENT_ANNOTATION_COLORS);
        assert(all@ =~= remembered(before, color));
    }
    *colors = all;
}

proof fn others_are_distinct(colors: Seq<[u8; 3]>, color: [u8; 3])
    requires
        forall|a: int, b: int|
            #![trigger colors[a], colors[b]]
            0 <= a < b < colors.len() ==> colors[a]@ != colors[b]@,
    ensures
        forall|k: int|
            0 <= k < others(colors, color).len() ==> (#[trigger] others(colors, color)[k])@
                != color@ && colors.contains(others(colors, color)[k]),
        forall|a: int, b: int|
            #![trigger others(colors, color)[a], others(colors, color)[b]]
            0 <= a < b < others(colors, color).len() ==> others(colors, color)[a]@ != others(
                colors,
                color,
            )[b]@,
    decreases colors.len(),
{
    if colors.len() > 0 {
        let rest = colors.drop_last();
        let before = others(rest, color);
        others_are_distinct(rest, color);
        assert forall|k: int| 0 <= k < before.len() implies {
            &&& colors.contains(#[trigger] before[k])
            &&& before[k]@ != colors.last()@
        } by {
            let j = choose|j: int| 0 <= j < rest.len() && rest[j] == before[k];
            assert(colors[j] == before[k]);
            assert(colors[j]@ != colors[colors.len() - 1]@);
        }
        assert(colors.contains(colors.last()));
    }
}

/// Colors that can be kept can still be kept once another one was used, and that one is first.
pub proof fn remembered_colors_can_be_kept(colors: Seq<[u8; 3]>, color: [u8; 3])
    requires
        colors_error(colors) is None,
    ensures
        colors_error(remembered(colors, color)) is None,
        remembered(colors, color)[0] == color,
{
    others_are_distinct(colors, color);
    let all = seq![color] + others(colors, color);
    assert forall|a: int, b: int|
        #![trigger all[a], all[b]]
        0 <= a < b < all.len() implies all[a]@ != all[b]@ by {
        assert(all[b] == others(colors, color)[b - 1]);
        if a > 0 {
            assert(all[a] == others(colors, color)[a - 1]);
        }
    }
    let kept = remembered(colors, color);
    assert forall|a: int, b: int|
        #![trigger kept[a], kept[b]]
        0 <= a < b < kept.len() implies kept[a]@ != kept[b]@ by {
        assert(kept[a] == all[a] && kept[b] == all[b]);
    }
}

/// Without a color that is not among them, all colors are left; without one that is, all others,
/// in their order.
proof fn others_leave_one_out(colors: Seq<[u8; 3]>, color: [u8; 3], at: int)
    requires
        forall|a: int, b: int|
            #![trigger colors[a], colors[b]]
            0 <= a < b < colors.len() ==> colors[a]@ != colors[b]@,
    ensures
        (forall|k: int| 0 <= k < colors.len() ==> (#[trigger] colors[k])@ != color@) ==> others(
            colors,
            color,
        ) == colors,
        0 <= at < colors.len() && colors[at]@ == color@ ==> others(colors, color) == colors.remove(
            at,
        ),
    decreases colors.len(),
{
    if colors.len() > 0 {
        let front = colors.drop_last();
        let last = colors.len() - 1;
        others_leave_one_out(front, color, at);
        assert forall|k: int| 0 <= k < front.len() implies #[trigger] front[k] == colors[k] by {}
        assert(front.push(colors.last()) =~= colors);
        if 0 <= at < colors.len() && colors[at]@ == color@ {
            if at < last {
                assert(colors[at]@ != colors[last]@);
                assert(front.remove(at).push(colors.last()) =~= colors.remove(at));
            } else {
                assert forall|k: int| 0 <= k < front.len() implies (#[trigger] front[k])@
                    != color@ by {
                    assert(colors[k]@ != colors[last]@);
                }
                assert(front =~= colors.remove(at));
            }
        }
    }
}

/// A color that is used moves to the front, and the others keep their order. One that was not
/// among the five pushes the last of them out.
pub proof fn a_used_color_moves_to_the_front(colors: Seq<[u8; 3]>, color: [u8; 3], at: int)
    requires
        colors_error(colors) is None,
    ensures
        0 <= at < colors.len() && colors[at]@ == color@ ==> remembered(colors, color) == seq![
            color,
        ] + colors.remove(at),
        (forall|k: int| 0 <= k < colors.len() ==> (#[trigger] colors[k])@ != color@)
            && colors.len() < 5 ==> remembered(colors, color) == seq![color] + colors,
        (forall|k: int| 0 <= k < colors.len() ==> (#[trigger] colors[k])@ != color@)
            && colors.len() == 5 ==> remembered(colors, color) == seq![color] + colors.take(4),
        remembered(colors, color).len() <= 5,
{
    others_leave_one_out(colors, color, at);
    let all = seq![color] + others(colors, color);
    if forall|k: int| 0 <= k < colors.len() ==> (#[trigger] colors[k])@ != color@ {
        if colors.len() == 5 {
            assert(all.take(5) =~= seq![color] + colors.take(4));
        }
    }
}

} // verus!
