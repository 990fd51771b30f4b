//! Small decisions of the toolbar, the tab bar and the keyboard.
use crate::text::{decimal, decimal_digits, parse_number, trim, trimmed, written_number};
use vstd::prelude::*;

verus! {

/// The width that a page number field is never narrower than, in digits.
pub const PAGE_INPUT_MINIMUM_COLUMNS: usize = 3;

/// The page index for a page number as the user writes it, counted from one.
pub open spec fn page_for_input(input: Seq<char>, page_count: int) -> Option<int> {
    match written_number(trimmed(input)) {
        Some(number) if 1 <= number <= page_count => Some(number - 1),
        _ => None,
    }
}

/// Reads a page number: white space around it does not count, and it must name a page.
pub fn page_index_from_input(input: &str, page_count: usize) -> (res: Option<usize>)
    ensures
        match page_for_input(input@, page_count as int) {
            None => res is None,
            Some(index) => res is Some && res->0 == index,
        },
{
    match parse_number(trim(input)) {
        None => None,
        Some(number) => if number > page_count || number == 0 {
            None
        } else {
            Some(number - 1)
        },
    }
}

/// The width of the page number field: the digits of the last page, at least three.
pub fn page_number_input_columns(page_count: usize) -> (res: usize)
    ensures
        ({
            let digits = decimal(
                if page_count == 0 {
                    1
                } else {
                    page_count as nat
                },
            ).len();
            res == (if digits < PAGE_INPUT_MINIMUM_COLUMNS {
                PAGE_INPUT_MINIMUM_COLUMNS as int
            } else {
                digits as int
            })
        }),
        res >= 3,
{
    let shown: usize = if page_count == 0 {
        1
    } else {
        page_count
    };
    let digits: usize = decimal_digits(shown as u64);
    if digits < PAGE_INPUT_MINIMUM_COLUMNS {
        PAGE_INPUT_MINIMUM_COLUMNS
    } else {
        digits
    }
}

/// The field has the same width for all documents of up to 999 pages, and room for every
/// page number of longer ones.
pub proof fn page_field_fits_every_page(page_count: nat, page: nat)
    requires
        1 <= page <= page_count,
    ensures
        page_count < 1000 ==> decimal(page_count).len() <= 3,
        decimal(page).len() <= decimal(page_count).len(),
{
    if page_count < 1000 {
        reveal_with_fuel(crate::text::ten_to, 4);
        crate::text::decimal_length_is_bounded(page_count, 3);
    }
    decimal_length_is_monotone(page, page_count);
}

proof fn decimal_length_is_monotone(small: nat, large: nat)
    requires
        small <= large,
    ensures
        1 <= decimal(small).len() <= decimal(large).len(),
    decreases large,
{
    if large >= 10 {
        if small >= 10 {
            decimal_length_is_monotone(small / 10, large / 10);
        } else {
            decimal_length_is_monotone(0, large / 10);
        }
    }
}

/// Whether an extension reads `pdf` in any mix of cases.
pub open spec fn is_pdf_extension(extension: Seq<char>) -> bool {
    &&& extension.len() == 3
    &&& extension[0] == 'p' || extension[0] == 'P'
    &&& extension[1] == 'd' || extension[1] == 'D'
    &&& extension[2] == 'f' || extension[2] == 'F'
}

/// Whether a path names a PDF: a file with the extension `pdf`.
pub fn is_pdf_path(is_file: bool, extension: Option<&str>) -> (res: bool)
    ensures
        res == (is_file && extension is Some && is_pdf_extension(extension->0@)),
{
    if !is_file {
        return false;
    }
    match extension {
        None => false,
        Some(text) => {
            if text.unicode_len() != 3 {
                return false;
            }
            let first = text.get_char(0);
            let second = text.get_char(1);
            let third = text.get_char(2);
            (first == 'p' || first == 'P') && (second == 'd' || second == 'D') && (third == 'f'
                || third == 'F')
        },
    }
}

/// What a click on a tab does.
#[derive(Clone, Copy, Debug, PartialEq, Eq, Structural)]
pub enum TabPointerAction {
    Select,
    Close,
}

/// A middle click closes, without selecting first; a primary click selects.
pub fn tab_pointer_action(primary_clicked: bool, middle_clicked: bool) -> (res: Option<
    TabPointerAction,
>)
    ensures
        res == (if middle_clicked {
            Some(TabPointerAction::Close)
        } else if primary_clicked {
            Some(TabPointerAction::Select)
        } else {
            None
        }),
        middle_clicked ==> res == Some(TabPointerAction::Close),
        res is None == (!primary_clicked && !middle_clicked),
{
    if middle_clicked {
        Some(TabPointerAction::Close)
    } else if primary_clicked {
        Some(TabPointerAction::Select)
    } else {
        None
    }
}

/// The tab to scroll into view after a selection: only one that was not selected before.
pub fn tab_reveal_for_selection_change(previous: Option<usize>, selected: usize) -> (res: Option<
    usize,
>)
    ensures
        res == (if previous == Some(selected) {
            None
        } else {
            Some(selected)
        }),
{
    match previous {
        Some(index) if index == selected => None,
        _ => Some(selected),
    }
}

/// The tab to scroll into view after a close: the new selection, if the selected tab was
/// closed.
pub fn tab_reveal_after_close(
    previous: Option<usize>,
    closed: usize,
    current: Option<usize>,
) -> (res: Option<usize>)
    ensures
        res == (if previous == Some(closed) {
            current
        } else {
            None
        }),
{
    match previous {
        Some(index) if index == closed => current,
        _ => None,
    }
}

/// Whether a hidden document that can be suspended stands at `index`.
pub open spec fn suspendable_at(
    visible: Seq<usize>,
    candidates: Seq<(bool, u64)>,
    index: int,
) -> bool {
    &&& 0 <= index < candidates.len()
    &&& candidates[index].0
    &&& !visible.contains(index as usize)
}

/// Chooses the hidden document that can be suspended and was selected longest ago; the
/// first one where several were.
pub fn oldest_suspendable_index(
    visible_indices: &Vec<usize>,
    candidates: &Vec<(bool, u64)>,
) -> (res: Option<usize>)
    ensures
        match res {
            None => forall|i: int| !suspendable_at(visible_indices@, candidates@, i),
            Some(chosen) => {
                &&& suspendable_at(visible_indices@, candidates@, chosen as int)
                &&& forall|i: int| #[trigger]
                    suspendable_at(visible_indices@, candidates@, i) ==> candidates@[chosen as int].1
                        < candidates@[i].1 || candidates@[chosen as int].1 == candidates@[i].1
                        && chosen <= i
            },
        },
{
    let mut best: Option<usize> = None;
    let mut i: usize = 0;
    while i < candidates.len()
        invariant
            i <= candidates.len(),
            match best {
                None => forall|k: int|
                    k < i ==> !suspendable_at(visible_indices@, candidates@, k),
                Some(chosen) => {
                    &&& chosen < i
                    &&& suspendable_at(visible_indices@, candidates@, chosen as int)
                    &&& forall|k: int|
                        k < i && #[trigger] suspendable_at(visible_indices@, candidates@, k)
                            ==> candidates@[chosen as int].1 < candidates@[k].1
                            || candidates@[chosen as int].1 == candidates@[k].1 && chosen <= k
                },
            },
        decreases candidates.len() - i,
    {
        let (suspendable, last_selected) = candidates[i];
        if suspendable && !contains_index(visible_indices, i) {
            assert(suspendable_at(visible_indices@, candidates@, i as int));
            let replace = match best {
                None => true,
                Some(chosen) => last_selected < candidates[chosen].1,
            };
            if replace {
                best = Some(i);
            }
        }
        i += 1;
    }
    best
}

/// Whether a list of indices holds one.
pub fn contains_index(indices: &Vec<usize>, index: usize) -> (res: bool)
    ensures
        res == indices@.contains(index),
{
    let mut i: usize = 0;
    while i < indices.len()
        invariant
            i <= indices.len(),
            forall|k: int| 0 <= k < i ==> indices@[k] != index,
        decreases indices.len() - i,
    {
        if indices[i] == index {
            assert(indices@[i as int] == index);
            return true;
        }
        i += 1;
    }
    false
}

/// The layers of the window, from back to front.
#[derive(Clone, Copy, Debug, PartialEq, Eq, Structural)]
pub enum LayerOrder {
    Background,
    Middle,
    Foreground,
    Tooltip,
    Debug,
}

/// Whether the layer under the pointer keeps input away from the documents: windows and
/// popups do, a tooltip does not.
pub fn foreground_layer_blocks_pane_input(layer: Option<LayerOrder>) -> (res: bool)
    ensures
        res == (layer == Some(LayerOrder::Middle) || layer == Some(LayerOrder::Foreground)),
{
    match layer {
        Some(LayerOrder::Middle) => true,
        Some(LayerOrder::Foreground) => true,
        _ => false,
    }
}

/// An input event, as far as copying goes.
#[derive(Clone, Copy, Debug, PartialEq, Eq, Structural)]
pub enum CopyInput {
    /// The platform asks for a copy.
    Copy,
    /// A key that asks for a copy was released.
    CopyKeyReleased,
    /// Anything else.
    Other,
}

/// A key, as far as copying goes.
#[derive(Clone, Copy, Debug, PartialEq, Eq, Structural)]
pub enum ReleasedKey {
    C,
    Insert,
    Copy,
    Other,
}

/// What the release of a key means for copying: each key that asks for a copy, alone or with a
/// modifier, ends its shortcut.
pub fn copy_input_of_release(key: ReleasedKey) -> (res: CopyInput)
    ensures
        res == if key == ReleasedKey::Other {
            CopyInput::Other
        } else {
            CopyInput::CopyKeyReleased
        },
{
    match key {
        ReleasedKey::C | ReleasedKey::Insert | ReleasedKey::Copy => CopyInput::CopyKeyReleased,
        ReleasedKey::Other => CopyInput::Other,
    }
}

/// Whether the copy shortcut counts as held after the first `count` events.
pub open spec fn held_after(held: bool, events: Seq<CopyInput>, count: int) -> bool
    decreases count,
{
    if count <= 0 {
        held
    } else {
        match events[count - 1] {
            CopyInput::Copy => true,
            CopyInput::CopyKeyReleased => false,
            CopyInput::Other => held_after(held, events, count - 1),
        }
    }
}

/// Whether the event at `index` asks for a copy with a shortcut that was not yet held.
pub open spec fn first_copy_at(held: bool, events: Seq<CopyInput>, index: int) -> bool {
    events[index] is Copy && !held_after(held, events, index)
}

/// What the copy events of a frame lead to.
#[derive(Debug)]
pub struct CopyOutcome {
    /// The selection of the document is copied.
    pub copy_pdf_selection: bool,
    /// For each event, whether it is left for others.
    pub retained: Vec<bool>,
}

/// Takes the copy events of a frame. A focused text field with a selection keeps them; else
/// the document's selection is copied once until the keys are released.
pub fn consume_pdf_copy_event(
    events: &Vec<CopyInput>,
    shortcut_active: &mut bool,
    text_input_owns_copy: bool,
    pdf_selection_available: bool,
) -> (res: CopyOutcome)
    ensures
        *final(shortcut_active) == held_after(
            *old(shortcut_active),
            events@,
            events@.len() as int,
        ),
        res.copy_pdf_selection == (!text_input_owns_copy && pdf_selection_available && exists|
            i: int,
        |
            0 <= i < events@.len() && #[trigger] first_copy_at(*old(shortcut_active), events@, i)),
        res.retained@.len() == events@.len(),
        forall|i: int|
            0 <= i < events@.len() ==> #[trigger] res.retained@[i] == (text_input_owns_copy
                || !(events@[i] is Copy)),
{
    let mut copy_pdf_selection: bool = false;
    let mut retained: Vec<bool> = Vec::new();
    let mut i: usize = 0;
    while i < events.len()
        invariant
            i <= events.len(),
            retained.len() == i,
            *shortcut_active == held_after(*old(shortcut_active), events@, i as int),
            copy_pdf_selection == (!text_input_owns_copy && pdf_selection_available && exists|
                k: int,
            |
                0 <= k < i && #[trigger] first_copy_at(*old(shortcut_active), events@, k)),
            forall|k: int|
                0 <= k < i ==> #[trigger] retained@[k] == (text_input_owns_copy || !(
                events@[k] is Copy)),
        decreases events.len() - i,
    {
        let ghost held = *shortcut_active;
        match events[i] {
            CopyInput::Copy => {
                let first_copy_event = !*shortcut_active;
                *shortcut_active = true;
                if !text_input_owns_copy && first_copy_event && pdf_selection_available {
                    copy_pdf_selection = true;
                    assert(first_copy_at(*old(shortcut_active), events@, i as int));
                }
                retained.push(text_input_owns_copy);
            },
            CopyInput::CopyKeyReleased => {
                *shortcut_active = false;
                retained.push(true);
            },
            CopyInput::Other => {
                retained.push(true);
            },
        }
        i += 1;
    }
    CopyOutcome { copy_pdf_selection, retained }
}

/// A held shortcut copies nothing more until a copy key is released.
pub proof fn a_held_shortcut_copies_once(events: Seq<CopyInput>, index: int)
    requires
        0 <= index < events.len(),
        forall|i: int| 0 <= i < index ==> !((#[trigger] events[i]) is CopyKeyReleased),
    ensures
        !first_copy_at(true, events, index),
    decreases index,
{
    held_until_released(events, index);
}

proof fn held_until_released(events: Seq<CopyInput>, count: int)
    requires
        0 <= count <= events.len(),
        forall|i: int| 0 <= i < count ==> !((#[trigger] events[i]) is CopyKeyReleased),
    ensures
        held_after(true, events, count),
    decreases count,
{
    if count > 0 {
        held_until_released(events, count - 1);
        assert(!(events[count - 1] is CopyKeyReleased));
    }
}

/// How a yes or no that may still be open reads.
pub fn debug_yes_no(value: Option<bool>) -> (res: &'static str)
    ensures
        res@ == (match value {
            Some(true) => "yes"@,
            Some(false) => "no"@,
            None => "pending"@,
        }),
{
    match value {
        Some(true) => "yes",
        Some(false) => "no",
        None => "pending",
    }
}

/// A file is a PDF by its three letters, in whatever case.
pub proof fn pdf_names_end_in_three_letters(extension: Seq<char>)
    ensures
        is_pdf_extension(extension) ==> extension.len() == 3,
        is_pdf_extension(seq!['p', 'd', 'f']),
        is_pdf_extension(seq!['P', 'D', 'F']),
        extension.len() == 3 && extension[0] != 'p' && extension[0] != 'P' ==> !is_pdf_extension(
            extension,
        ),
        extension.len() == 3 && extension[1] != 'd' && extension[1] != 'D' ==> !is_pdf_extension(
            extension,
        ),
        extension.len() == 3 && extension[2] != 'f' && extension[2] != 'F' ==> !is_pdf_extension(
            extension,
        ),
{
}

} // verus!
