//! The edits that a quadrant's task list undergoes: each list is held as
//! its texts and, beside them, its check marks.
use vstd::prelude::*;

use crate::text::{is_blank, is_blank_text, trim, trim_text};

verus! {

/// The texts of a list of strings, as character sequences.
pub open spec fn texts_of(rows: Seq<String>) -> Seq<Seq<char>> {
    rows.map_values(|s: String| s@)
}

/// Whether a row number given by the user interface names a row of a list
/// of `len` rows.
pub open spec fn is_row(index: int, len: nat) -> bool {
    0 <= index < len
}

/// `flags` with the mark at `index` flipped, when `index` names a row.
pub open spec fn toggled(flags: Seq<bool>, index: int) -> Seq<bool> {
    if is_row(index, flags.len()) {
        flags.update(index, !flags[index])
    } else {
        flags
    }
}

/// `texts` with the row at `index` replaced by the trimmed `text`, when
/// `index` names a row and `text` is not blank.
pub open spec fn updated(texts: Seq<Seq<char>>, index: int, text: Seq<char>) -> Seq<Seq<char>> {
    if is_row(index, texts.len()) && !is_blank(text) {
        texts.update(index, trim(text))
    } else {
        texts
    }
}

/// `rows` without the row at `index`, when `index` names a row.
pub open spec fn removed<T>(rows: Seq<T>, index: int) -> Seq<T> {
    if is_row(index, rows.len()) {
        rows.remove(index)
    } else {
        rows
    }
}

/// Appends a new, unchecked task with the text `text`. The result says
/// whether the lists are to be saved: only when the text is not blank.
pub fn add_item_to_list(items: &mut Vec<String>, checked: &mut Vec<bool>, text: String) -> (should_save: bool)
    ensures
        final(items)@ == old(items)@.push(text),
        final(checked)@ == old(checked)@.push(false),
        should_save == !is_blank(text@),
{
    let should_save = !is_blank_text(text.as_str());
    items.push(text);
    checked.push(false);
    should_save
}

/// Flips the check mark of row `index`. The result says whether anything
/// changed, that is whether `index` names a row; the lists are saved then.
pub fn toggle_checked(checked: &mut Vec<bool>, index: i32) -> (changed: bool)
    ensures
        changed == is_row(index as int, old(checked)@.len()),
        final(checked)@ == toggled(old(checked)@, index as int),
        final(checked)@.len() == old(checked)@.len(),
        changed ==> final(checked)@[index as int] == !old(checked)@[index as int],
        forall|j: int|
            0 <= j < old(checked)@.len() && j != index ==> #[trigger] final(checked)@[j] == old(
                checked,
            )@[j],
{
    if index >= 0 && (index as usize) < checked.len() {
        let i = index as usize;
        let flag = checked[i];
        checked.set(i, !flag);
        true
    } else {
        false
    }
}

/// Replaces the text of row `index` by `text` without its surrounding white
/// space. Nothing changes when `index` names no row or `text` is blank; the
/// result says whether the text was replaced, and the lists are saved then.
pub fn update_item(items: &mut Vec<String>, index: i32, text: &str) -> (changed: bool)
    ensures
        changed == (is_row(index as int, old(items)@.len()) && !is_blank(text@)),
        texts_of(final(items)@) == updated(texts_of(old(items)@), index as int, text@),
        changed ==> final(items)@ == old(items)@.update(index as int, final(items)@[index as int]),
        !changed ==> final(items)@ == old(items)@,
{
    if index >= 0 && (index as usize) < items.len() {
        let trimmed = trim_text(text);
        if !trimmed.as_str().is_empty() {
            let i = index as usize;
            let ghost before = items@;
            items.set(i, trimmed);
            proof {
                assert(texts_of(items@) =~= updated(texts_of(before), index as int, text@));
                assert(items@ =~= before.update(index as int, items@[index as int]));
            }
            return true;
        }
    }
    false
}

/// Removes row `index` from the texts and, when the marks reach that far,
/// from the marks. Nothing changes when `index` names no text row; the
/// result says whether a row was removed, and the lists are saved then.
pub fn remove_item(items: &mut Vec<String>, checked: &mut Vec<bool>, index: i32) -> (changed: bool)
    ensures
        changed == is_row(index as int, old(items)@.len()),
        final(items)@ == removed(old(items)@, index as int),
        final(checked)@ == (if changed {
            removed(old(checked)@, index as int)
        } else {
            old(checked)@
        }),
        changed ==> final(items)@.len() == old(items)@.len() - 1,
        changed ==> forall|k: int|
            0 <= k < index ==> #[trigger] final(items)@[k] == old(items)@[k],
        changed ==> forall|k: int|
            index <= k < final(items)@.len() ==> #[trigger] final(items)@[k] == old(items)@[k + 1],
        changed && index < old(checked)@.len() ==> final(checked)@.len() == old(checked)@.len() - 1,
        changed ==> forall|k: int|
            0 <= k < index && k < final(checked)@.len() ==> #[trigger] final(checked)@[k] == old(
                checked,
            )@[k],
        changed && index < old(checked)@.len() ==> forall|k: int|
            index <= k < final(checked)@.len() ==> #[trigger] final(checked)@[k] == old(
                checked,
            )@[k + 1],
        !changed ==> final(items)@ == old(items)@ && final(checked)@ == old(checked)@,
{
    if index >= 0 && (index as usize) < items.len() {
        let idx = index as usize;
        items.remove(idx);
        if idx < checked.len() {
            checked.remove(idx);
        }
        true
    } else {
        false
    }
}

/// Toggling the same row twice gives back the marks one started with.
pub proof fn lemma_toggle_twice(flags: Seq<bool>, index: int)
    ensures
        toggled(toggled(flags, index), index) == flags,
{
    if is_row(index, flags.len()) {
        assert(toggled(toggled(flags, index), index) =~= flags);
    }
}

/// Removing the row that was just added gives back the lists one started
/// with, when the texts and the marks were of one length.
pub proof fn lemma_remove_undoes_add(items: Seq<String>, checked: Seq<bool>, text: String)
    requires
        items.len() == checked.len(),
    ensures
        removed(items.push(text), items.len() as int) == items,
        removed(checked.push(false), items.len() as int) == checked,
{
    assert(items.push(text).remove(items.len() as int) =~= items);
    assert(checked.push(false).remove(items.len() as int) =~= checked);
}

/// After an update that took effect, the row reads back the trimmed text;
/// repeating the same update changes nothing more.
pub proof fn lemma_update_reads_back(texts: Seq<Seq<char>>, index: int, text: Seq<char>)
    requires
        is_row(index, texts.len()),
        !is_blank(text),
    ensures
        updated(texts, index, text)[index] == trim(text),
        updated(updated(texts, index, text), index, text) == updated(texts, index, text),
{
    assert(updated(updated(texts, index, text), index, text) =~= updated(texts, index, text));
}

/// Toggling row `index` of the marks negates the mark of that row and
/// leaves every other mark, and the number of marks, as they were; toggling
/// a row that does not exist changes nothing.
pub proof fn lemma_toggle_flips_one_row(flags: Seq<bool>, index: int)
    ensures
        toggled(flags, index).len() == flags.len(),
        0 <= index < flags.len() ==> toggled(flags, index)[index] == !flags[index],
        forall|j: int|
            0 <= j < flags.len() && j != index ==> #[trigger] toggled(flags, index)[j] == flags[j],
        !(0 <= index < flags.len()) ==> toggled(flags, index) == flags,
{
}

/// Removing row `index` keeps the other rows in their order: the rows
/// before it, followed by the rows after it; removing a row that does not
/// exist changes nothing.
pub proof fn lemma_remove_keeps_order<T>(rows: Seq<T>, index: int)
    ensures
        0 <= index < rows.len() ==> removed(rows, index).len() == rows.len() - 1,
        0 <= index < rows.len() ==> forall|k: int|
            0 <= k < index ==> #[trigger] removed(rows, index)[k] == rows[k],
        0 <= index < rows.len() ==> forall|k: int|
            index <= k < rows.len() - 1 ==> #[trigger] removed(rows, index)[k] == rows[k + 1],
        !(0 <= index < rows.len()) ==> removed(rows, index) == rows,
{
}

} // verus!
