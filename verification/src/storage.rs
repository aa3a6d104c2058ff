//! The four task lists as they are stored, and the steps between what the
//! user interface shows and what is stored.
use vstd::prelude::*;

use crate::clock::{
    created_dt_text, format_created_dt, in_stamp_range, is_clock_reading, is_stamp_of, read_clock,
    stamp_at, ClockReading, ClockTime,
};
use crate::text::{is_blank, is_blank_text};

verus! {

/// One task of a quadrant, as it is stored.
#[derive(Debug, Clone, PartialEq, Eq)]
pub struct EisenhowerItem {
    pub checked: bool,
    pub text: String,
    /// The task's position in its list when it was stored.
    pub index: usize,
    /// When the task was created, as an RFC 3339 text.
    pub created_dt: Option<String>,
}

/// The four quadrants of the matrix: do it, plan it, delegate it, delete it.
#[derive(Debug, Clone, PartialEq, Eq)]
pub struct EisenhowerData {
    pub doit_items: Vec<EisenhowerItem>,
    pub plan_items: Vec<EisenhowerItem>,
    pub delegate_items: Vec<EisenhowerItem>,
    pub delete_items: Vec<EisenhowerItem>,
}

/// What a stored file may hold: the current layout, or the earlier one in
/// which each quadrant was a plain list of texts.
#[derive(Debug)]
pub enum EisenhowerDataCompat {
    New(EisenhowerData),
    Old {
        doit_items: Vec<String>,
        plan_items: Vec<String>,
        delegate_items: Vec<String>,
        delete_items: Vec<String>,
    },
}

/// A row of a quadrant as the user interface holds it: its check mark, its
/// text and its creation time.
pub type Entry = (bool, String, Option<String>);

/// The stored items for the rows `entries`, each numbered by its position.
pub open spec fn indexed(entries: Seq<Entry>) -> Seq<EisenhowerItem> {
    Seq::new(
        entries.len(),
        |i: int|
            EisenhowerItem {
                checked: entries[i].0,
                text: entries[i].1,
                index: i as usize,
                created_dt: entries[i].2,
            },
    )
}

/// The stored items for texts of the earlier layout: unchecked, numbered by
/// position, with no creation time.
pub open spec fn legacy_items(texts: Seq<String>) -> Seq<EisenhowerItem> {
    Seq::new(
        texts.len(),
        |i: int| EisenhowerItem { checked: false, text: texts[i], index: i as usize, created_dt: None },
    )
}

/// Every item's number is its position in the list.
pub open spec fn indices_are_positions(items: Seq<EisenhowerItem>) -> bool {
    forall|i: int| 0 <= i < items.len() ==> #[trigger] items[i].index == i
}

/// The first item whose text is `text`, if there is one.
pub open spec fn first_with_text(items: Seq<EisenhowerItem>, text: Seq<char>) -> Option<EisenhowerItem>
    decreases items.len(),
{
    if items.len() == 0 {
        None
    } else if items[0].text@ == text {
        Some(items[0])
    } else {
        first_with_text(items.drop_first(), text)
    }
}

/// The item found for a text is an item of the list whose text is exactly
/// that text, and no item before it has that text; none is found exactly
/// where no item of the list has that text.
pub proof fn lemma_first_with_text_is_first_exact_match(items: Seq<EisenhowerItem>, text: Seq<char>)
    ensures
        first_with_text(items, text) is None <==> forall|j: int|
            0 <= j < items.len() ==> (#[trigger] items[j]).text@ != text,
        first_with_text(items, text) is Some ==> exists|j: int|
            0 <= j < items.len() && #[trigger] items[j] == first_with_text(items, text)->0
                && items[j].text@ == text && forall|i: int|
                0 <= i < j ==> (#[trigger] items[i]).text@ != text,
    decreases items.len(),
{
    if items.len() > 0 {
        let rest = items.drop_first();
        lemma_first_with_text_is_first_exact_match(rest, text);
        if items[0].text@ == text {
            assert(items[0] == first_with_text(items, text)->0);
        } else {
            assert forall|j: int| 1 <= j < items.len() implies #[trigger] items[j] == rest[j - 1] by {}
            if first_with_text(rest, text) is Some {
                let j = choose|j: int|
                    0 <= j < rest.len() && #[trigger] rest[j] == first_with_text(rest, text)->0
                        && rest[j].text@ == text && forall|i: int|
                        0 <= i < j ==> (#[trigger] rest[i]).text@ != text;
                assert(items[j + 1] == rest[j]);
                assert forall|i: int| 0 <= i < j + 1 implies (#[trigger] items[i]).text@ != text by {
                    if i > 0 {
                        assert(items[i] == rest[i - 1]);
                    }
                }
            } else {
                assert forall|j: int| 0 <= j < items.len() implies (#[trigger] items[j]).text@ != text by {
                    if j > 0 {
                        assert(items[j] == rest[j - 1]);
                    }
                }
            }
        }
    }
}

/// The creation time that an earlier save recorded for a task with the
/// text `text`: that of the first such item, where it has one.
pub open spec fn recorded_created_dt(items: Seq<EisenhowerItem>, text: Seq<char>) -> Option<String> {
    match first_with_text(items, text) {
        Some(item) => item.created_dt,
        None => None,
    }
}

/// The mark of row `i`; a row beyond the marks counts as unchecked.
pub open spec fn checked_at(checked: Seq<bool>, i: int) -> bool {
    if 0 <= i < checked.len() {
        checked[i]
    } else {
        false
    }
}

/// The rows among the first `n` whose text is not blank, in order.
pub open spec fn kept_rows(texts: Seq<String>, n: nat) -> Seq<int>
    decreases n,
{
    if n == 0 {
        Seq::empty()
    } else {
        let before = kept_rows(texts, (n - 1) as nat);
        if is_blank(texts[n - 1]@) {
            before
        } else {
            before.push(n - 1)
        }
    }
}

/// The texts of a list of stored items.
pub open spec fn item_texts(items: Seq<EisenhowerItem>) -> Seq<String> {
    items.map_values(|item: EisenhowerItem| item.text)
}

/// The check marks of a list of stored items.
pub open spec fn item_marks(items: Seq<EisenhowerItem>) -> Seq<bool> {
    items.map_values(|item: EisenhowerItem| item.checked)
}

/// The creation-time labels of a list of stored items.
pub open spec fn item_labels(items: Seq<EisenhowerItem>) -> Seq<Seq<char>> {
    items.map_values(|item: EisenhowerItem| created_dt_text(item.created_dt))
}

/// The creation-time labels of a list of rows.
pub open spec fn entry_label_texts(entries: Seq<Entry>) -> Seq<Seq<char>> {
    entries.map_values(|e: Entry| created_dt_text(e.2))
}

fn clone_created_dt(dt: &Option<String>) -> (r: Option<String>)
    ensures
        r == *dt,
{
    match dt {
        Some(s) => Some(s.clone()),
        None => None,
    }
}

/// The stored items for the rows of one quadrant, numbered by position.
pub fn indexed_items(entries: &[Entry]) -> (r: Vec<EisenhowerItem>)
    ensures
        r@ == indexed(entries@),
        indices_are_positions(r@),
{
    let mut r: Vec<EisenhowerItem> = Vec::new();
    let n = entries.len();
    let mut i: usize = 0;
    while i < n
        invariant
            n == entries@.len(),
            i <= n,
            r@ =~= indexed(entries@).take(i as int),
        decreases n - i,
    {
        let e = &entries[i];
        let item = EisenhowerItem {
            checked: e.0,
            text: e.1.clone(),
            index: i,
            created_dt: clone_created_dt(&e.2),
        };
        r.push(item);
        i = i + 1;
    }
    assert(indexed(entries@).take(n as int) =~= indexed(entries@));
    r
}

/// What is stored for the four quadrants' rows: each row becomes an item
/// numbered by its position in its quadrant.
pub fn build_data(
    doit_items: &[Entry],
    plan_items: &[Entry],
    delegate_items: &[Entry],
    delete_items: &[Entry],
) -> (data: EisenhowerData)
    ensures
        data.doit_items@ == indexed(doit_items@),
        data.plan_items@ == indexed(plan_items@),
        data.delegate_items@ == indexed(delegate_items@),
        data.delete_items@ == indexed(delete_items@),
{
    EisenhowerData {
        doit_items: indexed_items(doit_items),
        plan_items: indexed_items(plan_items),
        delegate_items: indexed_items(delegate_items),
        delete_items: indexed_items(delete_items),
    }
}

/// The stored items for a quadrant of the earlier layout.
pub fn items_from_texts(texts: &Vec<String>) -> (r: Vec<EisenhowerItem>)
    ensures
        r@ == legacy_items(texts@),
        indices_are_positions(r@),
{
    let mut r: Vec<EisenhowerItem> = Vec::new();
    let n = texts.len();
    let mut i: usize = 0;
    while i < n
        invariant
            n == texts@.len(),
            i <= n,
            r@ =~= legacy_items(texts@).take(i as int),
        decreases n - i,
    {
        let item = EisenhowerItem {
            checked: false,
            text: texts[i].clone(),
            index: i,
            created_dt: None,
        };
        r.push(item);
        i = i + 1;
    }
    assert(legacy_items(texts@).take(n as int) =~= legacy_items(texts@));
    r
}

impl EisenhowerDataCompat {
    /// The data that a stored file holds, in the current layout.
    pub fn into_data(self) -> (data: EisenhowerData)
        ensures
            match self {
                EisenhowerDataCompat::New(d) => data == d,
                EisenhowerDataCompat::Old { doit_items, plan_items, delegate_items, delete_items } => {
                    &&& data.doit_items@ == legacy_items(doit_items@)
                    &&& data.plan_items@ == legacy_items(plan_items@)
                    &&& data.delegate_items@ == legacy_items(delegate_items@)
                    &&& data.delete_items@ == legacy_items(delete_items@)
                },
            },
    {
        match self {
            EisenhowerDataCompat::New(d) => d,
            EisenhowerDataCompat::Old { doit_items, plan_items, delegate_items, delete_items } => {
                EisenhowerData {
                    doit_items: items_from_texts(&doit_items),
                    plan_items: items_from_texts(&plan_items),
                    delegate_items: items_from_texts(&delegate_items),
                    delete_items: items_from_texts(&delete_items),
                }
            },
        }
    }
}

/// The creation time recorded for the first item whose text is `text`:
/// `None` where there is no such item, `Some` of its (possibly absent)
/// creation time where there is.
pub fn find_existing_created_dt(existing_items: &[EisenhowerItem], text: &String) -> (r: Option<
    Option<String>,
>)
    ensures
        r == match first_with_text(existing_items@, text@) {
            Some(item) => Some(item.created_dt),
            None => None::<Option<String>>,
        },
        r is None <==> forall|j: int|
            0 <= j < existing_items@.len() ==> (#[trigger] existing_items@[j]).text@ != text@,
        r is Some ==> exists|j: int|
            0 <= j < existing_items@.len() && (#[trigger] existing_items@[j]).text@ == text@ && r
                == Some(existing_items@[j].created_dt) && forall|i: int|
                0 <= i < j ==> (#[trigger] existing_items@[i]).text@ != text@,
{
    proof {
        lemma_first_with_text_is_first_exact_match(existing_items@, text@);
    }
    let n = existing_items.len();
    let mut i: usize = 0;
    assert(existing_items@.skip(0) =~= existing_items@);
    while i < n
        invariant
            n == existing_items@.len(),
            i <= n,
            first_with_text(existing_items@, text@) == first_with_text(
                existing_items@.skip(i as int),
                text@,
            ),
            forall|j: int| 0 <= j < i ==> (#[trigger] existing_items@[j]).text@ != text@,
        decreases n - i,
    {
        let item = &existing_items[i];
        if item.text == *text {
            let r = Some(clone_created_dt(&item.created_dt));
            assert(existing_items@[i as int].text@ == text@ && r == Some(
                existing_items@[i as int].created_dt,
            ));
            return r;
        }
        assert(existing_items@.skip(i as int).drop_first() =~= existing_items@.skip(i + 1));
        i = i + 1;
    }
    None
}

/// The creation time that a stored row gets: the one recorded for its text,
/// where there is one, and otherwise the stamp of the clock reading `now`.
pub open spec fn row_time_ok(dt: Option<String>, recorded: Option<String>, now: ClockReading) -> bool {
    if recorded is Some {
        dt == recorded
    } else {
        is_stamp_of(dt, now)
    }
}

/// `r` is what is stored of a quadrant whose screen shows the texts `texts`
/// and the marks `checked`, when `existing` is the quadrant as it was stored
/// before and the clock reads `now`: the rows whose text is not blank, in
/// order, each with its mark (unchecked where the marks end before the
/// texts), its text and its creation time.
pub open spec fn collected(
    texts: Seq<String>,
    checked: Seq<bool>,
    existing: Seq<EisenhowerItem>,
    now: ClockReading,
    r: Seq<Entry>,
) -> bool {
    let rows = kept_rows(texts, texts.len());
    &&& r.len() == rows.len()
    &&& forall|k: int|
        #![trigger r[k]]
        0 <= k < r.len() ==> {
            let row = rows[k];
            &&& 0 <= row < texts.len()
            &&& r[k].0 == checked_at(checked, row)
            &&& r[k].1 == texts[row]
            &&& !is_blank(r[k].1@)
            &&& row_time_ok(r[k].2, recorded_created_dt(existing, texts[row]@), now)
        }
}

/// The rows of one quadrant that are to be stored: the rows whose text is
/// not blank, in order, each with its check mark (unchecked where the marks
/// end before the texts) and a creation time. The creation time is the one
/// that `existing_items`, the quadrant as it was stored before, records for
/// the first item with the same text; where it records none, it is the
/// clock reading `now` written as by `stamp_at` ("YYYY-MM-DDThh:mm:ssZ" in
/// UTC for the years 0 to 9999).
pub fn collect_entries(
    texts: &Vec<String>,
    checked: &Vec<bool>,
    existing_items: &[EisenhowerItem],
    now: &ClockReading,
) -> (r: Vec<Entry>)
    ensures
        collected(texts@, checked@, existing_items@, *now, r@),
{
    let stamp = stamp_at(now);
    let mut r: Vec<Entry> = Vec::new();
    let n = texts.len();
    let mut i: usize = 0;
    while i < n
        invariant
            n == texts@.len(),
            i <= n,
            is_stamp_of(stamp, *now),
            r@.len() == kept_rows(texts@, i as nat).len(),
            forall|j: int|
                0 <= j < kept_rows(texts@, i as nat).len() ==> 0 <= #[trigger] kept_rows(
                    texts@,
                    i as nat,
                )[j] < i,
            forall|k: int|
                #![trigger r@[k]]
                0 <= k < r@.len() ==> {
                    let row = kept_rows(texts@, i as nat)[k];
                    &&& r@[k].0 == checked_at(checked@, row)
                    &&& r@[k].1 == texts@[row]
                    &&& !is_blank(r@[k].1@)
                    &&& row_time_ok(
                        r@[k].2,
                        recorded_created_dt(existing_items@, texts@[row]@),
                        *now,
                    )
                },
        decreases n - i,
    {
        let text = &texts[i];
        if !is_blank_text(text.as_str()) {
            let mark = if i < checked.len() {
                checked[i]
            } else {
                false
            };
            let created_dt = match find_existing_created_dt(existing_items, text) {
                Some(Some(dt)) => Some(dt),
                _ => clone_created_dt(&stamp),
            };
            r.push((mark, text.clone(), created_dt));
        }
        i = i + 1;
    }
    r
}

/// The rows of one quadrant that are to be stored, as by `collect_entries`,
/// with the clock read once for all of them; the reading that the clock
/// gave is returned too, and every new row is stamped with it.
pub fn collect_entries_now(texts: &Vec<String>, checked: &Vec<bool>, existing_items: &[EisenhowerItem]) -> (r: (
    Vec<Entry>,
    ClockTime,
))
    ensures
        is_clock_reading(r.1.taken()),
        collected(texts@, checked@, existing_items@, r.1.taken(), r.0@),
{
    let now = read_clock();
    let reading = now.reading();
    (collect_entries(texts, checked, existing_items, &reading), now)
}

/// The creation-time labels of the rows of one quadrant.
pub fn entry_labels(entries: &[Entry]) -> (r: Vec<String>)
    ensures
        r@.map_values(|s: String| s@) == entry_label_texts(entries@),
{
    let mut r: Vec<String> = Vec::new();
    let n = entries.len();
    let mut i: usize = 0;
    while i < n
        invariant
            n == entries@.len(),
            i <= n,
            r@.map_values(|s: String| s@) =~= entry_label_texts(entries@).take(i as int),
        decreases n - i,
    {
        let label = format_created_dt(&entries[i].2);
        let ghost before = r@;
        r.push(label);
        assert(r@.map_values(|s: String| s@) =~= before.map_values(|s: String| s@).push(label@));
        i = i + 1;
    }
    assert(entry_label_texts(entries@).take(n as int) =~= entry_label_texts(entries@));
    r
}

/// What the user interface shows of a stored quadrant: its texts, its
/// check marks and its creation-time labels.
pub fn item_columns(items: &[EisenhowerItem]) -> (r: (Vec<String>, Vec<bool>, Vec<String>))
    ensures
        r.0@ == item_texts(items@),
        r.1@ == item_marks(items@),
        r.2@.map_values(|s: String| s@) == item_labels(items@),
{
    let mut texts: Vec<String> = Vec::new();
    let mut marks: Vec<bool> = Vec::new();
    let mut labels: Vec<String> = Vec::new();
    let n = items.len();
    let mut i: usize = 0;
    while i < n
        invariant
            n == items@.len(),
            i <= n,
            texts@ =~= item_texts(items@).take(i as int),
            marks@ =~= item_marks(items@).take(i as int),
            labels@.map_values(|s: String| s@) =~= item_labels(items@).take(i as int),
        decreases n - i,
    {
        let item = &items[i];
        texts.push(item.text.clone());
        marks.push(item.checked);
        let label = format_created_dt(&item.created_dt);
        let ghost before = labels@;
        labels.push(label);
        assert(labels@.map_values(|s: String| s@) =~= before.map_values(|s: String| s@).push(
            label@,
        ));
        i = i + 1;
    }
    assert(item_texts(items@).take(n as int) =~= item_texts(items@));
    assert(item_marks(items@).take(n as int) =~= item_marks(items@));
    assert(item_labels(items@).take(n as int) =~= item_labels(items@));
    (texts, marks, labels)
}

/// What is stored for a quadrant's rows reads back as those rows: the same
/// texts, the same check marks, the same creation-time labels, each item
/// numbered by its position.
pub proof fn lemma_stored_rows_read_back(entries: Seq<Entry>)
    requires
        entries.len() <= usize::MAX,
    ensures
        item_texts(indexed(entries)) == entries.map_values(|e: Entry| e.1),
        item_marks(indexed(entries)) == entries.map_values(|e: Entry| e.0),
        item_labels(indexed(entries)) == entry_label_texts(entries),
        indices_are_positions(indexed(entries)),
{
    assert(item_texts(indexed(entries)) =~= entries.map_values(|e: Entry| e.1));
    assert(item_marks(indexed(entries)) =~= entries.map_values(|e: Entry| e.0));
    assert(item_labels(indexed(entries)) =~= entry_label_texts(entries));
}

/// A quadrant of the earlier layout reads back with the same texts, all
/// unchecked, without creation times, each item numbered by its position.
pub proof fn lemma_legacy_reads_back(texts: Seq<String>)
    requires
        texts.len() <= usize::MAX,
    ensures
        item_texts(legacy_items(texts)) == texts,
        item_marks(legacy_items(texts)) == Seq::new(texts.len(), |i: int| false),
        item_labels(legacy_items(texts)) == Seq::new(texts.len(), |i: int| Seq::<char>::empty()),
        indices_are_positions(legacy_items(texts)),
{
    assert(item_texts(legacy_items(texts)) =~= texts);
    assert(item_marks(legacy_items(texts)) =~= Seq::new(texts.len(), |i: int| false));
    assert(item_labels(legacy_items(texts)) =~= Seq::new(
        texts.len(),
        |i: int| Seq::<char>::empty(),
    ));
}

/// Saving the rows just loaded keeps each task's creation time: the task
/// found for an item's text is the item itself, where no earlier item of the
/// list has the same text.
pub proof fn lemma_reload_keeps_created_dt(items: Seq<EisenhowerItem>, i: int)
    requires
        0 <= i < items.len(),
        forall|j: int| 0 <= j < i ==> #[trigger] items[j].text@ != items[i].text@,
    ensures
        recorded_created_dt(items, items[i].text@) == items[i].created_dt,
    decreases i,
{
    if i > 0 {
        let rest = items.drop_first();
        assert(items[0].text@ != items[i].text@);
        assert(rest[i - 1] == items[i]);
        assert forall|j: int| 0 <= j < i - 1 implies #[trigger] rest[j].text@ != rest[i - 1].text@ by {
            assert(rest[j] == items[j + 1]);
        }
        lemma_reload_keeps_created_dt(rest, i - 1);
    }
}

proof fn lemma_kept_rows_shape(texts: Seq<String>, n: nat)
    requires
        n <= texts.len(),
    ensures
        forall|j: int|
            0 <= j < kept_rows(texts, n).len() ==> 0 <= #[trigger] kept_rows(texts, n)[j] < n
                && !is_blank(texts[kept_rows(texts, n)[j]]@),
        forall|a: int, b: int|
            0 <= a < b < kept_rows(texts, n).len() ==> #[trigger] kept_rows(texts, n)[a]
                < #[trigger] kept_rows(texts, n)[b],
    decreases n,
{
    if n > 0 {
        let before = kept_rows(texts, (n - 1) as nat);
        lemma_kept_rows_shape(texts, (n - 1) as nat);
        if !is_blank(texts[n - 1]@) {
            let now = before.push(n - 1);
            assert(kept_rows(texts, n) == now);
            assert forall|j: int| 0 <= j < now.len() implies 0 <= #[trigger] now[j] < n && !is_blank(
                texts[now[j]]@,
            ) by {
                if j < before.len() {
                    assert(now[j] == before[j]);
                }
            }
            assert forall|a: int, b: int| 0 <= a < b < now.len() implies #[trigger] now[a]
                < #[trigger] now[b] by {
                assert(now[a] == before[a]);
                if b < before.len() {
                    assert(now[b] == before[b]);
                }
            }
        }
    }
}

proof fn lemma_kept_rows_all(texts: Seq<String>, n: nat)
    requires
        n <= texts.len(),
        forall|i: int| 0 <= i < texts.len() ==> !is_blank(#[trigger] texts[i]@),
    ensures
        kept_rows(texts, n) == Seq::new(n, |i: int| i),
    decreases n,
{
    if n > 0 {
        lemma_kept_rows_all(texts, (n - 1) as nat);
        assert(!is_blank(texts[n - 1]@));
        assert(kept_rows(texts, n) =~= Seq::new(n, |i: int| i));
    } else {
        assert(kept_rows(texts, n) =~= Seq::new(n, |i: int| i));
    }
}

/// When the clock reads a time between the years 0 and 9999, every stored
/// row has a creation time.
pub proof fn lemma_saved_times_present(
    texts: Seq<String>,
    checked: Seq<bool>,
    existing: Seq<EisenhowerItem>,
    now: ClockReading,
    r: Seq<Entry>,
)
    requires
        collected(texts, checked, existing, now, r),
        in_stamp_range(now),
    ensures
        forall|k: int| 0 <= k < r.len() ==> (#[trigger] r[k]).2 is Some,
{
}

/// Showing stored items and saving them again gives back the same items:
/// the same texts, marks and creation times, each numbered by its
/// position, where the items' texts are distinct and not blank, each has a
/// creation time, and each was numbered by its position.
pub proof fn lemma_load_then_save(items: Seq<EisenhowerItem>, now: ClockReading, r: Seq<Entry>)
    requires
        items.len() <= usize::MAX,
        indices_are_positions(items),
        forall|i: int|
            0 <= i < items.len() ==> !is_blank((#[trigger] items[i]).text@) && items[i].created_dt is Some,
        forall|i: int, j: int|
            #![trigger items[i], items[j]]
            0 <= i < j < items.len() ==> items[i].text@ != items[j].text@,
        collected(item_texts(items), item_marks(items), items, now, r),
    ensures
        indexed(r) == items,
{
    let texts = item_texts(items);
    assert forall|i: int| 0 <= i < texts.len() implies !is_blank(#[trigger] texts[i]@) by {
        assert(texts[i] == items[i].text);
    }
    lemma_kept_rows_all(texts, texts.len());
    assert forall|k: int| 0 <= k < items.len() implies #[trigger] indexed(r)[k] == items[k] by {
        assert(kept_rows(texts, texts.len())[k] == k);
        assert(r[k].1 == items[k].text);
        assert forall|j: int| 0 <= j < k implies #[trigger] items[j].text@ != items[k].text@ by {
            assert(items[j].text@ != items[k].text@);
        }
        lemma_reload_keeps_created_dt(items, k);
        assert(items[k].index == k);
    }
    assert(indexed(r) =~= items);
}

/// Saving twice in a row, with the screen unchanged, stores the same rows:
/// every creation time of the second save is taken from the first, and no
/// new time is used, where the non-blank texts are distinct and the clock
/// read a time between the years 0 and 9999 at the first save.
pub proof fn lemma_save_twice(
    texts: Seq<String>,
    checked: Seq<bool>,
    existing: Seq<EisenhowerItem>,
    now1: ClockReading,
    r1: Seq<Entry>,
    now2: ClockReading,
    r2: Seq<Entry>,
)
    requires
        forall|i: int, j: int|
            #![trigger texts[i], texts[j]]
            0 <= i < j < texts.len() && !is_blank(texts[i]@) && !is_blank(texts[j]@)
                ==> texts[i]@ != texts[j]@,
        r1.len() <= usize::MAX,
        in_stamp_range(now1),
        collected(texts, checked, existing, now1, r1),
        collected(texts, checked, indexed(r1), now2, r2),
    ensures
        r2 == r1,
{
    let rows = kept_rows(texts, texts.len());
    lemma_kept_rows_shape(texts, texts.len());
    let stored = indexed(r1);
    assert forall|k: int| 0 <= k < r1.len() implies #[trigger] r2[k] == r1[k] by {
        assert(r1[k].2 is Some);
        assert forall|j: int| 0 <= j < k implies #[trigger] stored[j].text@ != stored[k].text@ by {
            assert(rows[j] < rows[k]);
            assert(stored[j].text == texts[rows[j]]);
            assert(stored[k].text == texts[rows[k]]);
            assert(texts[rows[j]]@ != texts[rows[k]]@);
        }
        lemma_reload_keeps_created_dt(stored, k);
        assert(stored[k].text == texts[rows[k]]);
    }
    assert(r2 =~= r1);
}

} // verus!
