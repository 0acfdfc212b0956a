//! Selection vectors: which rows of a batch count.

use vstd::prelude::*;

use crate::entry::{entry_models, ContentTreeNodeEntry, EntryModel};
use crate::error::{DeltaResult, Error, ErrorKind, ErrorModel};
use crate::text::{decimal, unsigned_text};

verus! {

/// Whether row `i` is selected. Rows behind the end of the vector are.
pub open spec fn is_selected(selection: Seq<bool>, i: int) -> bool {
    i >= selection.len() || selection[i]
}

/// The selected ones among the first `n` rows.
pub open spec fn selected_rows<T>(rows: Seq<T>, selection: Seq<bool>, n: int) -> Seq<T>
    decreases n,
{
    if n <= 0 {
        Seq::empty()
    } else if is_selected(selection, n - 1) {
        selected_rows(rows, selection, n - 1).push(rows[n - 1])
    } else {
        selected_rows(rows, selection, n - 1)
    }
}

/// Where every row is selected, all rows are kept.
pub proof fn lemma_all_selected<T>(rows: Seq<T>, selection: Seq<bool>, n: int)
    requires
        0 <= n <= rows.len(),
        forall|i: int| 0 <= i < n ==> #[trigger] is_selected(selection, i),
    ensures
        selected_rows(rows, selection, n) == rows.take(n),
    decreases n,
{
    if n > 0 {
        lemma_all_selected(rows, selection, n - 1);
        assert(is_selected(selection, n - 1));
        assert(rows.take(n) =~= rows.take(n - 1).push(rows[n - 1]));
    } else {
        assert(rows.take(0) =~= Seq::empty());
    }
}

/// No more rows are selected than there are.
pub proof fn lemma_selected_len<T>(rows: Seq<T>, selection: Seq<bool>, n: int)
    requires
        0 <= n,
    ensures
        selected_rows(rows, selection, n).len() <= n,
    decreases n,
{
    if n > 0 {
        lemma_selected_len(rows, selection, n - 1);
    }
}

/// The error for a selection vector that is longer than its batch.
pub open spec fn selection_too_long(selection: int, rows: int) -> ErrorModel {
    ErrorModel {
        kind: ErrorKind::InvalidSelectionVector,
        message: "Selection vector is larger than data length: "@ + decimal(selection) + " > "@
            + decimal(rows),
    }
}

/// What is left of a batch after its selection vector was applied.
pub open spec fn selection_applied(rows: Seq<EntryModel>, selection: Seq<bool>) -> Result<
    Seq<EntryModel>,
    ErrorModel,
> {
    if selection.len() > rows.len() {
        Err(selection_too_long(selection.len() as int, rows.len() as int))
    } else {
        Ok(selected_rows(rows, selection, rows.len() as int))
    }
}

/// Keeps the selected rows of a batch. What a selection vector has behind the last row is of no
/// account.
pub fn select_rows(
    rows: Vec<ContentTreeNodeEntry>,
    selection: &Vec<bool>,
) -> (kept: Vec<ContentTreeNodeEntry>)
    ensures
        entry_models(kept@) == selected_rows(
            entry_models(rows@),
            selection@,
            rows@.len() as int,
        ),
{
    let ghost models = entry_models(rows@);
    let count: usize = rows.len();
    let mut kept: Vec<ContentTreeNodeEntry> = Vec::new();
    let mut i: usize = 0;
    assert(entry_models(kept@) =~= Seq::empty());
    for row in iter: rows
        invariant
            entry_models(iter.seq()) == models,
            i == iter.index(),
            count == models.len(),
            entry_models(kept@) == selected_rows(models, selection@, i as int),
    {
        assert(models[i as int] == row@);
        let ghost so_far = kept@;
        if i >= selection.len() || selection[i] {
            kept.push(row);
            assert(entry_models(kept@) =~= entry_models(so_far).push(row@));
        }
        i += 1;
    }
    kept
}

/// Keeps the selected rows of a batch. A selection vector that is longer than the batch is
/// refused.
pub fn apply_selection_vector(
    rows: Vec<ContentTreeNodeEntry>,
    selection: &Vec<bool>,
) -> (kept: DeltaResult<Vec<ContentTreeNodeEntry>>)
    ensures
        match kept {
            Ok(k) => selection_applied(entry_models(rows@), selection@) == Ok::<
                Seq<EntryModel>,
                ErrorModel,
            >(entry_models(k@)),
            Err(e) => selection_applied(entry_models(rows@), selection@) == Err::<
                Seq<EntryModel>,
                ErrorModel,
            >(e@),
        },
{
    if selection.len() > rows.len() {
        let mut message = "Selection vector is larger than data length: ".to_owned();
        message.append(unsigned_text(selection.len() as u64).as_str());
        message.append(" > ");
        message.append(unsigned_text(rows.len() as u64).as_str());
        return Err(Error::new(ErrorKind::InvalidSelectionVector, message));
    }
    Ok(select_rows(rows, selection))
}

} // verus!
