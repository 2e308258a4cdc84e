use vstd::prelude::*;

use crate::actions::{PlayerAction, spec_decode_action};
use crate::strategy::{BlackjackStrategy, HardHandRow, PairRow, RowModel, SoftHandRow, TablesModel};

verus! {

/// Which of the three tables a lookup addresses.
#[derive(Clone, Copy, PartialEq, Eq, Structural, Debug)]
pub enum HandCategory {
    Hard,
    Soft,
    Pair,
}

/// Why a lookup failed. Lookups never panic: every data gap is reported as
/// one of these.
#[derive(Clone, Copy, PartialEq, Eq, Structural, Debug)]
pub enum LookupError {
    /// The hand total lies outside the category's valid range.
    InvalidTotal,
    /// The dealer upcard lies outside two through eleven.
    InvalidUpcard,
    /// No row of the table carries the requested total.
    NoRowForTotal,
    /// The row does not carry an action at the upcard's index.
    MissingOrInvalidAction,
    /// The action code at the index is not in the recognized vocabulary.
    UnknownActionCode,
}

/// The valid totals of each category: hard 5 through 21, soft 13 through 21,
/// pairs 2 through 11.
pub open spec fn spec_total_valid(category: HandCategory, total: u8) -> bool {
    match category {
        HandCategory::Hard => 5 <= total <= 21,
        HandCategory::Soft => 13 <= total <= 21,
        HandCategory::Pair => 2 <= total <= 11,
    }
}

/// Column of a dealer upcard: upcards two through ten sit at indices zero
/// through eight, the ace (eleven) at index nine.
pub open spec fn spec_upcard_index(upcard: u8) -> int {
    if upcard == 11 {
        9
    } else {
        upcard - 2
    }
}

/// The first row carrying the requested value, in table order.
pub open spec fn spec_find_row(rows: Seq<RowModel>, total: u8) -> Option<RowModel>
    decreases rows.len(),
{
    if rows.len() == 0 {
        None
    } else if rows[0].value == total {
        Some(rows[0])
    } else {
        spec_find_row(rows.drop_first(), total)
    }
}

/// The rows a category addresses.
pub open spec fn spec_category_rows(tables: TablesModel, category: HandCategory) -> Seq<RowModel> {
    match category {
        HandCategory::Hard => tables.hard,
        HandCategory::Soft => tables.soft,
        HandCategory::Pair => tables.pairs,
    }
}

/// The recommended action for a hand against a dealer upcard, or the exact
/// reason none can be given: range checks first, then the row scan, then the
/// column read, then the code decode.
pub open spec fn spec_resolve(
    tables: TablesModel,
    category: HandCategory,
    total: u8,
    upcard: u8,
) -> Result<PlayerAction, LookupError> {
    if !spec_total_valid(category, total) {
        Err(LookupError::InvalidTotal)
    } else if !(2 <= upcard <= 11) {
        Err(LookupError::InvalidUpcard)
    } else {
        match spec_find_row(spec_category_rows(tables, category), total) {
            None => Err(LookupError::NoRowForTotal),
            Some(row) => {
                if row.actions.len() <= spec_upcard_index(upcard) {
                    Err(LookupError::MissingOrInvalidAction)
                } else {
                    match spec_decode_action(row.actions[spec_upcard_index(upcard)]) {
                        Some(a) => Ok(a),
                        None => Err(LookupError::UnknownActionCode),
                    }
                }
            },
        }
    }
}

proof fn lemma_find_row_at(rows: Seq<RowModel>, total: u8, i: int)
    requires
        0 <= i < rows.len(),
        rows[i].value == total,
        forall|k: int| 0 <= k < i ==> rows[k].value != total,
    ensures
        spec_find_row(rows, total) == Some(rows[i]),
    decreases i,
{
    if i > 0 {
        lemma_find_row_at(rows.drop_first(), total, i - 1);
    }
}

proof fn lemma_find_row_none(rows: Seq<RowModel>, total: u8)
    requires
        forall|k: int| 0 <= k < rows.len() ==> rows[k].value != total,
    ensures
        spec_find_row(rows, total) is None,
    decreases rows.len(),
{
    if rows.len() > 0 {
        lemma_find_row_none(rows.drop_first(), total);
    }
}

fn find_hard_row<'a>(rows: &'a Vec<HardHandRow>, total: u8) -> (r: Option<&'a HardHandRow>)
    ensures
        match r {
            Some(row) => spec_find_row(
                Seq::new(rows@.len(), |i: int| rows@[i].model()),
                total,
            ) == Some(row.model()),
            None => spec_find_row(Seq::new(rows@.len(), |i: int| rows@[i].model()), total) is None,
        },
{
    let ghost models = Seq::new(rows@.len(), |i: int| rows@[i].model());
    let mut i: usize = 0;
    while i < rows.len()
        invariant
            i <= rows@.len(),
            models == Seq::new(rows@.len(), |j: int| rows@[j].model()),
            forall|k: int| 0 <= k < i ==> models[k].value != total,
        decreases rows@.len() - i,
    {
        if rows[i].total == total {
            proof {
                lemma_find_row_at(models, total, i as int);
            }
            return Some(&rows[i]);
        }
        i += 1;
    }
    proof {
        lemma_find_row_none(models, total);
    }
    None
}

fn find_soft_row<'a>(rows: &'a Vec<SoftHandRow>, total: u8) -> (r: Option<&'a SoftHandRow>)
    ensures
        match r {
            Some(row) => spec_find_row(
                Seq::new(rows@.len(), |i: int| rows@[i].model()),
                total,
            ) == Some(row.model()),
            None => spec_find_row(Seq::new(rows@.len(), |i: int| rows@[i].model()), total) is None,
        },
{
    let ghost models = Seq::new(rows@.len(), |i: int| rows@[i].model());
    let mut i: usize = 0;
    while i < rows.len()
        invariant
            i <= rows@.len(),
            models == Seq::new(rows@.len(), |j: int| rows@[j].model()),
            forall|k: int| 0 <= k < i ==> models[k].value != total,
        decreases rows@.len() - i,
    {
        if rows[i].total == total {
            proof {
                lemma_find_row_at(models, total, i as int);
            }
            return Some(&rows[i]);
        }
        i += 1;
    }
    proof {
        lemma_find_row_none(models, total);
    }
    None
}

fn find_pair_row<'a>(rows: &'a Vec<PairRow>, pair: u8) -> (r: Option<&'a PairRow>)
    ensures
        match r {
            Some(row) => spec_find_row(Seq::new(rows@.len(), |i: int| rows@[i].model()), pair)
                == Some(row.model()),
            None => spec_find_row(Seq::new(rows@.len(), |i: int| rows@[i].model()), pair) is None,
        },
{
    let ghost models = Seq::new(rows@.len(), |i: int| rows@[i].model());
    let mut i: usize = 0;
    while i < rows.len()
        invariant
            i <= rows@.len(),
            models == Seq::new(rows@.len(), |j: int| rows@[j].model()),
            forall|k: int| 0 <= k < i ==> models[k].value != pair,
        decreases rows@.len() - i,
    {
        if rows[i].pair == pair {
            proof {
                lemma_find_row_at(models, pair, i as int);
            }
            return Some(&rows[i]);
        }
        i += 1;
    }
    proof {
        lemma_find_row_none(models, pair);
    }
    None
}

fn action_at(actions: &Vec<String>, idx: usize) -> (r: Result<PlayerAction, LookupError>)
    ensures
        r == (if actions.deep_view().len() <= idx {
            Err::<PlayerAction, LookupError>(LookupError::MissingOrInvalidAction)
        } else {
            match spec_decode_action(actions.deep_view()[idx as int]) {
                Some(a) => Ok::<PlayerAction, LookupError>(a),
                None => Err::<PlayerAction, LookupError>(LookupError::UnknownActionCode),
            }
        }),
{
    if idx >= actions.len() {
        return Err(LookupError::MissingOrInvalidAction);
    }
    match PlayerAction::from_code(actions[idx].as_str()) {
        Some(a) => Ok(a),
        None => Err(LookupError::UnknownActionCode),
    }
}

/// Resolves the recommended action from a strategy document, a hand
/// category, a hand total and a dealer upcard. Purely a function of its
/// inputs; every failure is a typed [`LookupError`].
pub fn resolve(
    document: &BlackjackStrategy,
    category: HandCategory,
    total: u8,
    dealer_upcard: u8,
) -> (r: Result<PlayerAction, LookupError>)
    ensures
        r == spec_resolve(document.tables.model(), category, total, dealer_upcard),
{
    let valid_total = match category {
        HandCategory::Hard => 5 <= total && total <= 21,
        HandCategory::Soft => 13 <= total && total <= 21,
        HandCategory::Pair => 2 <= total && total <= 11,
    };
    if !valid_total {
        return Err(LookupError::InvalidTotal);
    }
    if !(2 <= dealer_upcard && dealer_upcard <= 11) {
        return Err(LookupError::InvalidUpcard);
    }
    let idx: usize = if dealer_upcard == 11 {
        9
    } else {
        (dealer_upcard - 2) as usize
    };
    match category {
        HandCategory::Hard => {
            match find_hard_row(&document.tables.hard_hands, total) {
                None => Err(LookupError::NoRowForTotal),
                Some(row) => action_at(&row.actions, idx),
            }
        },
        HandCategory::Soft => {
            match find_soft_row(&document.tables.soft_hands, total) {
                None => Err(LookupError::NoRowForTotal),
                Some(row) => action_at(&row.actions, idx),
            }
        },
        HandCategory::Pair => {
            match find_pair_row(&document.tables.pair_hands, total) {
                None => Err(LookupError::NoRowForTotal),
                Some(row) => action_at(&row.actions, idx),
            }
        },
    }
}

/// Law: for a valid lookup that finds a full row, the result is the decoded
/// code at column `upcard - 2` for upcards two through ten, and at column
/// nine for the ace.
pub proof fn lemma_resolve_reads_upcard_column(
    tables: TablesModel,
    category: HandCategory,
    total: u8,
    upcard: u8,
)
    requires
        spec_total_valid(category, total),
        2 <= upcard <= 11,
        spec_find_row(spec_category_rows(tables, category), total) is Some,
        spec_find_row(spec_category_rows(tables, category), total)->0.actions.len() == 10,
    ensures
        2 <= upcard <= 10 ==> spec_resolve(tables, category, total, upcard) == (match spec_decode_action(
            spec_find_row(spec_category_rows(tables, category), total)->0.actions[upcard - 2],
        ) {
            Some(a) => Ok::<PlayerAction, LookupError>(a),
            None => Err::<PlayerAction, LookupError>(LookupError::UnknownActionCode),
        }),
        upcard == 11 ==> spec_resolve(tables, category, total, upcard) == (match spec_decode_action(
            spec_find_row(spec_category_rows(tables, category), total)->0.actions[9],
        ) {
            Some(a) => Ok::<PlayerAction, LookupError>(a),
            None => Err::<PlayerAction, LookupError>(LookupError::UnknownActionCode),
        }),
{
}

/// Law: a total outside the category's range resolves to `InvalidTotal`,
/// whatever the tables hold.
pub proof fn lemma_resolve_rejects_invalid_total(
    tables: TablesModel,
    category: HandCategory,
    total: u8,
    upcard: u8,
)
    requires
        !spec_total_valid(category, total),
    ensures
        spec_resolve(tables, category, total, upcard) == Err::<PlayerAction, LookupError>(
            LookupError::InvalidTotal,
        ),
{
}

} // verus!
