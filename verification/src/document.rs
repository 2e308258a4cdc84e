use vstd::prelude::*;

use crate::ids::{spec_id_bytes, spec_id_is_nil, spec_valid_id_text, StrategyId};
use crate::json::{json_view, parse_json, spec_parse_json, JsonModel, JsonValue};
use crate::strategy::{
    spec_surrender_of_text, BlackjackStrategy, HardHandRow, PairRow, RowModel, SoftHandRow,
    StrategyTables, StrategyVariables, SurrenderRule, TablesModel,
};
use crate::text::str_eq;

verus! {

/// The parts of the document schema an error can point at.
#[derive(Clone, Copy, PartialEq, Eq, Structural, Debug)]
pub enum SchemaField {
    Id,
    Name,
    Description,
    Rules,
    Decks,
    DealerStandsOnSoft17,
    DoubleAfterSplit,
    DealerPeak,
    SurrenderAllowed,
    Tables,
    HardHands,
    SoftHands,
    PairHands,
    ActionLegend,
}

/// Why a source text is not a strategy document.
#[derive(Clone, Copy, PartialEq, Eq, Structural, Debug)]
pub enum ParseError {
    /// The text is not well-formed structured data.
    Syntax,
    /// The top level is not an object.
    NotAnObject,
    /// A required field is missing or has the wrong shape; rows must carry
    /// exactly ten action codes.
    BadField(SchemaField),
    /// The surrender rule string is none of the three recognized literals.
    UnknownSurrenderRule,
}

/// The models of the values of a parsed array.
pub open spec fn arr_models(items: Seq<JsonValue>) -> Seq<JsonModel> {
    Seq::new(items.len(), |k: int| json_view(items[k]))
}

/// The models of the members of a parsed object.
pub open spec fn obj_models(fields: Seq<(String, JsonValue)>) -> Seq<(Seq<char>, JsonModel)> {
    Seq::new(fields.len(), |k: int| (fields[k].0@, json_view(fields[k].1)))
}

pub proof fn lemma_arr_view(items: Vec<JsonValue>)
    ensures
        json_view(JsonValue::Arr(items)) == JsonModel::Arr(arr_models(items@)),
{
    assert(json_view(JsonValue::Arr(items))->Arr_0 =~= arr_models(items@));
}

pub proof fn lemma_obj_view(fields: Vec<(String, JsonValue)>)
    ensures
        json_view(JsonValue::Obj(fields)) == JsonModel::Obj(obj_models(fields@)),
{
    assert(json_view(JsonValue::Obj(fields))->Obj_0 =~= obj_models(fields@));
}

/// The value of the first member carrying the key, in member order.
pub open spec fn spec_obj_get(fields: Seq<(Seq<char>, JsonModel)>, key: Seq<char>) -> Option<
    JsonModel,
>
    decreases fields.len(),
{
    if fields.len() == 0 {
        None
    } else if fields[0].0 == key {
        Some(fields[0].1)
    } else {
        spec_obj_get(fields.drop_first(), key)
    }
}

/// A required string member.
pub open spec fn spec_req_string(
    fields: Seq<(Seq<char>, JsonModel)>,
    key: Seq<char>,
    err: SchemaField,
) -> Result<Seq<char>, ParseError> {
    match spec_obj_get(fields, key) {
        Some(JsonModel::Str(s)) => Ok(s),
        _ => Err(ParseError::BadField(err)),
    }
}

/// A required boolean member.
pub open spec fn spec_req_bool(
    fields: Seq<(Seq<char>, JsonModel)>,
    key: Seq<char>,
    err: SchemaField,
) -> Result<bool, ParseError> {
    match spec_obj_get(fields, key) {
        Some(JsonModel::Bool(b)) => Ok(b),
        _ => Err(ParseError::BadField(err)),
    }
}

/// A required byte-sized integer member.
pub open spec fn spec_req_u8(
    fields: Seq<(Seq<char>, JsonModel)>,
    key: Seq<char>,
    err: SchemaField,
) -> Result<u8, ParseError> {
    match spec_obj_get(fields, key) {
        Some(JsonModel::Int(n)) => if 0 <= n <= 255 {
            Ok(n as u8)
        } else {
            Err(ParseError::BadField(err))
        },
        _ => Err(ParseError::BadField(err)),
    }
}

/// The identifier a document asks for: absent or nil means a fresh one is
/// to be generated; anything else must be one of the recognized text forms.
pub open spec fn spec_id_from_json(fields: Seq<(Seq<char>, JsonModel)>) -> Result<
    Option<Seq<u8>>,
    ParseError,
> {
    match spec_obj_get(fields, "id"@) {
        None => Ok(None),
        Some(JsonModel::Str(s)) => if spec_valid_id_text(s) {
            if spec_id_is_nil(spec_id_bytes(s)) {
                Ok(None)
            } else {
                Ok(Some(spec_id_bytes(s)))
            }
        } else {
            Err(ParseError::BadField(SchemaField::Id))
        },
        Some(_) => Err(ParseError::BadField(SchemaField::Id)),
    }
}

/// The rule toggles of the `rules` member.
pub open spec fn spec_rules_from_json(m: JsonModel) -> Result<StrategyVariables, ParseError> {
    if !(m is Obj) {
        Err(ParseError::BadField(SchemaField::Rules))
    } else {
        let f = m->Obj_0;
        match spec_req_u8(f, "decks"@, SchemaField::Decks) {
            Err(e) => Err(e),
            Ok(decks) => match spec_req_bool(
                f,
                "dealer_stands_on_soft_17"@,
                SchemaField::DealerStandsOnSoft17,
            ) {
                Err(e) => Err(e),
                Ok(s17) => match spec_req_bool(
                    f,
                    "double_after_split"@,
                    SchemaField::DoubleAfterSplit,
                ) {
                    Err(e) => Err(e),
                    Ok(das) => match spec_req_bool(f, "dealer_peak"@, SchemaField::DealerPeak) {
                        Err(e) => Err(e),
                        Ok(peak) => match spec_req_string(
                            f,
                            "surrender_allowed"@,
                            SchemaField::SurrenderAllowed,
                        ) {
                            Err(e) => Err(e),
                            Ok(s) => match spec_surrender_of_text(s) {
                                Some(rule) => Ok(
                                    StrategyVariables {
                                        decks: decks,
                                        dealer_stands_on_soft_17: s17,
                                        double_after_split: das,
                                        dealer_peak: peak,
                                        surrender_allowed: rule,
                                    },
                                ),
                                None => Err(ParseError::UnknownSurrenderRule),
                            },
                        },
                    },
                },
            },
        }
    }
}

/// One table row: the hand value under the given key and exactly ten
/// action-code strings.
pub open spec fn spec_row_from_json(m: JsonModel, key: Seq<char>, err: SchemaField) -> Result<
    RowModel,
    ParseError,
> {
    if !(m is Obj) {
        Err(ParseError::BadField(err))
    } else {
        let f = m->Obj_0;
        match spec_req_u8(f, key, err) {
            Err(e) => Err(e),
            Ok(value) => match spec_obj_get(f, "actions"@) {
                Some(JsonModel::Arr(items)) => if items.len() == 10 && (forall|k: int|
                    0 <= k < items.len() ==> items[k] is Str) {
                    Ok(
                        RowModel {
                            value: value,
                            actions: Seq::new(items.len(), |k: int| items[k]->Str_0),
                        },
                    )
                } else {
                    Err(ParseError::BadField(err))
                },
                _ => Err(ParseError::BadField(err)),
            },
        }
    }
}

/// A whole table: every entry a well-formed row. Every failure inside a
/// table is reported against that table.
pub open spec fn spec_rows_from_items(
    items: Seq<JsonModel>,
    key: Seq<char>,
    err: SchemaField,
) -> Result<Seq<RowModel>, ParseError> {
    if forall|k: int| 0 <= k < items.len() ==> spec_row_from_json(items[k], key, err) is Ok {
        Ok(Seq::new(items.len(), |k: int| spec_row_from_json(items[k], key, err)->Ok_0))
    } else {
        Err(ParseError::BadField(err))
    }
}

/// A required table member: an array of rows.
pub open spec fn spec_table_from_json(
    fields: Seq<(Seq<char>, JsonModel)>,
    table_key: Seq<char>,
    row_key: Seq<char>,
    err: SchemaField,
) -> Result<Seq<RowModel>, ParseError> {
    match spec_obj_get(fields, table_key) {
        Some(JsonModel::Arr(items)) => spec_rows_from_items(items, row_key, err),
        _ => Err(ParseError::BadField(err)),
    }
}

/// The three tables of the `tables` member.
pub open spec fn spec_tables_from_json(m: JsonModel) -> Result<TablesModel, ParseError> {
    if !(m is Obj) {
        Err(ParseError::BadField(SchemaField::Tables))
    } else {
        let f = m->Obj_0;
        match spec_table_from_json(f, "hard_hands"@, "total"@, SchemaField::HardHands) {
            Err(e) => Err(e),
            Ok(hard) => match spec_table_from_json(
                f,
                "soft_hands"@,
                "total"@,
                SchemaField::SoftHands,
            ) {
                Err(e) => Err(e),
                Ok(soft) => match spec_table_from_json(
                    f,
                    "pair_hands"@,
                    "pair"@,
                    SchemaField::PairHands,
                ) {
                    Err(e) => Err(e),
                    Ok(pairs) => Ok(TablesModel { hard: hard, soft: soft, pairs: pairs }),
                },
            },
        }
    }
}

/// The action legend: an object whose values are all strings, kept in
/// member order.
pub open spec fn spec_legend_from_json(m: JsonModel) -> Result<
    Seq<(Seq<char>, Seq<char>)>,
    ParseError,
> {
    if m is Obj && (forall|k: int| 0 <= k < m->Obj_0.len() ==> #[trigger] m->Obj_0[k].1 is Str) {
        Ok(Seq::new(m->Obj_0.len(), |k: int| (m->Obj_0[k].0, m->Obj_0[k].1->Str_0)))
    } else {
        Err(ParseError::BadField(SchemaField::ActionLegend))
    }
}

/// A document as read from a source, before an identifier is generated:
/// `id` of `None` asks for a fresh one.
#[verifier::ext_equal]
pub ghost struct ParsedDoc {
    pub id: Option<Seq<u8>>,
    pub name: Seq<char>,
    pub description: Seq<char>,
    pub rules: StrategyVariables,
    pub tables: TablesModel,
    pub legend: Seq<(Seq<char>, Seq<char>)>,
}

/// The document a parsed value denotes, or the first reason it denotes
/// none: identifier, name, description, rules, tables, then legend.
pub open spec fn spec_doc_from_json(m: JsonModel) -> Result<ParsedDoc, ParseError> {
    if !(m is Obj) {
        Err(ParseError::NotAnObject)
    } else {
        let f = m->Obj_0;
        match spec_id_from_json(f) {
            Err(e) => Err(e),
            Ok(id) => match spec_req_string(f, "name"@, SchemaField::Name) {
                Err(e) => Err(e),
                Ok(name) => match spec_req_string(f, "description"@, SchemaField::Description) {
                    Err(e) => Err(e),
                    Ok(description) => match spec_obj_get(f, "rules"@) {
                        None => Err(ParseError::BadField(SchemaField::Rules)),
                        Some(rules_m) => match spec_rules_from_json(rules_m) {
                            Err(e) => Err(e),
                            Ok(rules) => match spec_obj_get(f, "tables"@) {
                                None => Err(ParseError::BadField(SchemaField::Tables)),
                                Some(tables_m) => match spec_tables_from_json(tables_m) {
                                    Err(e) => Err(e),
                                    Ok(tables) => match spec_obj_get(f, "action_legend"@) {
                                        None => Err(
                                            ParseError::BadField(SchemaField::ActionLegend),
                                        ),
                                        Some(legend_m) => match spec_legend_from_json(legend_m) {
                                            Err(e) => Err(e),
                                            Ok(legend) => Ok(
                                                ParsedDoc {
                                                    id: id,
                                                    name: name,
                                                    description: description,
                                                    rules: rules,
                                                    tables: tables,
                                                    legend: legend,
                                                },
                                            ),
                                        },
                                    },
                                },
                            },
                        },
                    },
                },
            },
        }
    }
}

/// The document a whole source text denotes, or why it denotes none.
pub open spec fn spec_from_json(text: Seq<char>) -> Result<ParsedDoc, ParseError> {
    match spec_parse_json(text) {
        None => Err(ParseError::Syntax),
        Some(m) => spec_doc_from_json(m),
    }
}

proof fn lemma_obj_get_at(fields: Seq<(Seq<char>, JsonModel)>, key: Seq<char>, i: int)
    requires
        0 <= i < fields.len(),
        fields[i].0 == key,
        forall|k: int| 0 <= k < i ==> fields[k].0 != key,
    ensures
        spec_obj_get(fields, key) == Some(fields[i].1),
    decreases i,
{
    if i > 0 {
        lemma_obj_get_at(fields.drop_first(), key, i - 1);
    }
}

proof fn lemma_obj_get_none(fields: Seq<(Seq<char>, JsonModel)>, key: Seq<char>)
    requires
        forall|k: int| 0 <= k < fields.len() ==> fields[k].0 != key,
    ensures
        spec_obj_get(fields, key) is None,
    decreases fields.len(),
{
    if fields.len() > 0 {
        lemma_obj_get_none(fields.drop_first(), key);
    }
}

fn obj_get<'a>(fields: &'a Vec<(String, JsonValue)>, key: &str) -> (r: Option<&'a JsonValue>)
    ensures
        (match r {
            Some(v) => spec_obj_get(obj_models(fields@), key@) == Some(json_view(*v)),
            None => spec_obj_get(obj_models(fields@), key@) is None,
        }),
{
    let mut i: usize = 0;
    while i < fields.len()
        invariant
            i <= fields@.len(),
            forall|k: int| 0 <= k < i ==> obj_models(fields@)[k].0 != key@,
        decreases fields@.len() - i,
    {
        if str_eq(fields[i].0.as_str(), key) {
            proof {
                lemma_obj_get_at(obj_models(fields@), key@, i as int);
            }
            return Some(&fields[i].1);
        }
        i += 1;
    }
    proof {
        lemma_obj_get_none(obj_models(fields@), key@);
    }
    None
}

fn get_string(fields: &Vec<(String, JsonValue)>, key: &str, err: SchemaField) -> (r: Result<
    String,
    ParseError,
>)
    ensures
        (match (r, spec_req_string(obj_models(fields@), key@, err)) {
            (Ok(s), Ok(ss)) => s@ == ss,
            (Err(e), Err(se)) => e == se,
            _ => false,
        }),
{
    match obj_get(fields, key) {
        Some(v) => match v {
            JsonValue::Str(s) => Ok(s.clone()),
            _ => Err(ParseError::BadField(err)),
        },
        None => Err(ParseError::BadField(err)),
    }
}

fn get_bool(fields: &Vec<(String, JsonValue)>, key: &str, err: SchemaField) -> (r: Result<
    bool,
    ParseError,
>)
    ensures
        (match (r, spec_req_bool(obj_models(fields@), key@, err)) {
            (Ok(b), Ok(sb)) => b == sb,
            (Err(e), Err(se)) => e == se,
            _ => false,
        }),
{
    match obj_get(fields, key) {
        Some(v) => match v {
            JsonValue::Bool(b) => Ok(*b),
            _ => Err(ParseError::BadField(err)),
        },
        None => Err(ParseError::BadField(err)),
    }
}

fn get_u8(fields: &Vec<(String, JsonValue)>, key: &str, err: SchemaField) -> (r: Result<
    u8,
    ParseError,
>)
    ensures
        (match (r, spec_req_u8(obj_models(fields@), key@, err)) {
            (Ok(n), Ok(sn)) => n == sn,
            (Err(e), Err(se)) => e == se,
            _ => false,
        }),
{
    match obj_get(fields, key) {
        Some(v) => match v {
            JsonValue::Int(n) => {
                if 0 <= *n && *n <= 255 {
                    Ok(*n as u8)
                } else {
                    Err(ParseError::BadField(err))
                }
            },
            _ => Err(ParseError::BadField(err)),
        },
        None => Err(ParseError::BadField(err)),
    }
}

fn id_from_json(fields: &Vec<(String, JsonValue)>) -> (r: Result<StrategyId, ParseError>)
    ensures
        (match (r, spec_id_from_json(obj_models(fields@))) {
            (Ok(id), Ok(spec_id)) => id.wf() && (match spec_id {
                Some(b) => id@ == b,
                None => !spec_id_is_nil(id@),
            }),
            (Err(e), Err(se)) => e == se,
            _ => false,
        }),
{
    match obj_get(fields, "id") {
        None => Ok(StrategyId::fresh()),
        Some(v) => match v {
            JsonValue::Str(s) => match StrategyId::parse(s.as_str()) {
                Some(id) => {
                    if id.is_nil() {
                        Ok(StrategyId::fresh())
                    } else {
                        Ok(id)
                    }
                },
                None => Err(ParseError::BadField(SchemaField::Id)),
            },
            _ => Err(ParseError::BadField(SchemaField::Id)),
        },
    }
}

fn rules_from_json(v: &JsonValue) -> (r: Result<StrategyVariables, ParseError>)
    ensures
        (match (r, spec_rules_from_json(json_view(*v))) {
            (Ok(rules), Ok(sr)) => rules == sr,
            (Err(e), Err(se)) => e == se,
            _ => false,
        }),
{
    let fields = match v {
        JsonValue::Obj(f) => f,
        _ => {
            return Err(ParseError::BadField(SchemaField::Rules));
        },
    };
    proof {
        assert(*v == JsonValue::Obj(*fields));
        lemma_obj_view(*fields);
    }
    let decks = match get_u8(fields, "decks", SchemaField::Decks) {
        Ok(n) => n,
        Err(e) => {
            return Err(e);
        },
    };
    let s17 = match get_bool(fields, "dealer_stands_on_soft_17", SchemaField::DealerStandsOnSoft17)
        {
        Ok(b) => b,
        Err(e) => {
            return Err(e);
        },
    };
    let das = match get_bool(fields, "double_after_split", SchemaField::DoubleAfterSplit) {
        Ok(b) => b,
        Err(e) => {
            return Err(e);
        },
    };
    let peak = match get_bool(fields, "dealer_peak", SchemaField::DealerPeak) {
        Ok(b) => b,
        Err(e) => {
            return Err(e);
        },
    };
    let surrender_text = match get_string(fields, "surrender_allowed", SchemaField::SurrenderAllowed)
        {
        Ok(s) => s,
        Err(e) => {
            return Err(e);
        },
    };
    let surrender = match SurrenderRule::from_string(surrender_text.as_str()) {
        Ok(rule) => rule,
        Err(_) => {
            return Err(ParseError::UnknownSurrenderRule);
        },
    };
    Ok(
        StrategyVariables {
            decks: decks,
            dealer_stands_on_soft_17: s17,
            double_after_split: das,
            dealer_peak: peak,
            surrender_allowed: surrender,
        },
    )
}

proof fn lemma_row_err(m: JsonModel, key: Seq<char>, err: SchemaField)
    ensures
        spec_row_from_json(m, key, err) matches Err(e) ==> e == ParseError::BadField(err),
{
}

#[verifier::loop_isolation(false)]
fn row_from_json(v: &JsonValue, key: &str, err: SchemaField) -> (r: Result<
    (u8, Vec<String>),
    ParseError,
>)
    ensures
        (match (r, spec_row_from_json(json_view(*v), key@, err)) {
            (Ok((value, actions)), Ok(rm)) => rm.value == value && rm.actions
                == actions.deep_view(),
            (Err(e), Err(se)) => e == se,
            _ => false,
        }),
{
    let fields = match v {
        JsonValue::Obj(f) => f,
        _ => {
            return Err(ParseError::BadField(err));
        },
    };
    proof {
        assert(*v == JsonValue::Obj(*fields));
        lemma_obj_view(*fields);
    }
    let value = match get_u8(fields, key, err) {
        Ok(n) => n,
        Err(e) => {
            return Err(e);
        },
    };
    let av = match obj_get(fields, "actions") {
        Some(a) => a,
        None => {
            return Err(ParseError::BadField(err));
        },
    };
    let items = match av {
        JsonValue::Arr(it) => it,
        _ => {
            return Err(ParseError::BadField(err));
        },
    };
    proof {
        assert(*av == JsonValue::Arr(*items));
        lemma_arr_view(*items);
    }
    if items.len() != 10 {
        return Err(ParseError::BadField(err));
    }
    let mut actions: Vec<String> = Vec::new();
    let mut k: usize = 0;
    while k < items.len()
        invariant
            k <= items@.len(),
            actions@.len() == k,
            forall|t: int|
                0 <= t < k ==> (#[trigger] arr_models(items@)[t]) is Str && actions@[t]@
                    == arr_models(items@)[t]->Str_0,
        decreases items@.len() - k,
    {
        proof {
        assert(arr_models(items@)[k as int] == json_view(items@[k as int]));
        }
        match &items[k] {
            JsonValue::Str(s) => {
                actions.push(s.clone());
            },
            _ => {
                proof {
                    assert(!(json_view(*av)->Arr_0[k as int] is Str));
                }
                return Err(ParseError::BadField(err));
            },
        }
        k += 1;
    }
    proof {
        match spec_row_from_json(json_view(*v), key@, err) {
            Ok(rm) => {
                assert(rm.actions =~= actions.deep_view());
            },
            _ => {},
        }
    }
    Ok((value, actions))
}

/// Law: a well-formed row carries exactly ten action codes, so every table
/// that loads successfully meets the ten-column convention.
pub proof fn lemma_loaded_rows_have_ten_actions(items: Seq<JsonModel>, key: Seq<char>, err: SchemaField)
    ensures
        spec_rows_from_items(items, key, err) matches Ok(rs) ==> forall|k: int|
            0 <= k < rs.len() ==> #[trigger] rs[k].actions.len() == 10,
{
}

#[verifier::loop_isolation(false)]
fn hard_table_from_json(v: &JsonValue) -> (r: Result<Vec<HardHandRow>, ParseError>)
    ensures
        (match (r, (if json_view(*v) is Arr {
            spec_rows_from_items(json_view(*v)->Arr_0, "total"@, SchemaField::HardHands)
        } else {
            Err(ParseError::BadField(SchemaField::HardHands))
        })) {
            (Ok(rows), Ok(ms)) => Seq::new(rows@.len(), |i: int| rows@[i].model()) == ms,
            (Err(e), Err(se)) => e == se,
            _ => false,
        }),
{
    let items = match v {
        JsonValue::Arr(it) => it,
        _ => {
            return Err(ParseError::BadField(SchemaField::HardHands));
        },
    };
    proof {
        assert(*v == JsonValue::Arr(*items));
        lemma_arr_view(*items);
    }
    let mut rows: Vec<HardHandRow> = Vec::new();
    let mut k: usize = 0;
    while k < items.len()
        invariant
            k <= items@.len(),
            rows@.len() == k,
            forall|t: int|
                0 <= t < k ==> (#[trigger] spec_row_from_json(
                    arr_models(items@)[t],
                    "total"@,
                    SchemaField::HardHands,
                )) is Ok && rows@[t].model() == spec_row_from_json(
                    arr_models(items@)[t],
                    "total"@,
                    SchemaField::HardHands,
                )->Ok_0,
        decreases items@.len() - k,
    {
        proof {
            assert(arr_models(items@)[k as int] == json_view(items@[k as int]));
        }
        match row_from_json(&items[k], "total", SchemaField::HardHands) {
            Ok((total, actions)) => {
                rows.push(HardHandRow { total: total, actions: actions });
            },
            Err(e) => {
                proof {
                    lemma_row_err(arr_models(items@)[k as int], "total"@, SchemaField::HardHands);
                    assert(!(spec_row_from_json(
                        json_view(*v)->Arr_0[k as int],
                        "total"@,
                        SchemaField::HardHands,
                    ) is Ok));
                }
                return Err(e);
            },
        }
        k += 1;
    }
    proof {
        match spec_rows_from_items(arr_models(items@), "total"@, SchemaField::HardHands) {
            Ok(ms) => {
                assert(Seq::new(rows@.len(), |i: int| rows@[i].model()) =~= ms);
            },
            _ => {},
        }
    }
    Ok(rows)
}

#[verifier::loop_isolation(false)]
fn soft_table_from_json(v: &JsonValue) -> (r: Result<Vec<SoftHandRow>, ParseError>)
    ensures
        (match (r, (if json_view(*v) is Arr {
            spec_rows_from_items(json_view(*v)->Arr_0, "total"@, SchemaField::SoftHands)
        } else {
            Err(ParseError::BadField(SchemaField::SoftHands))
        })) {
            (Ok(rows), Ok(ms)) => Seq::new(rows@.len(), |i: int| rows@[i].model()) == ms,
            (Err(e), Err(se)) => e == se,
            _ => false,
        }),
{
    let items = match v {
        JsonValue::Arr(it) => it,
        _ => {
            return Err(ParseError::BadField(SchemaField::SoftHands));
        },
    };
    proof {
        assert(*v == JsonValue::Arr(*items));
        lemma_arr_view(*items);
    }
    let mut rows: Vec<SoftHandRow> = Vec::new();
    let mut k: usize = 0;
    while k < items.len()
        invariant
            k <= items@.len(),
            rows@.len() == k,
            forall|t: int|
                0 <= t < k ==> (#[trigger] spec_row_from_json(
                    arr_models(items@)[t],
                    "total"@,
                    SchemaField::SoftHands,
                )) is Ok && rows@[t].model() == spec_row_from_json(
                    arr_models(items@)[t],
                    "total"@,
                    SchemaField::SoftHands,
                )->Ok_0,
        decreases items@.len() - k,
    {
        proof {
            assert(arr_models(items@)[k as int] == json_view(items@[k as int]));
        }
        match row_from_json(&items[k], "total", SchemaField::SoftHands) {
            Ok((total, actions)) => {
                rows.push(SoftHandRow { total: total, actions: actions });
            },
            Err(e) => {
                proof {
                    lemma_row_err(arr_models(items@)[k as int], "total"@, SchemaField::SoftHands);
                    assert(!(spec_row_from_json(
                        json_view(*v)->Arr_0[k as int],
                        "total"@,
                        SchemaField::SoftHands,
                    ) is Ok));
                }
                return Err(e);
            },
        }
        k += 1;
    }
    proof {
        match spec_rows_from_items(arr_models(items@), "total"@, SchemaField::SoftHands) {
            Ok(ms) => {
                assert(Seq::new(rows@.len(), |i: int| rows@[i].model()) =~= ms);
            },
            _ => {},
        }
    }
    Ok(rows)
}

#[verifier::loop_isolation(false)]
fn pair_table_from_json(v: &JsonValue) -> (r: Result<Vec<PairRow>, ParseError>)
    ensures
        (match (r, (if json_view(*v) is Arr {
            spec_rows_from_items(json_view(*v)->Arr_0, "pair"@, SchemaField::PairHands)
        } else {
            Err(ParseError::BadField(SchemaField::PairHands))
        })) {
            (Ok(rows), Ok(ms)) => Seq::new(rows@.len(), |i: int| rows@[i].model()) == ms,
            (Err(e), Err(se)) => e == se,
            _ => false,
        }),
{
    let items = match v {
        JsonValue::Arr(it) => it,
        _ => {
            return Err(ParseError::BadField(SchemaField::PairHands));
        },
    };
    proof {
        assert(*v == JsonValue::Arr(*items));
        lemma_arr_view(*items);
    }
    let mut rows: Vec<PairRow> = Vec::new();
    let mut k: usize = 0;
    while k < items.len()
        invariant
            k <= items@.len(),
            rows@.len() == k,
            forall|t: int|
                0 <= t < k ==> (#[trigger] spec_row_from_json(
                    arr_models(items@)[t],
                    "pair"@,
                    SchemaField::PairHands,
                )) is Ok && rows@[t].model() == spec_row_from_json(
                    arr_models(items@)[t],
                    "pair"@,
                    SchemaField::PairHands,
                )->Ok_0,
        decreases items@.len() - k,
    {
        proof {
            assert(arr_models(items@)[k as int] == json_view(items@[k as int]));
        }
        match row_from_json(&items[k], "pair", SchemaField::PairHands) {
            Ok((pair, actions)) => {
                rows.push(PairRow { pair: pair, actions: actions });
            },
            Err(e) => {
                proof {
                    lemma_row_err(arr_models(items@)[k as int], "pair"@, SchemaField::PairHands);
                    assert(!(spec_row_from_json(
                        json_view(*v)->Arr_0[k as int],
                        "pair"@,
                        SchemaField::PairHands,
                    ) is Ok));
                }
                return Err(e);
            },
        }
        k += 1;
    }
    proof {
        match spec_rows_from_items(arr_models(items@), "pair"@, SchemaField::PairHands) {
            Ok(ms) => {
                assert(Seq::new(rows@.len(), |i: int| rows@[i].model()) =~= ms);
            },
            _ => {},
        }
    }
    Ok(rows)
}

fn tables_from_json(v: &JsonValue) -> (r: Result<StrategyTables, ParseError>)
    ensures
        (match (r, spec_tables_from_json(json_view(*v))) {
            (Ok(t), Ok(tm)) => t.model() == tm,
            (Err(e), Err(se)) => e == se,
            _ => false,
        }),
{
    let fields = match v {
        JsonValue::Obj(f) => f,
        _ => {
            return Err(ParseError::BadField(SchemaField::Tables));
        },
    };
    proof {
        assert(*v == JsonValue::Obj(*fields));
        lemma_obj_view(*fields);
    }
    let hard_v = match obj_get(fields, "hard_hands") {
        Some(h) => h,
        None => {
            return Err(ParseError::BadField(SchemaField::HardHands));
        },
    };
    let hard = match hard_table_from_json(hard_v) {
        Ok(rows) => rows,
        Err(e) => {
            return Err(e);
        },
    };
    let soft_v = match obj_get(fields, "soft_hands") {
        Some(h) => h,
        None => {
            return Err(ParseError::BadField(SchemaField::SoftHands));
        },
    };
    let soft = match soft_table_from_json(soft_v) {
        Ok(rows) => rows,
        Err(e) => {
            return Err(e);
        },
    };
    let pair_v = match obj_get(fields, "pair_hands") {
        Some(h) => h,
        None => {
            return Err(ParseError::BadField(SchemaField::PairHands));
        },
    };
    let pairs = match pair_table_from_json(pair_v) {
        Ok(rows) => rows,
        Err(e) => {
            return Err(e);
        },
    };
    let tables = StrategyTables { hard_hands: hard, soft_hands: soft, pair_hands: pairs };
    proof {
        assert(tables.model() =~= spec_tables_from_json(json_view(*v))->Ok_0);
    }
    Ok(tables)
}

#[verifier::loop_isolation(false)]
fn legend_from_json(v: &JsonValue) -> (r: Result<Vec<(String, String)>, ParseError>)
    ensures
        (match (r, spec_legend_from_json(json_view(*v))) {
            (Ok(l), Ok(lm)) => l.deep_view() == lm,
            (Err(e), Err(se)) => e == se,
            _ => false,
        }),
{
    let fields = match v {
        JsonValue::Obj(f) => f,
        _ => {
            return Err(ParseError::BadField(SchemaField::ActionLegend));
        },
    };
    proof {
        assert(*v == JsonValue::Obj(*fields));
        lemma_obj_view(*fields);
    }
    let mut legend: Vec<(String, String)> = Vec::new();
    let mut k: usize = 0;
    while k < fields.len()
        invariant
            k <= fields@.len(),
            legend@.len() == k,
            forall|t: int|
                0 <= t < k ==> (#[trigger] obj_models(fields@)[t]).1 is Str
                    && legend.deep_view()[t] == (obj_models(fields@)[t].0, obj_models(
                    fields@,
                )[t].1->Str_0),
        decreases fields@.len() - k,
    {
        proof {
            assert(obj_models(fields@)[k as int] == (fields@[k as int].0@, json_view(
                fields@[k as int].1,
            )));
        }
        let entry = &fields[k];
        match &entry.1 {
            JsonValue::Str(s) => {
                legend.push((entry.0.clone(), s.clone()));
            },
            _ => {
                proof {
                    assert(!(obj_models(fields@)[k as int].1 is Str));
                    assert(!(json_view(*v)->Obj_0[k as int].1 is Str));
                }
                return Err(ParseError::BadField(SchemaField::ActionLegend));
            },
        }
        k += 1;
    }
    proof {
        match spec_legend_from_json(json_view(*v)) {
            Ok(lm) => {
                assert(legend.deep_view() =~= lm);
            },
            _ => {},
        }
    }
    Ok(legend)
}

impl BlackjackStrategy {
    /// Reads a strategy document from source text. Succeeds exactly on
    /// well-formed text carrying the full schema; the identifier is freshly
    /// generated where the source omits it or names the nil sentinel; every
    /// loaded row carries exactly ten action codes.
    pub fn from_json(json_str: &str) -> (r: Result<BlackjackStrategy, ParseError>)
        ensures
            (match (r, spec_from_json(json_str@)) {
                (Ok(d), Ok(pd)) => doc_matches(d, pd) && d.wf(),
                (Err(e), Err(se)) => e == se,
                _ => false,
            }),
    {
        let parsed = match parse_json(json_str) {
            Some(v) => v,
            None => {
                return Err(ParseError::Syntax);
            },
        };
        let fields = match &parsed {
            JsonValue::Obj(f) => f,
            _ => {
                return Err(ParseError::NotAnObject);
            },
        };
        proof {
            assert(parsed == JsonValue::Obj(*fields));
            lemma_obj_view(*fields);
        }
        let id = match id_from_json(fields) {
            Ok(id) => id,
            Err(e) => {
                return Err(e);
            },
        };
        let name = match get_string(fields, "name", SchemaField::Name) {
            Ok(s) => s,
            Err(e) => {
                return Err(e);
            },
        };
        let description = match get_string(fields, "description", SchemaField::Description) {
            Ok(s) => s,
            Err(e) => {
                return Err(e);
            },
        };
        let rules_v = match obj_get(fields, "rules") {
            Some(v) => v,
            None => {
                return Err(ParseError::BadField(SchemaField::Rules));
            },
        };
        let rules = match rules_from_json(rules_v) {
            Ok(r) => r,
            Err(e) => {
                return Err(e);
            },
        };
        let tables_v = match obj_get(fields, "tables") {
            Some(v) => v,
            None => {
                return Err(ParseError::BadField(SchemaField::Tables));
            },
        };
        let tables = match tables_from_json(tables_v) {
            Ok(t) => t,
            Err(e) => {
                return Err(e);
            },
        };
        let legend_v = match obj_get(fields, "action_legend") {
            Some(v) => v,
            None => {
                return Err(ParseError::BadField(SchemaField::ActionLegend));
            },
        };
        let action_legend = match legend_from_json(legend_v) {
            Ok(l) => l,
            Err(e) => {
                return Err(e);
            },
        };
        let doc = BlackjackStrategy {
            id: id,
            name: name,
            description: description,
            rules: rules,
            tables: tables,
            action_legend: action_legend,
        };
        proof {
            let f2 = json_view(*tables_v)->Obj_0;
            match spec_obj_get(f2, "hard_hands"@) {
                Some(JsonModel::Arr(items_h)) => {
                    lemma_loaded_rows_have_ten_actions(items_h, "total"@, SchemaField::HardHands);
                },
                _ => {},
            }
            match spec_obj_get(f2, "soft_hands"@) {
                Some(JsonModel::Arr(items_s)) => {
                    lemma_loaded_rows_have_ten_actions(items_s, "total"@, SchemaField::SoftHands);
                },
                _ => {},
            }
            match spec_obj_get(f2, "pair_hands"@) {
                Some(JsonModel::Arr(items_p)) => {
                    lemma_loaded_rows_have_ten_actions(items_p, "pair"@, SchemaField::PairHands);
                },
                _ => {},
            }
        }
        Ok(doc)
    }
}

/// Whether an in-memory document is exactly what a source asked for; where
/// the source asked for a fresh identifier, any non-nil one satisfies it.
pub open spec fn doc_matches(d: BlackjackStrategy, pd: ParsedDoc) -> bool {
    &&& (match pd.id {
        Some(b) => d.id@ == b,
        None => d.id@.len() == 16 && !spec_id_is_nil(d.id@),
    })
    &&& d.name@ == pd.name
    &&& d.description@ == pd.description
    &&& d.rules == pd.rules
    &&& d.tables.model() == pd.tables
    &&& d.action_legend.deep_view() == pd.legend
}

} // verus!
