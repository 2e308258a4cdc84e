use vstd::prelude::*;

use crate::ids::StrategyId;
use crate::text::{spec_lex_le, str_eq};

verus! {

/// When the table permits the player to surrender.
#[derive(Clone, Copy, PartialEq, Eq, Structural, Hash, Debug)]
pub enum SurrenderRule {
    NotAllowed,
    AnyUpcard,
    Dealer2Through10,
}

/// The fixed text form of each surrender rule, used both for display and in
/// strategy sources.
pub open spec fn spec_surrender_text(r: SurrenderRule) -> Seq<char> {
    match r {
        SurrenderRule::NotAllowed => "Not Allowed"@,
        SurrenderRule::AnyUpcard => "Any Dealer Upcard"@,
        SurrenderRule::Dealer2Through10 => "Dealer 2 through 10"@,
    }
}

/// The surrender rule denoted by a text form, if recognized.
pub open spec fn spec_surrender_of_text(s: Seq<char>) -> Option<SurrenderRule> {
    if s == "Not Allowed"@ {
        Some(SurrenderRule::NotAllowed)
    } else if s == "Any Dealer Upcard"@ {
        Some(SurrenderRule::AnyUpcard)
    } else if s == "Dealer 2 through 10"@ {
        Some(SurrenderRule::Dealer2Through10)
    } else {
        None
    }
}

impl SurrenderRule {
    /// Reads a surrender rule from its text form; fails exactly on
    /// unrecognized text, with a message naming the offending value.
    pub fn from_string(str_value: &str) -> (r: Result<Self, String>)
        ensures
            match r {
                Ok(rule) => spec_surrender_of_text(str_value@) == Some(rule),
                Err(msg) => spec_surrender_of_text(str_value@) is None && msg@
                    == "Unknown Surrender Rule: "@ + str_value@,
            },
    {
        if str_eq(str_value, "Not Allowed") {
            Ok(SurrenderRule::NotAllowed)
        } else if str_eq(str_value, "Any Dealer Upcard") {
            Ok(SurrenderRule::AnyUpcard)
        } else if str_eq(str_value, "Dealer 2 through 10") {
            Ok(SurrenderRule::Dealer2Through10)
        } else {
            let mut msg = String::from_str("Unknown Surrender Rule: ");
            msg.append(str_value);
            Err(msg)
        }
    }

    /// The fixed text form of this surrender rule.
    pub fn to_string(&self) -> (r: &'static str)
        ensures
            r@ == spec_surrender_text(*self),
    {
        match self {
            SurrenderRule::NotAllowed => "Not Allowed",
            SurrenderRule::AnyUpcard => "Any Dealer Upcard",
            SurrenderRule::Dealer2Through10 => "Dealer 2 through 10",
        }
    }
}

/// Law: rendering any surrender rule and reading that text back returns the
/// same rule.
pub proof fn lemma_surrender_text_round_trip(r: SurrenderRule)
    ensures
        spec_surrender_of_text(spec_surrender_text(r)) == Some(r),
{
    reveal_strlit("Not Allowed");
    reveal_strlit("Any Dealer Upcard");
    reveal_strlit("Dealer 2 through 10");
    assert("Not Allowed"@.len() == 11);
    assert("Any Dealer Upcard"@.len() == 17);
    assert("Dealer 2 through 10"@.len() == 19);
}

/// The rule toggles that a strategy is designed for. Equality is structural
/// over all five fields.
#[derive(Clone, Copy, PartialEq, Eq, Structural, Debug)]
pub struct StrategyVariables {
    /// Number of decks in the shoe.
    pub decks: u8,
    /// Whether the dealer stands on a soft seventeen.
    pub dealer_stands_on_soft_17: bool,
    /// Whether the player may double after splitting.
    pub double_after_split: bool,
    /// Whether the dealer peeks for blackjack before the player acts.
    pub dealer_peak: bool,
    /// When surrender is offered.
    pub surrender_allowed: SurrenderRule,
}

/// One row of a hard-hand table: the hand total and ten action codes, one
/// per dealer upcard from two through ace.
#[derive(Debug)]
pub struct HardHandRow {
    /// Total value of the player's hand.
    pub total: u8,
    /// Action codes indexed by dealer upcard: index 0 is upcard two, index 9
    /// is the ace.
    pub actions: Vec<String>,
}

/// One row of a soft-hand table; the total counts an ace as eleven.
#[derive(Debug)]
pub struct SoftHandRow {
    /// Total value of the player's hand.
    pub total: u8,
    /// Action codes indexed by dealer upcard: index 0 is upcard two, index 9
    /// is the ace.
    pub actions: Vec<String>,
}

/// One row of a pair table; eleven stands for a pair of aces.
#[derive(Debug)]
pub struct PairRow {
    /// Value of each card of the pair.
    pub pair: u8,
    /// Action codes indexed by dealer upcard: index 0 is upcard two, index 9
    /// is the ace.
    pub actions: Vec<String>,
}

/// The three lookup tables of one strategy.
#[derive(Debug)]
pub struct StrategyTables {
    /// Rows for hands without an ace counted as eleven.
    pub hard_hands: Vec<HardHandRow>,
    /// Rows for hands with an ace counted as eleven.
    pub soft_hands: Vec<SoftHandRow>,
    /// Rows for splittable pairs.
    pub pair_hands: Vec<PairRow>,
}

/// A complete basic strategy: identity, the rules it is valid for, its
/// three tables, and the legend explaining the action codes.
#[derive(Debug)]
pub struct BlackjackStrategy {
    /// Unique identifier of the strategy.
    pub id: StrategyId,
    /// Name of the strategy.
    pub name: String,
    /// Description of the strategy.
    pub description: String,
    /// Rules that the strategy is designed for.
    pub rules: StrategyVariables,
    /// The hard-hand, soft-hand and pair tables.
    pub tables: StrategyTables,
    /// Legend from action code to human-readable description; order carries
    /// no meaning.
    pub action_legend: Vec<(String, String)>,
}

/// Mathematical model of one table row.
#[verifier::ext_equal]
pub ghost struct RowModel {
    /// The hand total, or the card value for a pair row.
    pub value: u8,
    /// The row's action codes.
    pub actions: Seq<Seq<char>>,
}

/// Mathematical model of the three tables.
#[verifier::ext_equal]
pub ghost struct TablesModel {
    pub hard: Seq<RowModel>,
    pub soft: Seq<RowModel>,
    pub pairs: Seq<RowModel>,
}

/// Mathematical model of a whole strategy document.
#[verifier::ext_equal]
pub ghost struct DocModel {
    pub id: Seq<u8>,
    pub name: Seq<char>,
    pub description: Seq<char>,
    pub rules: StrategyVariables,
    pub tables: TablesModel,
    pub legend: Seq<(Seq<char>, Seq<char>)>,
}

impl HardHandRow {
    pub open spec fn model(&self) -> RowModel {
        RowModel { value: self.total, actions: self.actions.deep_view() }
    }
}

impl SoftHandRow {
    pub open spec fn model(&self) -> RowModel {
        RowModel { value: self.total, actions: self.actions.deep_view() }
    }
}

impl PairRow {
    pub open spec fn model(&self) -> RowModel {
        RowModel { value: self.pair, actions: self.actions.deep_view() }
    }
}

impl StrategyTables {
    pub open spec fn model(&self) -> TablesModel {
        TablesModel {
            hard: Seq::new(self.hard_hands@.len(), |i: int| self.hard_hands@[i].model()),
            soft: Seq::new(self.soft_hands@.len(), |i: int| self.soft_hands@[i].model()),
            pairs: Seq::new(self.pair_hands@.len(), |i: int| self.pair_hands@[i].model()),
        }
    }
}

#[verifier::loop_isolation(false)]
fn dup_strings(v: &Vec<String>) -> (r: Vec<String>)
    ensures
        r.deep_view() == v.deep_view(),
{
    let mut r: Vec<String> = Vec::new();
    let mut i: usize = 0;
    while i < v.len()
        invariant
            i <= v@.len(),
            r@.len() == i,
            forall|t: int| 0 <= t < i ==> r.deep_view()[t] == #[trigger] v.deep_view()[t],
        decreases v@.len() - i,
    {
        r.push(v[i].clone());
        i += 1;
    }
    proof {
        assert(r.deep_view() =~= v.deep_view());
    }
    r
}

#[verifier::loop_isolation(false)]
fn dup_pairs(v: &Vec<(String, String)>) -> (r: Vec<(String, String)>)
    ensures
        r.deep_view() == v.deep_view(),
{
    let mut r: Vec<(String, String)> = Vec::new();
    let mut i: usize = 0;
    while i < v.len()
        invariant
            i <= v@.len(),
            r@.len() == i,
            forall|t: int| 0 <= t < i ==> r.deep_view()[t] == #[trigger] v.deep_view()[t],
        decreases v@.len() - i,
    {
        let entry = &v[i];
        r.push((entry.0.clone(), entry.1.clone()));
        i += 1;
    }
    proof {
        assert(r.deep_view() =~= v.deep_view());
    }
    r
}

impl HardHandRow {
    /// An identical copy of this row.
    pub fn duplicate(&self) -> (r: Self)
        ensures
            r.model() == self.model(),
    {
        let r = HardHandRow { total: self.total, actions: dup_strings(&self.actions) };
        proof {
            assert(r.model() =~= self.model());
        }
        r
    }
}

impl SoftHandRow {
    /// An identical copy of this row.
    pub fn duplicate(&self) -> (r: Self)
        ensures
            r.model() == self.model(),
    {
        let r = SoftHandRow { total: self.total, actions: dup_strings(&self.actions) };
        proof {
            assert(r.model() =~= self.model());
        }
        r
    }
}

impl PairRow {
    /// An identical copy of this row.
    pub fn duplicate(&self) -> (r: Self)
        ensures
            r.model() == self.model(),
    {
        let r = PairRow { pair: self.pair, actions: dup_strings(&self.actions) };
        proof {
            assert(r.model() =~= self.model());
        }
        r
    }
}

impl StrategyTables {
    /// An identical copy of these tables.
    #[verifier::loop_isolation(false)]
    pub fn duplicate(&self) -> (r: Self)
        ensures
            r.model() == self.model(),
    {
        let mut hard: Vec<HardHandRow> = Vec::new();
        let mut i: usize = 0;
        while i < self.hard_hands.len()
            invariant
                i <= self.hard_hands@.len(),
                hard@.len() == i,
                forall|t: int|
                    0 <= t < i ==> hard@[t].model() == #[trigger] self.hard_hands@[t].model(),
            decreases self.hard_hands@.len() - i,
        {
            hard.push(self.hard_hands[i].duplicate());
            i += 1;
        }
        let mut soft: Vec<SoftHandRow> = Vec::new();
        let mut j: usize = 0;
        while j < self.soft_hands.len()
            invariant
                j <= self.soft_hands@.len(),
                soft@.len() == j,
                forall|t: int|
                    0 <= t < j ==> soft@[t].model() == #[trigger] self.soft_hands@[t].model(),
            decreases self.soft_hands@.len() - j,
        {
            soft.push(self.soft_hands[j].duplicate());
            j += 1;
        }
        let mut pairs: Vec<PairRow> = Vec::new();
        let mut k: usize = 0;
        while k < self.pair_hands.len()
            invariant
                k <= self.pair_hands@.len(),
                pairs@.len() == k,
                forall|t: int|
                    0 <= t < k ==> pairs@[t].model() == #[trigger] self.pair_hands@[t].model(),
            decreases self.pair_hands@.len() - k,
        {
            pairs.push(self.pair_hands[k].duplicate());
            k += 1;
        }
        let r = StrategyTables { hard_hands: hard, soft_hands: soft, pair_hands: pairs };
        proof {
            assert(r.model().hard =~= self.model().hard);
            assert(r.model().soft =~= self.model().soft);
            assert(r.model().pairs =~= self.model().pairs);
            assert(r.model() =~= self.model());
        }
        r
    }
}

proof fn lemma_to_multiset_insert<A>(s: Seq<A>, p: int, x: A)
    requires
        0 <= p <= s.len(),
    ensures
        s.insert(p, x).to_multiset() == s.to_multiset().insert(x),
{
    broadcast use vstd::seq_lib::group_to_multiset_ensures;

    let t = s.insert(p, x);
    assert(t.remove(p) =~= s);
    assert(t[p] == x);
    assert(s.to_multiset() =~= t.to_multiset().remove(x));
    assert(t.contains(x));
    assert(t.to_multiset().count(x) > 0);
    assert(t.to_multiset() =~= s.to_multiset().insert(x));
}

/// The action legend in alphabetical order of its codes: the same entries,
/// with every code no later than the next.
#[verifier::loop_isolation(false)]
pub fn sorted_action_legend(legend: &Vec<(String, String)>) -> (r: Vec<(String, String)>)
    ensures
        r.deep_view().to_multiset() == legend.deep_view().to_multiset(),
        forall|i: int|
            0 <= i < r.deep_view().len() - 1 ==> spec_lex_le(
                #[trigger] r.deep_view()[i].0,
                r.deep_view()[i + 1].0,
            ),
{
    let mut out: Vec<(String, String)> = Vec::new();
    let mut i: usize = 0;
    proof {
        broadcast use vstd::seq_lib::group_to_multiset_ensures;

        assert(out.deep_view() =~= Seq::<(Seq<char>, Seq<char>)>::empty());
        assert(legend.deep_view().subrange(0, 0) =~= Seq::<(Seq<char>, Seq<char>)>::empty());
        assert(out.deep_view().to_multiset() =~= Seq::<(Seq<char>, Seq<char>)>::empty().to_multiset());
    }
    while i < legend.len()
        invariant
            i <= legend@.len(),
            legend.deep_view().len() == legend@.len(),
            out.deep_view().to_multiset() == legend.deep_view().subrange(
                0,
                i as int,
            ).to_multiset(),
            forall|a: int|
                0 <= a < out.deep_view().len() - 1 ==> spec_lex_le(
                    #[trigger] out.deep_view()[a].0,
                    out.deep_view()[a + 1].0,
                ),
        decreases legend@.len() - i,
    {
        let entry = &legend[i];
        let ghost prev_out = out.deep_view();
        let mut p: usize = 0;
        while p < out.len()
            invariant
                p <= out@.len(),
                out.deep_view() == prev_out,
                forall|a: int|
                    0 <= a < p ==> spec_lex_le(#[trigger] out.deep_view()[a].0, entry.0@),
            decreases out@.len() - p,
        {
            if !crate::text::str_le(out[p].0.as_str(), entry.0.as_str()) {
                break ;
            }
            p += 1;
        }
        proof {
            if p < out.deep_view().len() {
                crate::text::lemma_lex_le_total(prev_out[p as int].0, entry.0@);
            }
        }
        out.insert(p, (entry.0.clone(), entry.1.clone()));
        proof {
            broadcast use vstd::seq_lib::group_to_multiset_ensures;

            assert(out.deep_view() =~= prev_out.insert(p as int, (entry.0@, entry.1@)));
            lemma_to_multiset_insert(prev_out, p as int, (entry.0@, entry.1@));
            assert(legend.deep_view().subrange(0, i + 1) =~= legend.deep_view().subrange(
                0,
                i as int,
            ).push(legend.deep_view()[i as int]));
            assert(legend.deep_view()[i as int] == (entry.0@, entry.1@));
        }
        i += 1;
    }
    proof {
        assert(legend.deep_view().subrange(0, legend.deep_view().len() as int) =~= legend.deep_view());
    }
    out
}

impl BlackjackStrategy {
    pub open spec fn model(&self) -> DocModel {
        DocModel {
            id: self.id@,
            name: self.name@,
            description: self.description@,
            rules: self.rules,
            tables: self.tables.model(),
            legend: self.action_legend.deep_view(),
        }
    }

    /// A document is well formed when its identifier has the right width and
    /// every row of every table carries exactly ten action codes.
    pub open spec fn wf(&self) -> bool {
        &&& self.id.wf()
        &&& forall|i: int|
            0 <= i < self.tables.model().hard.len() ==> #[trigger] self.tables.model().hard[i].actions.len() == 10
        &&& forall|i: int|
            0 <= i < self.tables.model().soft.len() ==> #[trigger] self.tables.model().soft[i].actions.len() == 10
        &&& forall|i: int|
            0 <= i < self.tables.model().pairs.len() ==> #[trigger] self.tables.model().pairs[i].actions.len() == 10
    }

    /// An identical copy of this document.
    pub fn duplicate(&self) -> (r: Self)
        ensures
            r.model() == self.model(),
    {
        let r = BlackjackStrategy {
            id: self.id.duplicate(),
            name: self.name.clone(),
            description: self.description.clone(),
            rules: self.rules,
            tables: self.tables.duplicate(),
            action_legend: dup_pairs(&self.action_legend),
        };
        proof {
            assert(r.model() =~= self.model());
        }
        r
    }

    /// Creates the built-in default strategy: fresh identity, default rule
    /// toggles, empty tables and legend.
    pub fn new() -> (r: Self)
        ensures
            r.wf(),
            !crate::ids::spec_id_is_nil(r.id@),
            r.name@ == "Default Strategy"@,
            r.description@ == "Default Basic Strategy"@,
            r.rules == (StrategyVariables {
                decks: 1,
                dealer_stands_on_soft_17: true,
                double_after_split: true,
                dealer_peak: true,
                surrender_allowed: SurrenderRule::NotAllowed,
            }),
            r.tables.model().hard.len() == 0,
            r.tables.model().soft.len() == 0,
            r.tables.model().pairs.len() == 0,
            r.model().legend.len() == 0,
    {
        Self {
            id: StrategyId::fresh(),
            name: String::from_str("Default Strategy"),
            description: String::from_str("Default Basic Strategy"),
            rules: StrategyVariables {
                decks: 1,
                dealer_stands_on_soft_17: true,
                double_after_split: true,
                dealer_peak: true,
                surrender_allowed: SurrenderRule::NotAllowed,
            },
            tables: StrategyTables {
                hard_hands: Vec::new(),
                soft_hands: Vec::new(),
                pair_hands: Vec::new(),
            },
            action_legend: Vec::new(),
        }
    }
}

} // verus!
