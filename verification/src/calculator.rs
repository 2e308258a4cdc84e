use vstd::prelude::*;

use crate::navigation::{KeyInput, MenuNavigation, ModelResponse, spec_nav_step};
use crate::repository::{spec_key_at, StrategyRepository};
use crate::strategy::{
    spec_surrender_text, BlackjackStrategy, DocModel, StrategyVariables, SurrenderRule,
};
use crate::text::{dec_digits, u8_to_string};

verus! {

/// The adjustable options of the settings menu, in cursor order.
#[derive(Clone, Copy, PartialEq, Eq, Structural, Debug)]
pub enum AdjustableOption {
    NumberOfDecks,
    Soft17DealerAction,
    AllowDoubleAfterSplit,
    AllowSurrender,
    DealerPeak,
}

/// The display label of each adjustable option.
pub open spec fn spec_option_label(option: AdjustableOption) -> Seq<char> {
    match option {
        AdjustableOption::NumberOfDecks => "Number of Decks"@,
        AdjustableOption::Soft17DealerAction => "Soft 17 Dealer Action"@,
        AdjustableOption::AllowDoubleAfterSplit => "Allow Double After Split"@,
        AdjustableOption::AllowSurrender => "Allow Surrender"@,
        AdjustableOption::DealerPeak => "Dealer Peak"@,
    }
}

impl AdjustableOption {
    /// The label under which this option is shown.
    pub fn to_string(&self) -> (r: String)
        ensures
            r@ == spec_option_label(*self),
    {
        match self {
            AdjustableOption::NumberOfDecks => String::from_str("Number of Decks"),
            AdjustableOption::Soft17DealerAction => String::from_str("Soft 17 Dealer Action"),
            AdjustableOption::AllowDoubleAfterSplit => String::from_str("Allow Double After Split"),
            AdjustableOption::AllowSurrender => String::from_str("Allow Surrender"),
            AdjustableOption::DealerPeak => String::from_str("Dealer Peak"),
        }
    }
}

/// How many options the settings menu offers.
pub open spec fn spec_adjustable_len() -> int {
    5
}

/// The option at each cursor position.
pub open spec fn spec_adjustable_option(index: int) -> AdjustableOption {
    if index == 0 {
        AdjustableOption::NumberOfDecks
    } else if index == 1 {
        AdjustableOption::Soft17DealerAction
    } else if index == 2 {
        AdjustableOption::AllowDoubleAfterSplit
    } else if index == 3 {
        AdjustableOption::AllowSurrender
    } else {
        AdjustableOption::DealerPeak
    }
}

/// The deck count after one adjustment: clamped to the valid range at both
/// ends, without wrapping — an out-of-range step is a no-op.
pub open spec fn spec_clamped_decks(decks: int, increment: int) -> int {
    if decks + increment < 1 {
        1
    } else if decks + increment > 3 {
        3
    } else {
        decks + increment
    }
}

/// The surrender rule after one adjustment: the three rules cycle in a
/// fixed order and wrap at both ends. Unlike the deck count this wraps on
/// purpose: cycling is the expected way to reach every policy.
pub open spec fn spec_surrender_cycle(rule: SurrenderRule, forward: bool) -> SurrenderRule {
    match (rule, forward) {
        (SurrenderRule::NotAllowed, true) => SurrenderRule::AnyUpcard,
        (SurrenderRule::AnyUpcard, true) => SurrenderRule::Dealer2Through10,
        (SurrenderRule::Dealer2Through10, true) => SurrenderRule::NotAllowed,
        (SurrenderRule::Dealer2Through10, false) => SurrenderRule::AnyUpcard,
        (SurrenderRule::AnyUpcard, false) => SurrenderRule::NotAllowed,
        (SurrenderRule::NotAllowed, false) => SurrenderRule::Dealer2Through10,
    }
}

/// Law: the surrender cycle wraps at both ends — one step up from the last
/// policy reaches the first, one step down from the first reaches the last.
pub proof fn lemma_surrender_cycle_wraps()
    ensures
        spec_surrender_cycle(SurrenderRule::Dealer2Through10, true) == SurrenderRule::NotAllowed,
        spec_surrender_cycle(SurrenderRule::NotAllowed, false) == SurrenderRule::Dealer2Through10,
{
}

/// Law: three forward steps return any surrender rule to itself.
pub proof fn lemma_surrender_cycle_period(rule: SurrenderRule)
    ensures
        spec_surrender_cycle(spec_surrender_cycle(spec_surrender_cycle(rule, true), true), true)
            == rule,
{
}

/// Whether a resolution step picked the right document: the first cached
/// exact match for the rules; else the well-known fallback; else the
/// active document stays.
pub open spec fn spec_resolution(
    cache: Seq<(Seq<char>, DocModel)>,
    rules: StrategyVariables,
    prev: (Seq<char>, DocModel),
    now: (Seq<char>, DocModel),
) -> bool {
    if exists|i: int| 0 <= i < cache.len() && (#[trigger] cache[i]).1.rules == rules {
        exists|i: int|
            0 <= i < cache.len() && (#[trigger] cache[i]).1.rules == rules && now == cache[i] && (
            forall|k: int| 0 <= k < i ==> cache[k].1.rules != rules)
    } else {
        match spec_key_at(cache, "default-strategy"@) {
            Some(i) => now == cache[i],
            None => now == prev,
        }
    }
}

/// The calculator screen: the five live rule toggles, the cursor of the
/// settings menu, the cache of loaded strategies, and the strategy the
/// current toggles resolve to.
#[derive(Debug)]
pub struct StrategyCalculatorScreen {
    /// Cursor position over the adjustable options.
    pub active_menu_index: i8,
    /// Deck-count setting, one through three; three stands for four or more.
    pub number_of_decks: i8,
    pub dealer_stands_on_soft_17: bool,
    pub allow_double_after_split: bool,
    pub surrender_rule: SurrenderRule,
    pub dealer_peak: bool,
    /// The strategy the current toggles resolve to.
    pub strategy: BlackjackStrategy,
    /// All loaded strategies, keyed by source name.
    pub strategy_cache: StrategyRepository,
    /// The key of the active strategy.
    pub active_strategy_name: String,
}

impl StrategyCalculatorScreen {
    /// The rule set the five live toggles spell.
    pub open spec fn spec_current_rules(&self) -> StrategyVariables {
        StrategyVariables {
            decks: self.number_of_decks as u8,
            dealer_stands_on_soft_17: self.dealer_stands_on_soft_17,
            double_after_split: self.allow_double_after_split,
            dealer_peak: self.dealer_peak,
            surrender_allowed: self.surrender_rule,
        }
    }

    /// The cursor stays on the options, the deck count in its range, and
    /// the cache and active strategy well formed.
    pub open spec fn wf(&self) -> bool {
        &&& 0 <= self.active_menu_index < spec_adjustable_len()
        &&& 1 <= self.number_of_decks <= 3
        &&& self.strategy.wf()
        &&& self.strategy_cache.wf()
    }

    /// The five toggles and the cursor of two states agree.
    pub open spec fn same_settings(a: &Self, b: &Self) -> bool {
        &&& a.active_menu_index == b.active_menu_index
        &&& a.number_of_decks == b.number_of_decks
        &&& a.dealer_stands_on_soft_17 == b.dealer_stands_on_soft_17
        &&& a.allow_double_after_split == b.allow_double_after_split
        &&& a.surrender_rule == b.surrender_rule
        &&& a.dealer_peak == b.dealer_peak
    }

    /// The five toggles of `b` are those of `a` after one adjustment of the
    /// option under `a`'s cursor, which itself stays put: the deck count
    /// clamps at its ends, the three booleans flip on any step, and the
    /// surrender rule cycles with wraparound.
    pub open spec fn spec_adjusted(a: &Self, b: &Self, increment: int) -> bool {
        &&& b.active_menu_index == a.active_menu_index
        &&& (match spec_adjustable_option(a.active_menu_index as int) {
            AdjustableOption::NumberOfDecks => {
                &&& b.number_of_decks == spec_clamped_decks(a.number_of_decks as int, increment)
                &&& b.dealer_stands_on_soft_17 == a.dealer_stands_on_soft_17
                &&& b.allow_double_after_split == a.allow_double_after_split
                &&& b.surrender_rule == a.surrender_rule
                &&& b.dealer_peak == a.dealer_peak
            },
            AdjustableOption::Soft17DealerAction => {
                &&& b.number_of_decks == a.number_of_decks
                &&& b.dealer_stands_on_soft_17 == !a.dealer_stands_on_soft_17
                &&& b.allow_double_after_split == a.allow_double_after_split
                &&& b.surrender_rule == a.surrender_rule
                &&& b.dealer_peak == a.dealer_peak
            },
            AdjustableOption::AllowDoubleAfterSplit => {
                &&& b.number_of_decks == a.number_of_decks
                &&& b.dealer_stands_on_soft_17 == a.dealer_stands_on_soft_17
                &&& b.allow_double_after_split == !a.allow_double_after_split
                &&& b.surrender_rule == a.surrender_rule
                &&& b.dealer_peak == a.dealer_peak
            },
            AdjustableOption::AllowSurrender => {
                &&& b.number_of_decks == a.number_of_decks
                &&& b.dealer_stands_on_soft_17 == a.dealer_stands_on_soft_17
                &&& b.allow_double_after_split == a.allow_double_after_split
                &&& b.surrender_rule == spec_surrender_cycle(a.surrender_rule, increment > 0)
                &&& b.dealer_peak == a.dealer_peak
            },
            AdjustableOption::DealerPeak => {
                &&& b.number_of_decks == a.number_of_decks
                &&& b.dealer_stands_on_soft_17 == a.dealer_stands_on_soft_17
                &&& b.allow_double_after_split == a.allow_double_after_split
                &&& b.surrender_rule == a.surrender_rule
                &&& b.dealer_peak == !a.dealer_peak
            },
        })
    }

    /// The rule set the five live toggles spell.
    pub fn current_rules(&self) -> (r: StrategyVariables)
        requires
            self.number_of_decks >= 0,
        ensures
            r == self.spec_current_rules(),
    {
        StrategyVariables {
            decks: self.number_of_decks as u8,
            dealer_stands_on_soft_17: self.dealer_stands_on_soft_17,
            double_after_split: self.allow_double_after_split,
            dealer_peak: self.dealer_peak,
            surrender_allowed: self.surrender_rule,
        }
    }

    /// Creates the calculator session over a loaded repository: default
    /// toggles, and the strategy they resolve to — the first exact match in
    /// the cache, else the built-in default document.
    pub fn new(strategy_cache: StrategyRepository) -> (r: Self)
        requires
            strategy_cache.wf(),
        ensures
            r.wf(),
            r.active_menu_index == 0,
            r.number_of_decks == 3,
            r.dealer_stands_on_soft_17 == true,
            r.allow_double_after_split == true,
            r.surrender_rule == SurrenderRule::AnyUpcard,
            r.dealer_peak == true,
            r.strategy_cache == strategy_cache,
            (exists|i: int|
                0 <= i < strategy_cache.model().len() && (#[trigger] strategy_cache.model()[i]).1.rules
                    == r.spec_current_rules()) ==> exists|i: int|
                0 <= i < strategy_cache.model().len() && #[trigger] strategy_cache.model()[i] == (
                    r.active_strategy_name@,
                    r.strategy.model(),
                ) && strategy_cache.model()[i].1.rules == r.spec_current_rules() && (forall|k: int|
                    0 <= k < i ==> strategy_cache.model()[k].1.rules != r.spec_current_rules()),
            (forall|i: int|
                0 <= i < strategy_cache.model().len() ==> (#[trigger] strategy_cache.model()[i]).1.rules
                    != r.spec_current_rules()) ==> r.active_strategy_name@ == "Default"@
                && r.strategy.name@ == "Default Strategy"@ && r.strategy.description@
                == "Default Basic Strategy"@ && r.strategy.rules == (StrategyVariables {
                decks: 1,
                dealer_stands_on_soft_17: true,
                double_after_split: true,
                dealer_peak: true,
                surrender_allowed: SurrenderRule::NotAllowed,
            }) && r.strategy.model().tables.hard.len() == 0 && r.strategy.model().tables.soft.len()
                == 0 && r.strategy.model().tables.pairs.len() == 0 && r.strategy.model().legend.len()
                == 0,
    {
        let default_decks: i8 = 3;
        let default_dealer_stands_on_soft_17 = true;
        let default_double_after_split = true;
        let default_surrender = SurrenderRule::AnyUpcard;
        let default_dealer_peak = true;
        let rules = StrategyVariables {
            decks: 3,
            dealer_stands_on_soft_17: default_dealer_stands_on_soft_17,
            double_after_split: default_double_after_split,
            dealer_peak: default_dealer_peak,
            surrender_allowed: default_surrender,
        };
        let found: Option<(String, BlackjackStrategy)> = match strategy_cache.find_exact(rules) {
            Some((key, doc)) => Some((key.clone(), doc.duplicate())),
            None => None,
        };
        let (active_strategy_name, default_strategy) = match found {
            Some(pair) => pair,
            None => (String::from_str("Default"), BlackjackStrategy::new()),
        };
        Self {
            active_menu_index: 0,
            number_of_decks: default_decks,
            dealer_stands_on_soft_17: default_dealer_stands_on_soft_17,
            allow_double_after_split: default_double_after_split,
            surrender_rule: default_surrender,
            dealer_peak: default_dealer_peak,
            strategy: default_strategy,
            strategy_cache,
            active_strategy_name,
        }
    }

    /// Scans a repository for the strategy designed for exactly these five
    /// toggles; yields the first match and its key, `None` when no cached
    /// strategy matches.
    pub fn find_matching_strategy(
        strategy_cache: &StrategyRepository,
        decks: u8,
        dealer_stands_on_soft_17: bool,
        double_after_split: bool,
        dealer_peak: bool,
        surrender_rule: SurrenderRule,
    ) -> (r: Option<(String, BlackjackStrategy)>)
        ensures
            ({
                let rules = StrategyVariables {
                    decks,
                    dealer_stands_on_soft_17,
                    double_after_split,
                    dealer_peak,
                    surrender_allowed: surrender_rule,
                };
                match r {
                    Some((key, doc)) => exists|i: int|
                        0 <= i < strategy_cache.model().len()
                            && #[trigger] strategy_cache.model()[i] == (key@, doc.model())
                            && doc.model().rules == rules && (forall|k: int|
                            0 <= k < i ==> strategy_cache.model()[k].1.rules != rules),
                    None => forall|i: int|
                        0 <= i < strategy_cache.model().len()
                            ==> (#[trigger] strategy_cache.model()[i]).1.rules != rules,
                }
            }),
    {
        let rules = StrategyVariables {
            decks,
            dealer_stands_on_soft_17,
            double_after_split,
            dealer_peak,
            surrender_allowed: surrender_rule,
        };
        match strategy_cache.find_exact(rules) {
            Some((key, doc)) => Some((key.clone(), doc.duplicate())),
            None => None,
        }
    }

    /// Makes the named cached strategy active; reports whether the name was
    /// found, and changes nothing when it was not.
    pub fn switch_strategy(&mut self, strategy_name: &str) -> (r: bool)
        requires
            old(self).wf(),
        ensures
            final(self).wf(),
            Self::same_settings(final(self), old(self)),
            final(self).strategy_cache == old(self).strategy_cache,
            (match spec_key_at(old(self).strategy_cache.model(), strategy_name@) {
                Some(i) => r == true && final(self).strategy.model() == old(self).strategy_cache.model()[i].1 && final(self).active_strategy_name@
                    == strategy_name@,
                None => r == false && final(self).strategy == old(self).strategy && final(self).active_strategy_name == old(self).active_strategy_name,
            }),
    {
        let found: Option<BlackjackStrategy> = match self.strategy_cache.get(strategy_name) {
            Some(doc) => Some(doc.duplicate()),
            None => None,
        };
        match found {
            Some(doc) => {
                self.strategy = doc;
                self.active_strategy_name = String::from_str(strategy_name);
                true
            },
            None => false,
        }
    }

    /// The names of all cached strategies.
    pub fn get_strategy_names(&self) -> (r: Vec<String>)
        ensures
            r.deep_view() == Seq::new(
                self.strategy_cache.model().len(),
                |i: int| self.strategy_cache.model()[i].0,
            ),
    {
        self.strategy_cache.keys()
    }

    /// The canonical cache key a rule combination would be filed under.
    pub open spec fn spec_strategy_key(
        decks: u8,
        dealer_stands_on_soft_17: bool,
        double_after_split: bool,
        dealer_peak: bool,
        surrender_allowed: SurrenderRule,
    ) -> Seq<char> {
        "decks"@ + dec_digits(decks as nat) + "_s17"@ + (if dealer_stands_on_soft_17 {
            "y"@
        } else {
            "n"@
        }) + "_das"@ + (if double_after_split {
            "y"@
        } else {
            "n"@
        }) + "_peak"@ + (if dealer_peak {
            "y"@
        } else {
            "n"@
        }) + "_surr"@ + spec_surrender_text(surrender_allowed)
    }

    /// Renders the canonical cache key for a rule combination.
    pub fn create_strategy_key(
        decks: u8,
        dealer_stands_on_soft_17: bool,
        double_after_split: bool,
        dealer_peak: bool,
        surrender_allowed: SurrenderRule,
    ) -> (r: String)
        ensures
            r@ == Self::spec_strategy_key(
                decks,
                dealer_stands_on_soft_17,
                double_after_split,
                dealer_peak,
                surrender_allowed,
            ),
    {
        let mut key = String::from_str("decks");
        let decks_text = u8_to_string(decks);
        key.append(decks_text.as_str());
        key.append("_s17");
        key.append(if dealer_stands_on_soft_17 {
            "y"
        } else {
            "n"
        });
        key.append("_das");
        key.append(if double_after_split {
            "y"
        } else {
            "n"
        });
        key.append("_peak");
        key.append(if dealer_peak {
            "y"
        } else {
            "n"
        });
        key.append("_surr");
        key.append(surrender_allowed.to_string());
        key
    }

    /// One adjustment of the option under the cursor: the deck count clamps
    /// at its ends, the three booleans flip on any step, and the surrender
    /// rule cycles with wraparound.
    pub fn increment_current_menu_item(&mut self, increment: i8)
        requires
            old(self).wf(),
            increment == 1 || increment == -1,
        ensures
            final(self).wf(),
            final(self).strategy == old(self).strategy,
            final(self).strategy_cache == old(self).strategy_cache,
            final(self).active_strategy_name == old(self).active_strategy_name,
            Self::spec_adjusted(old(self), final(self), increment as int),
    {
        if self.active_menu_index == 0 {
            let next = self.number_of_decks + increment;
            self.number_of_decks = if next < 1 {
                1
            } else if next > 3 {
                3
            } else {
                next
            };
        } else if self.active_menu_index == 1 {
            self.dealer_stands_on_soft_17 = !self.dealer_stands_on_soft_17;
        } else if self.active_menu_index == 2 {
            self.allow_double_after_split = !self.allow_double_after_split;
        } else if self.active_menu_index == 3 {
            self.surrender_rule = match (self.surrender_rule, increment > 0) {
                (SurrenderRule::NotAllowed, true) => SurrenderRule::AnyUpcard,
                (SurrenderRule::AnyUpcard, true) => SurrenderRule::Dealer2Through10,
                (SurrenderRule::Dealer2Through10, true) => SurrenderRule::NotAllowed,
                (SurrenderRule::Dealer2Through10, false) => SurrenderRule::AnyUpcard,
                (SurrenderRule::AnyUpcard, false) => SurrenderRule::NotAllowed,
                (SurrenderRule::NotAllowed, false) => SurrenderRule::Dealer2Through10,
            };
        } else {
            self.dealer_peak = !self.dealer_peak;
        }
    }

    /// Re-resolves the active strategy from the current toggles: the first
    /// exact cache match, else the well-known fallback document, else the
    /// active one stays. The active document always reflects the toggles
    /// when the cache can serve them.
    pub fn update_strategy_based_on_settings(&mut self)
        requires
            old(self).wf(),
        ensures
            final(self).wf(),
            Self::same_settings(final(self), old(self)),
            final(self).strategy_cache == old(self).strategy_cache,
            spec_resolution(
                old(self).strategy_cache.model(),
                old(self).spec_current_rules(),
                (old(self).active_strategy_name@, old(self).strategy.model()),
                (final(self).active_strategy_name@, final(self).strategy.model()),
            ),
    {
        let rules = self.current_rules();
        let found: Option<(String, BlackjackStrategy)> = match self.strategy_cache.find_exact(
            rules,
        ) {
            Some((key, doc)) => Some((key.clone(), doc.duplicate())),
            None => None,
        };
        match found {
            Some((key, doc)) => {
                self.strategy = doc;
                self.active_strategy_name = key;
            },
            None => {
                proof {
                    crate::repository::lemma_key_at_bounds(
                        self.strategy_cache.model(),
                        "default-strategy"@,
                    );
                }
                let fallback: Option<BlackjackStrategy> = match self.strategy_cache.get(
                    "default-strategy",
                ) {
                    Some(doc) => Some(doc.duplicate()),
                    None => None,
                };
                match fallback {
                    Some(doc) => {
                        self.strategy = doc;
                        self.active_strategy_name = String::from_str("default-strategy");
                    },
                    None => {},
                }
            },
        }
    }

    /// One input-processing step of the calculator screen: quit, go back to
    /// the menu, move the cursor, or adjust the option under the cursor and
    /// re-resolve the strategy. Key releases and keys this screen does not
    /// recognize change nothing visual, so they ask the driver to keep
    /// polling without a redraw.
    pub fn process_key(&mut self, key: KeyInput) -> (r: ModelResponse)
        requires
            old(self).wf(),
        ensures
            final(self).wf(),
            (match key {
                KeyInput::Quit => r == ModelResponse::Exit && *final(self) == *old(self),
                KeyInput::Menu => r == ModelResponse::NavToMainMenu && *final(self) == *old(self),
                KeyInput::Down => r == ModelResponse::Refresh && final(self).active_menu_index
                    == spec_nav_step(
                    old(self).active_menu_index as int,
                    spec_adjustable_len(),
                    1,
                ) && Self::nav_preserves(old(self), final(self)),
                KeyInput::Up => r == ModelResponse::Refresh && final(self).active_menu_index
                    == spec_nav_step(
                    old(self).active_menu_index as int,
                    spec_adjustable_len(),
                    -1,
                ) && Self::nav_preserves(old(self), final(self)),
                KeyInput::Right => r == ModelResponse::Refresh && Self::spec_adjusted(
                    old(self),
                    final(self),
                    1,
                ) && final(self).strategy_cache == old(self).strategy_cache && spec_resolution(
                    old(self).strategy_cache.model(),
                    final(self).spec_current_rules(),
                    (old(self).active_strategy_name@, old(self).strategy.model()),
                    (final(self).active_strategy_name@, final(self).strategy.model()),
                ),
                KeyInput::Left => r == ModelResponse::Refresh && Self::spec_adjusted(
                    old(self),
                    final(self),
                    -1,
                ) && final(self).strategy_cache == old(self).strategy_cache && spec_resolution(
                    old(self).strategy_cache.model(),
                    final(self).spec_current_rules(),
                    (old(self).active_strategy_name@, old(self).strategy.model()),
                    (final(self).active_strategy_name@, final(self).strategy.model()),
                ),
                KeyInput::Release => r == ModelResponse::NoOp && *final(self) == *old(self),
                _ => r == ModelResponse::NoOp && *final(self) == *old(self),
            }),
    {
        match key {
            KeyInput::Quit => ModelResponse::Exit,
            KeyInput::Menu => ModelResponse::NavToMainMenu,
            KeyInput::Down => {
                self.increment_menu_index(1);
                ModelResponse::Refresh
            },
            KeyInput::Up => {
                self.increment_menu_index(-1);
                ModelResponse::Refresh
            },
            KeyInput::Right => {
                self.increment_current_menu_item(1);
                self.update_strategy_based_on_settings();
                ModelResponse::Refresh
            },
            KeyInput::Left => {
                self.increment_current_menu_item(-1);
                self.update_strategy_based_on_settings();
                ModelResponse::Refresh
            },
            _ => ModelResponse::NoOp,
        }
    }
}

/// The deck-count label of each setting: three stands for four or more.
pub open spec fn spec_decks_label(decks: int) -> Seq<char> {
    if decks == 1 {
        "1"@
    } else if decks == 2 {
        "2"@
    } else if decks == 3 {
        "4+"@
    } else {
        "Unknown"@
    }
}

/// The value text of the setting at each cursor position.
pub open spec fn spec_setting_value(s: &StrategyCalculatorScreen, index: int) -> Seq<char> {
    match spec_adjustable_option(index) {
        AdjustableOption::NumberOfDecks => spec_decks_label(s.number_of_decks as int),
        AdjustableOption::Soft17DealerAction => if s.dealer_stands_on_soft_17 {
            "Dealer Stands"@
        } else {
            "Dealer Hits"@
        },
        AdjustableOption::AllowDoubleAfterSplit => if s.allow_double_after_split {
            "Allowed"@
        } else {
            "Not Allowed"@
        },
        AdjustableOption::AllowSurrender => spec_surrender_text(s.surrender_rule),
        AdjustableOption::DealerPeak => if s.dealer_peak {
            "Yes"@
        } else {
            "No"@
        },
    }
}

impl StrategyCalculatorScreen {
    /// The color an action code is shown in.
    pub fn get_action_color(&self, action: &str) -> (r: crate::actions::ActionColor)
        ensures
            r == crate::actions::spec_action_color(action@),
    {
        crate::actions::action_color(action)
    }

    /// The value text of the setting at a cursor position, as the settings
    /// menu displays it.
    pub fn setting_value_text(&self, index: usize) -> (r: String)
        requires
            index < spec_adjustable_len(),
        ensures
            r@ == spec_setting_value(self, index as int),
    {
        if index == 0 {
            if self.number_of_decks == 1 {
                String::from_str("1")
            } else if self.number_of_decks == 2 {
                String::from_str("2")
            } else if self.number_of_decks == 3 {
                String::from_str("4+")
            } else {
                String::from_str("Unknown")
            }
        } else if index == 1 {
            if self.dealer_stands_on_soft_17 {
                String::from_str("Dealer Stands")
            } else {
                String::from_str("Dealer Hits")
            }
        } else if index == 2 {
            if self.allow_double_after_split {
                String::from_str("Allowed")
            } else {
                String::from_str("Not Allowed")
            }
        } else if index == 3 {
            String::from_str(self.surrender_rule.to_string())
        } else {
            if self.dealer_peak {
                String::from_str("Yes")
            } else {
                String::from_str("No")
            }
        }
    }
}

/// The row label of a soft hand: an ace beside the other card's value.
pub fn soft_hand_label(total: u8) -> (r: String)
    requires
        11 <= total,
    ensures
        r@ == "A"@ + dec_digits((total - 11) as nat),
{
    let mut label = String::from_str("A");
    let second = u8_to_string(total - 11);
    label.append(second.as_str());
    label
}

impl MenuNavigation for StrategyCalculatorScreen {
    open spec fn menu_length_spec(&self) -> int {
        spec_adjustable_len()
    }

    open spec fn nav_invariant(&self) -> bool {
        &&& 1 <= self.number_of_decks <= 3
        &&& self.strategy.wf()
        &&& self.strategy_cache.wf()
    }

    open spec fn nav_preserves(a: &Self, b: &Self) -> bool {
        &&& b.number_of_decks == a.number_of_decks
        &&& b.dealer_stands_on_soft_17 == a.dealer_stands_on_soft_17
        &&& b.allow_double_after_split == a.allow_double_after_split
        &&& b.surrender_rule == a.surrender_rule
        &&& b.dealer_peak == a.dealer_peak
        &&& b.strategy == a.strategy
        &&& b.strategy_cache == a.strategy_cache
        &&& b.active_strategy_name == a.active_strategy_name
    }

    open spec fn menu_index_spec(&self) -> int {
        self.active_menu_index as int
    }

    fn get_menu_length(&self) -> usize {
        5
    }

    fn get_menu_index(&self) -> i8 {
        self.active_menu_index
    }

    fn set_menu_index(&mut self, index: i8) {
        self.active_menu_index = index
    }
}

} // verus!
