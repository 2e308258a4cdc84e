use vstd::prelude::*;

use crate::navigation::{KeyInput, MenuNavigation, ModelResponse, spec_nav_step};

verus! {

/// The entries of the main menu, in display order.
#[derive(Clone, Copy, PartialEq, Eq, Structural, Debug)]
pub enum MenuOption {
    StrategyCalculator,
    AboutUs,
}

/// The display label of each menu entry.
pub open spec fn spec_menu_label(option: MenuOption) -> Seq<char> {
    match option {
        MenuOption::StrategyCalculator => "Strategy Calculator"@,
        MenuOption::AboutUs => "About Us"@,
    }
}

impl MenuOption {
    /// The label under which this entry is shown.
    pub fn to_string(&self) -> (r: String)
        ensures
            r@ == spec_menu_label(*self),
    {
        match self {
            MenuOption::StrategyCalculator => String::from_str("Strategy Calculator"),
            MenuOption::AboutUs => String::from_str("About Us"),
        }
    }
}

/// The menu entry at each cursor position.
pub open spec fn spec_menu_item(index: int) -> MenuOption {
    if index == 0 {
        MenuOption::StrategyCalculator
    } else {
        MenuOption::AboutUs
    }
}

/// How many entries the main menu offers.
pub open spec fn spec_menu_len() -> int {
    2
}

/// The navigation target of each menu entry.
pub open spec fn spec_menu_target(option: MenuOption) -> ModelResponse {
    match option {
        MenuOption::StrategyCalculator => ModelResponse::NavToStrategyCalculator,
        MenuOption::AboutUs => ModelResponse::NavToAboutUs,
    }
}

/// The main menu screen: a cursor over the menu entries.
#[derive(Debug)]
pub struct MenuScreen {
    /// Cursor position over the menu entries.
    pub active_menu_index: i8,
}

impl MenuScreen {
    /// The cursor always stands on one of the entries.
    pub open spec fn wf(&self) -> bool {
        0 <= self.menu_index_spec() < spec_menu_len()
    }

    /// A fresh menu screen with the cursor on the first entry.
    pub fn new() -> (r: Self)
        ensures
            r.wf(),
            r.menu_index_spec() == 0,
    {
        Self { active_menu_index: 0 }
    }

    /// The menu entry under the cursor.
    pub fn selected_option(&self) -> (r: MenuOption)
        requires
            self.wf(),
        ensures
            r == spec_menu_item(self.menu_index_spec()),
    {
        if self.active_menu_index == 0 {
            MenuOption::StrategyCalculator
        } else {
            MenuOption::AboutUs
        }
    }

    /// Where the entry under the cursor navigates to.
    pub fn return_navigation_target(&self) -> (r: ModelResponse)
        requires
            self.wf(),
        ensures
            r == spec_menu_target(spec_menu_item(self.menu_index_spec())),
    {
        let selected_option = self.selected_option();
        match selected_option {
            MenuOption::StrategyCalculator => ModelResponse::NavToStrategyCalculator,
            MenuOption::AboutUs => ModelResponse::NavToAboutUs,
        }
    }

    /// One input-processing step of the menu screen: quit, move the cursor,
    /// or navigate to the selected entry. Key releases and keys this screen
    /// does not recognize change nothing visual, so they ask the driver to
    /// keep polling without a redraw.
    pub fn process_key(&mut self, key: KeyInput) -> (r: ModelResponse)
        requires
            old(self).wf(),
        ensures
            final(self).wf(),
            match key {
                KeyInput::Quit => r == ModelResponse::Exit && *final(self) == *old(self),
                KeyInput::Down => r == ModelResponse::Refresh && final(self).menu_index_spec()
                    == spec_nav_step(old(self).menu_index_spec(), spec_menu_len(), 1),
                KeyInput::Up => r == ModelResponse::Refresh && final(self).menu_index_spec()
                    == spec_nav_step(old(self).menu_index_spec(), spec_menu_len(), -1),
                KeyInput::Select => r == spec_menu_target(
                    spec_menu_item(old(self).menu_index_spec()),
                ) && *final(self) == *old(self),
                KeyInput::Release => r == ModelResponse::NoOp && *final(self) == *old(self),
                _ => r == ModelResponse::NoOp && *final(self) == *old(self),
            },
    {
        match key {
            KeyInput::Quit => ModelResponse::Exit,
            KeyInput::Down => {
                self.increment_menu_index(1);
                ModelResponse::Refresh
            },
            KeyInput::Up => {
                self.increment_menu_index(-1);
                ModelResponse::Refresh
            },
            KeyInput::Select => self.return_navigation_target(),
            _ => ModelResponse::NoOp,
        }
    }
}

impl MenuNavigation for MenuScreen {
    open spec fn menu_length_spec(&self) -> int {
        spec_menu_len()
    }

    open spec fn nav_invariant(&self) -> bool {
        true
    }

    open spec fn nav_preserves(a: &Self, b: &Self) -> bool {
        true
    }

    open spec fn menu_index_spec(&self) -> int {
        self.active_menu_index as int
    }

    fn get_menu_length(&self) -> usize {
        2
    }

    fn get_menu_index(&self) -> i8 {
        self.active_menu_index
    }

    fn set_menu_index(&mut self, index: i8) {
        self.active_menu_index = index
    }
}

} // verus!
