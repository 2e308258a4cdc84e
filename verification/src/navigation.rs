use vstd::prelude::*;

verus! {

/// What the active screen asks the driver loop to do after one
/// input-processing step.
#[derive(Clone, Copy, PartialEq, Eq, Structural, Debug)]
pub enum ModelResponse {
    /// Check for another update from the screen model without redrawing.
    NoOp,
    /// Redraw the current screen.
    Refresh,
    /// Exit the application.
    Exit,
    /// Navigate to the main menu.
    NavToMainMenu,
    /// Navigate to the strategy calculator.
    NavToStrategyCalculator,
    /// Navigate to the about screen.
    NavToAboutUs,
}

/// The input vocabulary the screens react to. The collaborator that polls
/// the terminal reduces its events to these; key releases arrive as
/// [`KeyInput::Release`].
#[derive(Clone, Copy, PartialEq, Eq, Structural, Debug)]
pub enum KeyInput {
    Up,
    Down,
    Left,
    Right,
    Select,
    Quit,
    Menu,
    Release,
    Other,
}

/// The screens the tool can show, as a closed set.
#[derive(Clone, Copy, PartialEq, Eq, Structural, Debug)]
pub enum ScreenKind {
    Menu,
    AboutUs,
    StrategyCalculator,
}

/// What the driver loop does with a screen's response: keep polling input
/// without redrawing, redraw the same screen, terminate, or replace the
/// screen with a fresh instance of another kind — discarding all state of
/// the old one.
#[derive(Clone, Copy, PartialEq, Eq, Structural, Debug)]
pub enum DriverStep {
    Poll,
    Redraw,
    Terminate,
    SwitchTo(ScreenKind),
}

/// The driver's reading of each response. `Poll` and `Redraw` are kept
/// apart so that key presses that change nothing visual need not force a
/// repaint.
pub open spec fn spec_drive(response: ModelResponse) -> DriverStep {
    match response {
        ModelResponse::NoOp => DriverStep::Poll,
        ModelResponse::Refresh => DriverStep::Redraw,
        ModelResponse::Exit => DriverStep::Terminate,
        ModelResponse::NavToMainMenu => DriverStep::SwitchTo(ScreenKind::Menu),
        ModelResponse::NavToAboutUs => DriverStep::SwitchTo(ScreenKind::AboutUs),
        ModelResponse::NavToStrategyCalculator => DriverStep::SwitchTo(
            ScreenKind::StrategyCalculator,
        ),
    }
}

/// Decides the driver's next step from the active screen's response.
pub fn drive(response: ModelResponse) -> (r: DriverStep)
    ensures
        r == spec_drive(response),
{
    match response {
        ModelResponse::NoOp => DriverStep::Poll,
        ModelResponse::Refresh => DriverStep::Redraw,
        ModelResponse::Exit => DriverStep::Terminate,
        ModelResponse::NavToMainMenu => DriverStep::SwitchTo(ScreenKind::Menu),
        ModelResponse::NavToAboutUs => DriverStep::SwitchTo(ScreenKind::AboutUs),
        ModelResponse::NavToStrategyCalculator => DriverStep::SwitchTo(
            ScreenKind::StrategyCalculator,
        ),
    }
}

/// Cursor movement over a menu of `len` options: clamps at both ends, so a
/// step below the first or past the last option leaves the cursor in place.
pub open spec fn spec_nav_step(index: int, len: int, increment: int) -> int {
    if increment < 0 && index <= 0 {
        index
    } else if increment > 0 && index >= len - 1 {
        index
    } else {
        index + increment
    }
}

/// Law: the cursor clamps at both ends — at the first option a step down
/// stays put, at the last option a step up stays put.
pub proof fn lemma_cursor_clamps_at_ends(len: int)
    requires
        len >= 1,
    ensures
        spec_nav_step(0, len, -1) == 0,
        spec_nav_step(len - 1, len, 1) == len - 1,
{
}

/// Shared cursor behaviour of every screen that owns a vertical menu.
pub trait MenuNavigation: Sized {
    /// How many options the menu offers.
    spec fn menu_length_spec(&self) -> int;

    /// Where the cursor stands.
    spec fn menu_index_spec(&self) -> int;

    /// Whatever the screen promises of its state besides the cursor;
    /// moving the cursor preserves it.
    spec fn nav_invariant(&self) -> bool;

    /// What of the screen's state, besides the cursor, a cursor move keeps
    /// word for word.
    spec fn nav_preserves(a: &Self, b: &Self) -> bool;

    fn get_menu_length(&self) -> (n: usize)
        ensures
            n == self.menu_length_spec(),
    ;

    fn get_menu_index(&self) -> (i: i8)
        ensures
            i == self.menu_index_spec(),
    ;

    fn set_menu_index(&mut self, index: i8)
        ensures
            final(self).menu_index_spec() == index,
            final(self).menu_length_spec() == old(self).menu_length_spec(),
            old(self).nav_invariant() ==> final(self).nav_invariant(),
            *final(self) == *old(self) || Self::nav_preserves(old(self), final(self)),
    ;

    /// Moves the cursor one step, clamping at both ends.
    fn increment_menu_index(&mut self, increment: i8)
        requires
            1 <= old(self).menu_length_spec() <= 127,
            0 <= old(self).menu_index_spec() < old(self).menu_length_spec(),
            increment == 1 || increment == -1,
        ensures
            final(self).menu_length_spec() == old(self).menu_length_spec(),
            final(self).menu_index_spec() == spec_nav_step(
                old(self).menu_index_spec(),
                old(self).menu_length_spec(),
                increment as int,
            ),
            old(self).nav_invariant() ==> final(self).nav_invariant(),
            *final(self) == *old(self) || Self::nav_preserves(old(self), final(self)),
    {
        let current_index = self.get_menu_index();
        if increment < 0 && current_index <= 0 {
            return ;
        }
        let len = self.get_menu_length();
        if increment > 0 && current_index >= (len - 1) as i8 {
            return ;
        }
        self.set_menu_index(current_index + increment);
    }
}

} // verus!
