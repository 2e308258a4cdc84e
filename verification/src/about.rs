use vstd::prelude::*;

use crate::navigation::{KeyInput, ModelResponse};

verus! {

/// The about screen: a scroll position over a fixed block of text.
#[derive(Debug)]
pub struct AboutUsScreen {
    /// First visible text line.
    pub scroll_offset: usize,
    /// Whether the text overflows the viewport at all.
    pub scroll_necessary: bool,
}

/// The scroll position after one step: the first step down jumps by two
/// lines (past the indicator row), later steps move by one; steps up mirror
/// that; scrolling down does nothing while no scrolling is necessary.
pub open spec fn spec_scroll_step(offset: int, necessary: bool, down: bool) -> int {
    if down {
        if necessary {
            if offset == 0 {
                2
            } else {
                offset + 1
            }
        } else {
            offset
        }
    } else {
        if offset > 0 {
            if offset == 2 {
                0
            } else {
                offset - 1
            }
        } else {
            offset
        }
    }
}

impl AboutUsScreen {
    /// A fresh about screen, scrolled to the top.
    pub fn new() -> (r: Self)
        ensures
            r.scroll_offset == 0,
            r.scroll_necessary == false,
    {
        Self { scroll_offset: 0, scroll_necessary: false }
    }

    /// One input-processing step of the about screen: quit, go back to the
    /// menu, or scroll. Key releases and keys this screen does not recognize
    /// change nothing visual, so they ask the driver to keep polling without
    /// a redraw.
    pub fn process_key(&mut self, key: KeyInput) -> (r: ModelResponse)
        requires
            old(self).scroll_offset < usize::MAX,
        ensures
            final(self).scroll_necessary == old(self).scroll_necessary,
            match key {
                KeyInput::Quit => r == ModelResponse::Exit && *final(self) == *old(self),
                KeyInput::Menu => r == ModelResponse::NavToMainMenu && *final(self) == *old(self),
                KeyInput::Up => r == ModelResponse::Refresh && final(self).scroll_offset
                    == spec_scroll_step(
                    old(self).scroll_offset as int,
                    old(self).scroll_necessary,
                    false,
                ),
                KeyInput::Down => r == ModelResponse::Refresh && final(self).scroll_offset
                    == spec_scroll_step(
                    old(self).scroll_offset as int,
                    old(self).scroll_necessary,
                    true,
                ),
                KeyInput::Release => r == ModelResponse::NoOp && *final(self) == *old(self),
                _ => r == ModelResponse::NoOp && *final(self) == *old(self),
            },
    {
        match key {
            KeyInput::Quit => ModelResponse::Exit,
            KeyInput::Menu => ModelResponse::NavToMainMenu,
            KeyInput::Up => {
                if self.scroll_offset > 0 {
                    if self.scroll_offset == 2 {
                        self.scroll_offset -= 2;
                    } else {
                        self.scroll_offset -= 1;
                    }
                }
                ModelResponse::Refresh
            },
            KeyInput::Down => {
                if self.scroll_necessary {
                    if self.scroll_offset == 0 {
                        self.scroll_offset += 2;
                    } else {
                        self.scroll_offset += 1;
                    }
                }
                ModelResponse::Refresh
            },
            _ => ModelResponse::NoOp,
        }
    }

    /// Adjusts the scroll state for a viewport: reports whether indicator
    /// rows are needed, clamps the offset to the furthest sensible line, and
    /// records whether scrolling is possible at all.
    pub fn adjust_for_view(&mut self, line_count: usize, content_height: usize) -> (r: (
        bool,
        bool,
    ))
        ensures
            ({
                let max_scroll = if line_count >= content_height - 2 && content_height >= 2 {
                    line_count - (content_height - 2)
                } else {
                    0
                };
                &&& r.0 == (old(self).scroll_offset > 0)
                &&& r.1 == (old(self).scroll_offset < max_scroll)
                &&& final(self).scroll_offset == (if old(self).scroll_offset > max_scroll {
                    max_scroll
                } else {
                    old(self).scroll_offset as int
                })
                &&& final(self).scroll_offset <= line_count
                &&& final(self).scroll_necessary == (old(self).scroll_necessary || line_count
                    >= content_height)
            }),
    {
        let max_scroll: usize = if content_height >= 2 && line_count >= content_height - 2 {
            line_count - (content_height - 2)
        } else {
            0
        };
        let needs_top = self.scroll_offset > 0;
        let needs_bottom = self.scroll_offset < max_scroll;
        if self.scroll_offset > max_scroll {
            self.scroll_offset = max_scroll;
        }
        if line_count >= content_height {
            self.scroll_necessary = true;
        }
        (needs_top, needs_bottom)
    }

    /// The visible slice of the text: from the scroll offset to the end of
    /// the viewport or of the text, whichever comes first.
    pub fn visible_range(&self, line_count: usize, visible_height: usize) -> (r: (usize, usize))
        requires
            self.scroll_offset <= line_count,
            line_count + visible_height <= usize::MAX,
        ensures
            r.0 == self.scroll_offset,
            r.1 == (if self.scroll_offset + visible_height <= line_count {
                self.scroll_offset + visible_height
            } else {
                line_count as int
            }),
            r.0 <= r.1 <= line_count,
    {
        let end = if self.scroll_offset + visible_height <= line_count {
            self.scroll_offset + visible_height
        } else {
            line_count
        };
        (self.scroll_offset, end)
    }
}

} // verus!
