//! The page as a grid of characters behind a window that scrolls.

use vstd::prelude::*;
use vstd::std_specs::iter::IteratorSpec;

verus! {

/// The width of the window.
pub const WIDTH: i32 = 800;

/// The height of the window.
pub const HEIGHT: i32 = 600;

/// The left margin, which is the right margin too.
pub const HSTEP: i32 = 13;

/// The height of a line, and the distance between two characters in it.
pub const VSTEP: i32 = 12;

/// How far one turn of the wheel scrolls.
pub const SCROLL_STEP: i32 = 100;

/// A character at its place on the page, or in the window.
#[derive(Clone, Copy, Debug, PartialEq, Eq)]
pub struct Character {
    pub x: i32,
    pub y: i32,
    pub ch: char,
}

impl Character {
    /// The character `ch` at the place `x`, `y`.
    pub fn new(x: i32, y: i32, ch: char) -> (character: Character)
        ensures
            character == (Character { x, y, ch }),
    {
        Character { x, y, ch }
    }
}

/// Where the character after `text` goes: a line starts at the left margin;
/// each character moves the place on by one step, and starts a new line where
/// it is a line feed or the place has come to the right margin.
pub open spec fn cursor_after(text: Seq<char>) -> (int, int)
    decreases text.len(),
{
    if text.len() == 0 {
        (HSTEP as int, VSTEP as int)
    } else {
        let (x, y) = cursor_after(text.drop_last());
        if x + VSTEP >= WIDTH - HSTEP || text.last() == '\n' {
            (HSTEP as int, y + VSTEP)
        } else {
            (x + VSTEP, y)
        }
    }
}

/// The character of `text` at `index`, at the place that the text before it
/// leaves.
pub open spec fn placed(text: Seq<char>, index: int) -> Character {
    Character {
        x: cursor_after(text.take(index)).0 as i32,
        y: cursor_after(text.take(index)).1 as i32,
        ch: text[index],
    }
}

/// The characters of `text`, each at its place.
pub open spec fn layout(text: Seq<char>) -> Seq<Character> {
    Seq::new(text.len(), |i: int| placed(text, i))
}

/// How far down the page can be scrolled: to the line of its last character.
pub open spec fn lowest_line(text: Seq<char>) -> int {
    if text.len() == 0 {
        0
    } else {
        cursor_after(text.drop_last()).1
    }
}

/// Whether the lines of `text`, and the line after them, can be counted in
/// an `i32`.
pub open spec fn fits_a_page(text: Seq<char>) -> bool {
    cursor_after(text).1 <= i32::MAX
}

/// No part of a text ends lower on the page than the text does.
pub proof fn lemma_cursor_descends(text: Seq<char>, length: int)
    requires
        0 <= length <= text.len(),
    ensures
        cursor_after(text.take(length)).1 <= cursor_after(text).1,
    decreases text.len(),
{
    if length == text.len() {
        assert(text.take(length) =~= text);
    } else {
        assert(text.drop_last().take(length) =~= text.take(length));
        lemma_cursor_descends(text.drop_last(), length);
        lemma_cursor_bounds(text);
    }
}

/// The place after a text lies between the margins, and no line is higher
/// up than the line before it.
pub proof fn lemma_cursor_bounds(text: Seq<char>)
    ensures
        HSTEP <= cursor_after(text).0 < WIDTH - HSTEP,
        VSTEP <= cursor_after(text).1 <= (text.len() + 1) * VSTEP,
        text.len() > 0 ==> cursor_after(text.drop_last()).1 <= cursor_after(text).1,
    decreases text.len(),
{
    if text.len() > 0 {
        lemma_cursor_bounds(text.drop_last());
    }
}

/// Whether a character on the line `y` of the page shows in a window that is
/// scrolled to `scroll`.
pub open spec fn shows(y: int, scroll: int) -> bool {
    !(y > scroll + HEIGHT) && !(y + VSTEP < scroll)
}

/// The characters of `list` that show in a window scrolled to `scroll`, in
/// their order, each at its place in the window.
pub open spec fn shown(list: Seq<Character>, scroll: int) -> Seq<Character>
    decreases list.len(),
{
    if list.len() == 0 {
        Seq::empty()
    } else if shows(list.last().y as int, scroll) {
        shown(list.drop_last(), scroll).push(
            Character { x: list.last().x, y: (list.last().y - scroll) as i32, ch: list.last().ch },
        )
    } else {
        shown(list.drop_last(), scroll)
    }
}

/// Where the window stands after a turn of the wheel: a step up for a
/// negative `direction`, a step down for a positive one, and never beyond the
/// top or the bottom of the page.
pub open spec fn scrolled(scroll: int, direction: int, lowest: int) -> int {
    if direction < 0 {
        if scroll - SCROLL_STEP < 0 {
            0
        } else {
            scroll - SCROLL_STEP
        }
    } else if direction > 0 {
        if scroll + SCROLL_STEP > lowest {
            lowest
        } else {
            scroll + SCROLL_STEP
        }
    } else {
        scroll
    }
}

/// The characters of `text`, one by one.
fn characters(text: &str) -> (chars: Vec<char>)
    ensures
        chars@ == text@,
{
    let mut chars: Vec<char> = Vec::new();
    let mut rest = text.chars();
    let ghost mut n: int = 0;
    loop
        invariant
            0 <= n <= text@.len(),
            rest.remaining() == text@.skip(n),
            chars@ == text@.take(n),
        ensures
            chars@ == text@,
        decreases text@.len() - n,
    {
        match rest.next() {
            None => {
                assert(text@.take(n) =~= text@);
                break;
            },
            Some(c) => {
                chars.push(c);
                proof {
                    assert(chars@ =~= text@.take(n + 1));
                    n = n + 1;
                }
            },
        }
    }
    chars
}

/// A page laid out, and how far the window is scrolled down it.
#[derive(Debug)]
pub struct BrowserWidget {
    display_list: Vec<Character>,
    scroll: i32,
    min_scroll: i32,
    max_scroll: i32,
}

impl BrowserWidget {
    #[verifier::type_invariant]
    spec fn scroll_in_range(self) -> bool {
        self.min_scroll == 0 && 0 <= self.scroll <= self.max_scroll
    }

    /// The characters of the page at their places.
    pub closed spec fn page(self) -> Seq<Character> {
        self.display_list@
    }

    /// How far the window is scrolled.
    pub closed spec fn offset(self) -> int {
        self.scroll as int
    }

    /// How far the window can be scrolled.
    pub closed spec fn lowest(self) -> int {
        self.max_scroll as int
    }

    /// Lays out `text`, with the window at the top of the page. The lines of
    /// the page are counted in an `i32`, which the text has to leave room for.
    pub fn new(text: String) -> (widget: BrowserWidget)
        requires
            fits_a_page(text@),
        ensures
            widget.page() == layout(text@),
            widget.offset() == 0,
            widget.lowest() == lowest_line(text@),
    {
        match BrowserWidget::lay_out(characters(text.as_str())) {
            Some(widget) => widget,
            None => vstd::pervasive::unreached(),
        }
    }

    /// Lays out `text` where it fits a page, and gives nothing where it does
    /// not.
    pub fn try_new(text: String) -> (widget: Option<BrowserWidget>)
        ensures
            widget is Some <==> fits_a_page(text@),
            widget matches Some(w) ==> w.page() == layout(text@) && w.offset() == 0 && w.lowest()
                == lowest_line(text@),
    {
        BrowserWidget::lay_out(characters(text.as_str()))
    }

    fn lay_out(chars: Vec<char>) -> (widget: Option<BrowserWidget>)
        ensures
            widget is Some <==> fits_a_page(chars@),
            widget matches Some(w) ==> w.page() == layout(chars@) && w.offset() == 0 && w.lowest()
                == lowest_line(chars@),
    {
        let mut cursor_x: i32 = HSTEP;
        let mut cursor_y: i32 = VSTEP;
        let mut max_scroll: i32 = 0;
        let mut display_list: Vec<Character> = Vec::new();
        let mut n: usize = 0;
        assert(display_list@ =~= layout(chars@.take(0)));
        while n < chars.len()
            invariant
                n <= chars@.len(),
                (cursor_x as int, cursor_y as int) == cursor_after(chars@.take(n as int)),
                display_list@ == layout(chars@.take(n as int)),
                max_scroll == lowest_line(chars@.take(n as int)),
                0 <= max_scroll,
            decreases chars@.len() - n,
        {
            let c: char = chars[n];
            let ghost before = display_list@;
            let ghost wanted = layout(chars@.take(n + 1));
            proof {
                assert(chars@.take(n + 1).drop_last() =~= chars@.take(n as int));
                assert(chars@.take(n + 1).last() == c);
                lemma_cursor_bounds(chars@.take(n as int));
                lemma_cursor_bounds(chars@.take(n + 1));
            }
            if cursor_y > max_scroll {
                max_scroll = cursor_y;
            }
            display_list.push(Character::new(cursor_x, cursor_y, c));
            cursor_x = cursor_x + VSTEP;
            if cursor_x >= WIDTH - HSTEP || c == '\n' {
                if cursor_y > i32::MAX - VSTEP {
                    proof {
                        lemma_cursor_descends(chars@, n + 1);
                    }
                    return None;
                }
                cursor_y = cursor_y + VSTEP;
                cursor_x = HSTEP;
            }
            proof {
                assert forall|i: int| 0 <= i < n + 1 implies display_list@[i] == wanted[i] by {
                    assert(chars@.take(n + 1).take(i) =~= chars@.take(i));
                    if i < n {
                        assert(chars@.take(n as int).take(i) =~= chars@.take(i));
                        assert(before[i] == placed(chars@.take(n as int), i));
                    } else {
                        assert(chars@.take(n + 1).take(n as int) =~= chars@.take(n as int));
                    }
                }
                assert(display_list@ =~= wanted);
            }
            n = n + 1;
        }
        assert(chars@.take(n as int) =~= chars@);
        Some(BrowserWidget { display_list, scroll: 0, min_scroll: 0, max_scroll })
    }

    /// The height of the window.
    pub fn get_height() -> (height: i32)
        ensures
            height == HEIGHT,
    {
        HEIGHT
    }

    /// The width of the window.
    pub fn get_width() -> (width: i32)
        ensures
            width == WIDTH,
    {
        WIDTH
    }

    /// How far the window is scrolled down the page.
    pub fn scroll(&self) -> (scroll: i32)
        ensures
            scroll == self.offset(),
            0 <= scroll <= self.lowest(),
    {
        proof {
            use_type_invariant(self);
        }
        self.scroll
    }

    /// How far the window can be scrolled down the page.
    pub fn max_scroll(&self) -> (lowest: i32)
        ensures
            lowest == self.lowest(),
    {
        self.max_scroll
    }

    /// The characters of the page at their places.
    pub fn display_list(&self) -> (list: &Vec<Character>)
        ensures
            list@ == self.page(),
    {
        &self.display_list
    }

    /// Turns the wheel: a step up the page for a negative `direction`, a step
    /// down for a positive one. The result is where the window stands then.
    pub fn wheel(&mut self, direction: i32) -> (scroll: i32)
        ensures
            final(self).offset() == scrolled(old(self).offset(), direction as int, old(self).lowest()),
            final(self).page() == old(self).page(),
            final(self).lowest() == old(self).lowest(),
            scroll == final(self).offset(),
    {
        proof {
            use_type_invariant(&*self);
        }
        if direction < 0 {
            if self.scroll < SCROLL_STEP {
                self.scroll = 0;
            } else {
                self.scroll = self.scroll - SCROLL_STEP;
            }
        } else if direction > 0 {
            if self.max_scroll - self.scroll < SCROLL_STEP {
                self.scroll = self.max_scroll;
            } else {
                self.scroll = self.scroll + SCROLL_STEP;
            }
        }
        self.scroll
    }

    /// The characters that show in the window, each at its place in the
    /// window, in the order of the page.
    pub fn visible(&self) -> (list: Vec<Character>)
        ensures
            list@ == shown(self.page(), self.offset()),
    {
        let scroll: i64 = self.scroll as i64;
        let mut list: Vec<Character> = Vec::new();
        let mut i: usize = 0;
        while i < self.display_list.len()
            invariant
                i <= self.display_list@.len(),
                scroll == self.scroll,
                list@ == shown(self.display_list@.take(i as int), scroll as int),
            decreases self.display_list@.len() - i,
        {
            let x: i32 = self.display_list[i].x;
            let y: i64 = self.display_list[i].y as i64;
            let ch: char = self.display_list[i].ch;
            proof {
                assert(self.display_list@.take(i + 1).drop_last() =~= self.display_list@.take(i as int));
                assert(self.display_list@.take(i + 1).last() == self.display_list@[i as int]);
            }
            if !(y > scroll + HEIGHT as i64) && !(y + (VSTEP as i64) < scroll) {
                list.push(Character::new(x, (y - scroll) as i32, ch));
            }
            i = i + 1;
        }
        assert(self.display_list@.take(i as int) =~= self.display_list@);
        list
    }
}

} // verus!
