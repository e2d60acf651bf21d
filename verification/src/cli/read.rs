//! The `read` command: a book in the terminal. Here are its arguments and
//! what the reader decides without looking at a pixel: where a key takes
//! it in the book, what the status bar says, and how large an image may
//! be drawn.

use vstd::prelude::*;
use crate::builder::opt_view;
use crate::cli::interpolate::InterpolationMethod;
use crate::text::{decimal, decimal_string, numbered_text};
use crate::types::Section;

verus! {

/// How images are scaled.
#[derive(Debug, Clone, Copy, PartialEq, Eq, Structural)]
pub enum ScalingFilter {
    /// Nearest neighbour.
    Nearest,
    /// Linear filter.
    Triangle,
    /// Cubic filter.
    CatmullRom,
    /// Gaussian filter.
    Gaussian,
    /// Lanczos filter with window 3.
    Lanczos3,
}

/// What `read` is asked to do.
pub struct ReadArgs {
    /// Path of the file to read.
    pub input: String,
    /// Render all pages before reading.
    pub prerender: bool,
    /// Largest width, in pixels.
    pub max_width: Option<u32>,
    /// Largest height, in pixels.
    pub max_height: Option<u32>,
    /// Largest width, in terminal columns.
    pub max_cols: Option<u16>,
    /// Largest height, in terminal rows.
    pub max_rows: Option<u16>,
    /// Scaling filter.
    pub filter: ScalingFilter,
    /// Play animations.
    pub enable_gif_animation: bool,
    /// Frame delay multiplier, as the bits of a 32-bit float.
    pub gif_speed_bits: u32,
    /// Loop animations.
    pub gif_loop: bool,
    /// Hide the status bar.
    pub no_status_bar: bool,
    /// Number of frames interpolated between two frames of an animation.
    pub gif_interpolate: usize,
    /// Interpolation method.
    pub interpolation_method: InterpolationMethod,
}

/// Width of a terminal cell, in pixels.
pub const CELL_WIDTH: u32 = 12;

/// Height of a terminal cell, in pixels.
pub const CELL_HEIGHT: u32 = 24;

/// The largest size at which an image is drawn, in pixels.
pub struct SizeLimits {
    /// Largest width, in pixels, if one is set.
    pub max_width_pixels: Option<u32>,
    /// Largest height, in pixels, if one is set.
    pub max_height_pixels: Option<u32>,
    /// Largest width, in columns, in place of the terminal's width.
    pub max_cols: Option<u16>,
    /// Largest height, in rows, in place of the terminal's height.
    pub max_rows: Option<u16>,
}

/// `a - b`, or 0 where `b` is the larger.
pub open spec fn minus(a: int, b: int) -> int {
    if a >= b {
        a - b
    } else {
        0
    }
}

/// The smaller of two numbers.
pub open spec fn smaller(a: int, b: int) -> int {
    if a <= b {
        a
    } else {
        b
    }
}

impl SizeLimits {
    /// The width that the terminal leaves for an image, in pixels: its
    /// columns, or the limit on columns if there is one, without the
    /// sidebar, at [`CELL_WIDTH`] pixels each.
    pub open spec fn terminal_width(self, term_cols: u16, sidebar_width: u16) -> int {
        let cols = match self.max_cols {
            Some(c) => c,
            None => term_cols,
        };
        minus(cols as int, sidebar_width as int) * CELL_WIDTH
    }

    /// The height that the terminal leaves for an image, in pixels: its
    /// rows, or the limit on rows if there is one, without two rows for
    /// the status, at [`CELL_HEIGHT`] pixels each.
    pub open spec fn terminal_height(self, term_rows: u16) -> int {
        let rows = match self.max_rows {
            Some(r) => r,
            None => term_rows,
        };
        minus(rows as int, 2) * CELL_HEIGHT
    }

    /// The largest width and height of an image: what the terminal leaves,
    /// and no more than the limits in pixels.
    pub open spec fn dimensions(
        self,
        term_cols: u16,
        term_rows: u16,
        sidebar_width: u16,
    ) -> (int, int) {
        let w = self.terminal_width(term_cols, sidebar_width);
        let h = self.terminal_height(term_rows);
        (
            match self.max_width_pixels {
                Some(m) => smaller(m as int, w),
                None => w,
            },
            match self.max_height_pixels {
                Some(m) => smaller(m as int, h),
                None => h,
            },
        )
    }

    /// The largest width and height of an image, in pixels.
    pub fn calculate_dimensions(&self, term_cols: u16, term_rows: u16, sidebar_width: u16) -> (r: (
        u32,
        u32,
    ))
        ensures
            (r.0 as int, r.1 as int) == self.dimensions(term_cols, term_rows, sidebar_width),
    {
        let cols = match self.max_cols {
            Some(c) => c,
            None => term_cols,
        };
        let rows = match self.max_rows {
            Some(r) => r,
            None => term_rows,
        };
        let effective_cols: u16 = if cols >= sidebar_width {
            cols - sidebar_width
        } else {
            0
        };
        let effective_rows: u16 = if rows >= 2 {
            rows - 2
        } else {
            0
        };
        let term_max_width: u32 = effective_cols as u32 * CELL_WIDTH;
        let term_max_height: u32 = effective_rows as u32 * CELL_HEIGHT;
        let max_width = match self.max_width_pixels {
            Some(m) => if m <= term_max_width {
                m
            } else {
                term_max_width
            },
            None => term_max_width,
        };
        let max_height = match self.max_height_pixels {
            Some(m) => if m <= term_max_height {
                m
            } else {
                term_max_height
            },
            None => term_max_height,
        };
        (max_width, max_height)
    }
}

/// Whether `data` starts like an animation in the GIF format and goes on
/// after the three letters.
pub fn is_gif(data: &[u8]) -> (r: bool)
    ensures
        r == (data@.len() > 3 && data@.subrange(0, 3) == seq![0x47u8, 0x49u8, 0x46u8]),
{
    if data.len() > 3 {
        let r = data[0] == 0x47 && data[1] == 0x49 && data[2] == 0x46;
        proof {
            let head = data@.subrange(0, 3);
            if r {
                assert(head =~= seq![0x47u8, 0x49u8, 0x46u8]);
            } else {
                assert(head[0] == data@[0] && head[1] == data@[1] && head[2] == data@[2]);
            }
        }
        r
    } else {
        false
    }
}

/// Where the reader is in a book.
#[derive(Debug, Clone, Copy, PartialEq, Eq, Structural)]
pub struct Position {
    /// Index of the page that is shown.
    pub current_page: usize,
    /// Index of the section that the page belongs to, if any.
    pub current_section: Option<usize>,
}

/// The index of the last section among the first `k` that starts at
/// `page` or before it.
pub open spec fn section_at(sections: Seq<Section>, page: usize, k: int) -> Option<usize>
    decreases k,
{
    if k <= 0 || k > sections.len() {
        None
    } else if sections[k - 1].section_start_index as usize <= page {
        Some((k - 1) as usize)
    } else {
        section_at(sections, page, k - 1)
    }
}

/// The index of the last page of a book of `page_count` pages; 0 for a
/// book without pages.
pub open spec fn last_page(page_count: u64) -> int {
    smaller(minus(page_count as int, 1), usize::MAX as int)
}

impl Position {
    /// The place at the start of a book of `page_count` pages, or at the
    /// page where the reader stopped if the book still has it.
    pub fn restored(saved_page: usize, page_count: u64) -> (r: Position)
        ensures
            r.current_section is None,
            r.current_page as int == smaller(saved_page as int, minus(page_count as int, 1)),
    {
        let max_page: u64 = if page_count >= 1 {
            page_count - 1
        } else {
            0
        };
        let page = if saved_page as u64 <= max_page {
            saved_page
        } else {
            max_page as usize
        };
        Position { current_page: page, current_section: None }
    }

    /// The section that the shown page belongs to: the last one that
    /// starts at the page or before it.
    pub open spec fn section_of_page(self, sections: Seq<Section>) -> Option<usize> {
        section_at(sections, self.current_page, sections.len() as int)
    }

    /// Sets the section to the one that the shown page belongs to.
    pub fn update_current_section(&mut self, sections: &Vec<Section>)
        ensures
            final(self).current_page == old(self).current_page,
            final(self).current_section == old(self).section_of_page(sections@),
    {
        let mut k: usize = sections.len();
        while k > 0
            invariant
                k <= sections.len(),
                self.current_page == old(self).current_page,
                section_at(sections@, self.current_page, sections@.len() as int) == section_at(
                    sections@,
                    self.current_page,
                    k as int,
                ),
            decreases k,
        {
            if sections[k - 1].section_start_index as usize <= self.current_page {
                self.current_section = Some(k - 1);
                return ;
            }
            k = k - 1;
        }
        self.current_section = None;
    }

    /// Goes to the next page, if there is one.
    pub fn next_page(&mut self, page_count: u64, sections: &Vec<Section>)
        ensures
            old(self).current_page < last_page(page_count) ==> final(self).current_page == old(
                self,
            ).current_page + 1 && final(self).current_section == final(self).section_of_page(
                sections@,
            ),
            old(self).current_page >= last_page(page_count) ==> *final(self) == *old(self),
    {
        let last: usize = if page_count == 0 {
            0
        } else if page_count - 1 > usize::MAX as u64 {
            usize::MAX
        } else {
            (page_count - 1) as usize
        };
        if self.current_page < last {
            self.current_page = self.current_page + 1;
            self.update_current_section(sections);
        }
    }

    /// Goes to the previous page, if there is one.
    pub fn prev_page(&mut self, sections: &Vec<Section>)
        ensures
            old(self).current_page > 0 ==> final(self).current_page == old(self).current_page - 1
                && final(self).current_section == final(self).section_of_page(sections@),
            old(self).current_page == 0 ==> *final(self) == *old(self),
    {
        if self.current_page > 0 {
            self.current_page = self.current_page - 1;
            self.update_current_section(sections);
        }
    }

    /// The section that the reader counts from: the current one, or the
    /// first if there is none.
    pub open spec fn section_index(self) -> usize {
        match self.current_section {
            Some(i) => i,
            None => 0,
        }
    }

    /// Goes to the start of the next section, if there is one.
    pub fn next_section(&mut self, sections: &Vec<Section>)
        ensures
            old(self).section_index() + 1 < sections@.len() ==> final(self).current_section
                == Some((old(self).section_index() + 1) as usize) && final(self).current_page
                == sections@[old(self).section_index() + 1].section_start_index as usize,
            old(self).section_index() + 1 >= sections@.len() ==> *final(self) == *old(self),
    {
        let current_idx = match self.current_section {
            Some(i) => i,
            None => 0,
        };
        if current_idx < sections.len() && current_idx + 1 < sections.len() {
            self.current_page = sections[current_idx + 1].section_start_index as usize;
            self.current_section = Some(current_idx + 1);
        }
    }

    /// Goes to the start of the previous section, if there is one.
    pub fn prev_section(&mut self, sections: &Vec<Section>)
        ensures
            0 < old(self).section_index() <= sections@.len() ==> final(self).current_section
                == Some((old(self).section_index() - 1) as usize) && final(self).current_page
                == sections@[old(self).section_index() - 1].section_start_index as usize,
            old(self).section_index() == 0 || old(self).section_index() > sections@.len()
                ==> *final(self) == *old(self),
    {
        let current_idx = match self.current_section {
            Some(i) => i,
            None => 0,
        };
        if current_idx > 0 && current_idx <= sections.len() {
            self.current_page = sections[current_idx - 1].section_start_index as usize;
            self.current_section = Some(current_idx - 1);
        }
    }
}

/// A key, as far as the reader tells keys apart.
#[derive(Debug, Clone, Copy, PartialEq, Eq, Structural)]
pub enum Key {
    /// A key that stands for a character.
    Char(char),
    Esc,
    Left,
    Right,
    Home,
    End,
    PageUp,
    PageDown,
    /// Any other key.
    Other,
}

/// A key that was pressed, alone or with the control key.
#[derive(Debug, Clone, Copy, PartialEq, Eq, Structural)]
pub struct KeyPress {
    pub key: Key,
    pub control: bool,
}

/// What the front end does after a key.
#[derive(Debug, Clone, Copy, PartialEq, Eq, Structural)]
pub enum Command {
    /// Nothing.
    Ignore,
    /// Leave the reader.
    Quit,
    /// Draw the page that is now shown.
    Render,
    /// Show the help, then draw the page.
    ShowHelp,
    /// Show what the book holds, then draw the page.
    ShowInfo,
    /// Copy the page to the clipboard, say how that went, then draw the page.
    CopyPage,
    /// If the book has the page: play it if it is an animation, else say
    /// that it is none; then draw the page.
    Animate,
}

/// How many pages `Ctrl+j` and `Ctrl+k` go forward and back.
pub const PAGE_LEAP: usize = 10;

/// What a key makes of a position: the new position and what the front
/// end does. Keys that turn pages one by one keep the section up to date;
/// keys that leap leave it as it is.
pub open spec fn key_result(
    position: Position,
    press: KeyPress,
    page_count: u64,
    sections: Seq<Section>,
    animation_enabled: bool,
) -> (Position, Command) {
    let last = last_page(page_count);
    let turned = |page: int| Position { current_page: page as usize, ..position };
    match press.key {
        Key::Esc => (position, Command::Quit),
        Key::Right | Key::PageDown => (next_page_of(position, page_count, sections), Command::Render),
        Key::Left | Key::PageUp => (prev_page_of(position, sections), Command::Render),
        Key::Home => (turned(0), Command::Render),
        Key::End => (turned(last), Command::Render),
        Key::Other => (position, Command::Ignore),
        Key::Char(c) => if c == 'q' {
            (position, Command::Quit)
        } else if c == 'c' && press.control {
            (position, Command::Quit)
        } else if c == 'l' || c == ' ' {
            (next_page_of(position, page_count, sections), Command::Render)
        } else if c == 'h' {
            (prev_page_of(position, sections), Command::Render)
        } else if c == 'n' || c == ']' {
            (next_section_of(position, sections), Command::Render)
        } else if c == 'p' || c == '[' {
            (prev_section_of(position, sections), Command::Render)
        } else if c == 'g' {
            (turned(0), Command::Render)
        } else if c == 'G' {
            (turned(last), Command::Render)
        } else if c == 'j' && press.control {
            (turned(smaller(position.current_page + PAGE_LEAP, last)), Command::Render)
        } else if c == 'k' && press.control {
            (turned(minus(position.current_page as int, PAGE_LEAP as int)), Command::Render)
        } else if c == '?' {
            (position, Command::ShowHelp)
        } else if c == 'i' {
            (position, Command::ShowInfo)
        } else if c == 'y' {
            (position, Command::CopyPage)
        } else if c == 'a' && animation_enabled {
            (position, Command::Animate)
        } else {
            (position, Command::Ignore)
        },
    }
}

/// The position after going to the next page, if there is one.
pub open spec fn next_page_of(position: Position, page_count: u64, sections: Seq<Section>) -> Position {
    if position.current_page < last_page(page_count) {
        let moved = Position { current_page: (position.current_page + 1) as usize, ..position };
        Position { current_section: moved.section_of_page(sections), ..moved }
    } else {
        position
    }
}

/// The position after going to the previous page, if there is one.
pub open spec fn prev_page_of(position: Position, sections: Seq<Section>) -> Position {
    if position.current_page > 0 {
        let moved = Position { current_page: (position.current_page - 1) as usize, ..position };
        Position { current_section: moved.section_of_page(sections), ..moved }
    } else {
        position
    }
}

/// The position after going to the start of the next section, if there is one.
pub open spec fn next_section_of(position: Position, sections: Seq<Section>) -> Position {
    if position.section_index() + 1 < sections.len() {
        Position {
            current_page: sections[position.section_index() + 1].section_start_index as usize,
            current_section: Some((position.section_index() + 1) as usize),
        }
    } else {
        position
    }
}

/// The position after going to the start of the previous section, if
/// there is one.
pub open spec fn prev_section_of(position: Position, sections: Seq<Section>) -> Position {
    if 0 < position.section_index() <= sections.len() {
        Position {
            current_page: sections[position.section_index() - 1].section_start_index as usize,
            current_section: Some((position.section_index() - 1) as usize),
        }
    } else {
        position
    }
}

impl Position {
    /// Takes a key: moves in the book as the key says, and tells the front
    /// end what to do.
    pub fn handle_key(
        &mut self,
        press: KeyPress,
        page_count: u64,
        sections: &Vec<Section>,
        animation_enabled: bool,
    ) -> (r: Command)
        ensures
            (*final(self), r) == key_result(
                *old(self),
                press,
                page_count,
                sections@,
                animation_enabled,
            ),
    {
        let last: usize = if page_count == 0 {
            0
        } else if page_count - 1 > usize::MAX as u64 {
            usize::MAX
        } else {
            (page_count - 1) as usize
        };
        match press.key {
            Key::Esc => Command::Quit,
            Key::Right | Key::PageDown => {
                self.next_page(page_count, sections);
                Command::Render
            },
            Key::Left | Key::PageUp => {
                self.prev_page(sections);
                Command::Render
            },
            Key::Home => {
                self.current_page = 0;
                Command::Render
            },
            Key::End => {
                self.current_page = last;
                Command::Render
            },
            Key::Other => Command::Ignore,
            Key::Char(c) => {
                if c == 'q' {
                    Command::Quit
                } else if c == 'c' && press.control {
                    Command::Quit
                } else if c == 'l' || c == ' ' {
                    self.next_page(page_count, sections);
                    Command::Render
                } else if c == 'h' {
                    self.prev_page(sections);
                    Command::Render
                } else if c == 'n' || c == ']' {
                    self.next_section(sections);
                    Command::Render
                } else if c == 'p' || c == '[' {
                    self.prev_section(sections);
                    Command::Render
                } else if c == 'g' {
                    self.current_page = 0;
                    Command::Render
                } else if c == 'G' {
                    self.current_page = last;
                    Command::Render
                } else if c == 'j' && press.control {
                    self.current_page = if self.current_page < last && last - self.current_page
                        > PAGE_LEAP {
                        self.current_page + PAGE_LEAP
                    } else {
                        last
                    };
                    Command::Render
                } else if c == 'k' && press.control {
                    self.current_page = if self.current_page >= PAGE_LEAP {
                        self.current_page - PAGE_LEAP
                    } else {
                        0
                    };
                    Command::Render
                } else if c == '?' {
                    Command::ShowHelp
                } else if c == 'i' {
                    Command::ShowInfo
                } else if c == 'y' {
                    Command::CopyPage
                } else if c == 'a' && animation_enabled {
                    Command::Animate
                } else {
                    Command::Ignore
                }
            },
        }
    }
}

/// The text of the status bar: the page, counted from 1, and the number
/// of pages; the section's title where the page is in one; the keys.
pub open spec fn status_text(
    current_page: usize,
    page_count: u64,
    section_title: Option<Seq<char>>,
    animation_enabled: bool,
) -> Seq<char> {
    let page = "Page "@ + decimal((current_page + 1) as nat) + "/"@ + decimal(page_count as nat);
    let section = match section_title {
        Some(title) => " | Section: "@ + title,
        None => Seq::empty(),
    };
    let animation = if animation_enabled {
        " | [a: play GIF]"@
    } else {
        Seq::empty()
    };
    page + section + " | [h/l: page] [p/n: section] [q: quit] [?: help]"@ + animation
}

/// The text of the status bar.
pub fn status_line(
    current_page: usize,
    page_count: u64,
    section_title: Option<&str>,
    animation_enabled: bool,
) -> (r: String)
    requires
        current_page < usize::MAX,
    ensures
        r@ == status_text(current_page, page_count, opt_view(section_title), animation_enabled),
{
    let mut r = numbered_text("Page ", (current_page + 1) as u64, "/");
    r.append(decimal_string(page_count).as_str());
    if let Some(title) = section_title {
        r.append(" | Section: ");
        r.append(title);
    }
    r.append(" | [h/l: page] [p/n: section] [q: quit] [?: help]");
    if animation_enabled {
        r.append(" | [a: play GIF]");
    }
    assert(r@ =~= status_text(
        current_page,
        page_count,
        opt_view(section_title),
        animation_enabled,
    ));
    r
}

} // verus!
