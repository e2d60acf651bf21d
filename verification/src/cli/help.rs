//! Help texts.

use vstd::prelude::*;

verus! {

/// Colour scheme of the help output.
#[derive(Debug, Clone, Copy, PartialEq, Eq, Structural)]
pub enum RosePineVariant {
    Main,
    Moon,
    Dawn,
}

/// The terminal colours of one scheme, as ANSI colour numbers.
#[derive(Debug, Clone, Copy, PartialEq, Eq, Structural)]
pub struct HelpColors {
    /// Colour of the main heading.
    pub heading: u8,
    /// Colour of bold text.
    pub bold: u8,
    /// Colour of italic text.
    pub italic: u8,
    /// Colour of inline code.
    pub inline_code: u8,
    /// Colour of tables.
    pub table: u8,
}

impl RosePineVariant {
    /// The colours of the scheme.
    pub open spec fn spec_colors(self) -> HelpColors {
        match self {
            RosePineVariant::Main => HelpColors {
                heading: 183,
                bold: 181,
                italic: 152,
                inline_code: 222,
                table: 103,
            },
            RosePineVariant::Moon => HelpColors {
                heading: 183,
                bold: 174,
                italic: 152,
                inline_code: 222,
                table: 103,
            },
            RosePineVariant::Dawn => HelpColors {
                heading: 133,
                bold: 173,
                italic: 73,
                inline_code: 172,
                table: 103,
            },
        }
    }

    /// The colours of the scheme.
    pub fn colors(self) -> (r: HelpColors)
        ensures
            r == self.spec_colors(),
    {
        match self {
            RosePineVariant::Main => HelpColors {
                heading: 183,
                bold: 181,
                italic: 152,
                inline_code: 222,
                table: 103,
            },
            RosePineVariant::Moon => HelpColors {
                heading: 183,
                bold: 174,
                italic: 152,
                inline_code: 222,
                table: 103,
            },
            RosePineVariant::Dawn => HelpColors {
                heading: 133,
                bold: 173,
                italic: 73,
                inline_code: 172,
                table: 103,
            },
        }
    }
}

/// One example of the help output: a title, a command line, a comment.
pub struct Example {
    pub title: &'static str,
    pub cmd: &'static str,
    pub comments: &'static str,
}

impl Example {
    /// An example made of its three texts.
    pub fn new(title: &'static str, cmd: &'static str, comments: &'static str) -> (r: Example)
        ensures
            r.title@ == title@,
            r.cmd@ == cmd@,
            r.comments@ == comments@,
    {
        Example { title, cmd, comments }
    }
}

/// The examples that the help of the tool shows, in order.
pub fn examples() -> (r: Vec<Example>)
    ensures
        r@.len() == 3,
        r@[0].cmd@ == "boundbook create *.png -o book.bbf"@,
        r@[1].cmd@ == "boundbook read --prerender book.bbf"@,
        r@[2].cmd@ == "boundbook read book.bbf"@,
{
    let mut r: Vec<Example> = Vec::new();
    r.push(
        Example::new(
            "Create a new book from images",
            "boundbook create *.png -o book.bbf",
            "Makes a BBF archive from all PNG files in the current directory and stores it at \
             book.bbf",
        ),
    );
    r.push(
        Example::new(
            "Read a BBF file (with prerendering)",
            "boundbook read --prerender book.bbf",
            "Opens book.bbf, converts all the page images to sixel strings, and displays them in \
             a reader UI",
        ),
    );
    r.push(
        Example::new(
            "Read a BBF file (without prerendering)",
            "boundbook read book.bbf",
            "Opens book.bbf and displays the pages in a reader UI",
        ),
    );
    r
}

} // verus!
