//! The `create` command: a book from image files. Here are its arguments
//! and what it decides before it reads a file: how section and metadata
//! arguments are read, how an order file is read, and in what order the
//! pages go into the book.

use std::cmp::Ordering;
use vstd::prelude::*;
use vstd::string::StrSliceExecFns;
use crate::error::{agrees, BbfError, Failure};
use crate::sort::{in_order, insertion_sort, Ranked};
use crate::text::{
    after_last, all_digits, chars_of, is_all_digits, lemma_after_last, opt_agrees, order_text,
    parse_number, parse_unsigned, split, split_chars, splitn, splitn_chars, str_eq, text_order,
    trim, trimmed, unquoted, views, Order,
};
use crate::types::{MediaType, BBF_VARIABLE_REAM_SIZE_FLAG};

verus! {

/// What `create` is asked to do.
pub struct CreateArgs {
    /// Input files, or directories that hold images.
    pub inputs: Vec<String>,
    /// Path of the file to write.
    pub output: String,
    /// Path of a page order file, with lines `filename:index`.
    pub order: Option<String>,
    /// Path of a sections file, with lines `Name:Target[:Parent]`.
    pub sections: Option<String>,
    /// Sections to add, each as `Name:Target[:Parent]`.
    pub add_sections: Vec<String>,
    /// Metadata to add, each as `Key:Value[:Parent]`.
    pub metadata: Vec<String>,
    /// Alignment exponent.
    pub alignment: u8,
    /// Small-asset threshold exponent.
    pub ream_size: u8,
    /// Pack small assets.
    pub variable_ream_size: bool,
    /// Make a section of each subdirectory that holds images.
    pub auto_detect_sections: bool,
}

impl CreateArgs {
    /// The header flags of the book: small assets are packed where asked for.
    pub open spec fn spec_header_flags(&self) -> u32 {
        if self.variable_ream_size {
            BBF_VARIABLE_REAM_SIZE_FLAG
        } else {
            0
        }
    }

    /// The header flags of the book: small assets are packed where asked for.
    pub fn header_flags(&self) -> (r: u32)
        ensures
            r == self.spec_header_flags(),
    {
        if self.variable_ream_size {
            BBF_VARIABLE_REAM_SIZE_FLAG
        } else {
            0
        }
    }
}

/// A page that is to go into the book.
#[derive(Debug)]
pub struct PagePlan {
    /// Path of the image file.
    pub path: String,
    /// Name of the image file, without its directories.
    pub filename: String,
    /// Place given by the order file; 0 for none.
    pub order: i32,
    /// Section that the page's directory stands for, if any.
    pub section: Option<String>,
}

impl PagePlan {
    /// A page without a place of its own.
    pub fn new(path: String, filename: String, section: Option<String>) -> (r: PagePlan)
        ensures
            r.path == path,
            r.filename == filename,
            r.order == 0,
            r.section == section,
    {
        PagePlan { path, filename, order: 0, section }
    }
}

/// A section asked for on the command line or in a sections file.
#[derive(Debug)]
pub struct SectionRequest {
    /// Title of the section.
    pub name: String,
    /// Where the section starts: a page number, or the name of a file.
    pub target: String,
    /// Title of the parent section.
    pub parent: Option<String>,
    /// Whether the target is the name of a file.
    pub is_filename: bool,
}

/// A [`SectionRequest`], with its texts as characters.
pub struct SectionRequestView {
    pub name: Seq<char>,
    pub target: Seq<char>,
    pub parent: Option<Seq<char>>,
    pub is_filename: bool,
}

impl View for SectionRequest {
    type V = SectionRequestView;

    open spec fn view(&self) -> SectionRequestView {
        SectionRequestView {
            name: self.name@,
            target: self.target@,
            parent: match self.parent {
                Some(p) => Some(p@),
                None => None,
            },
            is_filename: self.is_filename,
        }
    }
}

/// A key/value pair asked for on the command line.
#[derive(Debug)]
pub struct MetadataRequest {
    /// The key.
    pub key: String,
    /// The value.
    pub value: String,
    /// Title of the section that the pair belongs to.
    pub parent: Option<String>,
}

/// A [`MetadataRequest`], with its texts as characters.
pub struct MetadataRequestView {
    pub key: Seq<char>,
    pub value: Seq<char>,
    pub parent: Option<Seq<char>>,
}

impl View for MetadataRequest {
    type V = MetadataRequestView;

    open spec fn view(&self) -> MetadataRequestView {
        MetadataRequestView {
            key: self.key@,
            value: self.value@,
            parent: match self.parent {
                Some(p) => Some(p@),
                None => None,
            },
        }
    }
}

/// `s` without the white space around it and then without the double
/// quotes around what is left.
pub open spec fn trim_quotes_spec(s: Seq<char>) -> Seq<char> {
    unquoted(trimmed(s))
}

/// `s` without the white space around it and then without the double
/// quotes around what is left.
pub fn trim_quotes(s: &str) -> (r: String)
    ensures
        r@ == trim_quotes_spec(s@),
{
    let t = trim(s);
    let cs = chars_of(t);
    let n = cs.len();
    if n >= 2 && cs[0] == '"' && cs[n - 1] == '"' {
        t.substring_char(1, n - 1).to_owned()
    } else {
        t.to_owned()
    }
}

/// The section that `Name:Target[:Parent]` asks for. Parts after the third
/// are ignored; fewer than two parts ask for nothing. A target that is not
/// made of digits alone is the name of a file.
pub open spec fn section_request_of(s: Seq<char>) -> Option<SectionRequestView> {
    let parts = split(s, ':');
    if parts.len() < 2 {
        None
    } else {
        Some(
            SectionRequestView {
                name: trim_quotes_spec(parts[0]),
                target: trim_quotes_spec(parts[1]),
                parent: if parts.len() >= 3 {
                    Some(trim_quotes_spec(parts[2]))
                } else {
                    None
                },
                is_filename: !all_digits(trim_quotes_spec(parts[1])),
            },
        )
    }
}

/// Reads `Name:Target[:Parent]`.
pub fn parse_section_string(s: &str) -> (r: Option<SectionRequest>)
    ensures
        opt_agrees(r, section_request_of(s@)),
{
    let parts = split_chars(s, ':');
    if parts.len() < 2 {
        return None;
    }
    proof {
        assert(views(parts@)[0] == parts@[0]@);
        assert(views(parts@)[1] == parts@[1]@);
        if parts.len() >= 3 {
            assert(views(parts@)[2] == parts@[2]@);
        }
    }
    let name = trim_quotes(parts[0]);
    let target = trim_quotes(parts[1]);
    let parent = if parts.len() >= 3 {
        Some(trim_quotes(parts[2]))
    } else {
        None
    };
    let is_filename = !is_all_digits(target.as_str());
    Some(SectionRequest { name, target, parent, is_filename })
}

/// The pair that `Key:Value[:Parent]` asks for. The parent is all that
/// follows the second colon; without a colon nothing is asked for.
pub open spec fn metadata_request_of(s: Seq<char>) -> Option<MetadataRequestView> {
    let parts = splitn(s, 3, ':');
    if parts.len() < 2 {
        None
    } else {
        Some(
            MetadataRequestView {
                key: trim_quotes_spec(parts[0]),
                value: trim_quotes_spec(parts[1]),
                parent: if parts.len() >= 3 {
                    Some(trim_quotes_spec(parts[2]))
                } else {
                    None
                },
            },
        )
    }
}

/// Reads `Key:Value[:Parent]`.
pub fn parse_metadata_string(s: &str) -> (r: Option<MetadataRequest>)
    ensures
        opt_agrees(r, metadata_request_of(s@)),
{
    let parts = splitn_chars(s, 3, ':');
    if parts.len() < 2 {
        return None;
    }
    proof {
        assert(views(parts@)[0] == parts@[0]@);
        assert(views(parts@)[1] == parts@[1]@);
        if parts.len() >= 3 {
            assert(views(parts@)[2] == parts@[2]@);
        }
    }
    let parent = if parts.len() >= 3 {
        Some(trim_quotes(parts[2]))
    } else {
        None
    };
    Some(MetadataRequest { key: trim_quotes(parts[0]), value: trim_quotes(parts[1]), parent })
}

/// Whether a file with this extension is an image that a book can hold.
pub fn is_image_file(extension: Option<&str>) -> (r: bool)
    ensures
        r == (extension matches Some(e) && MediaType::of_extension(e@) != MediaType::Unknown),
{
    match extension {
        Some(e) => MediaType::from_extension(e) != MediaType::Unknown,
        None => false,
    }
}

/// The page index that a section request points at. `page_of_target` is
/// the index of the page whose file has the target's name, if there is
/// one. A page number counts from 1.
pub open spec fn section_target_of(
    section: SectionRequestView,
    page_of_target: Option<u64>,
) -> Result<
    u64,
    Failure,
> {
    if section.is_filename {
        match page_of_target {
            Some(page) => Ok(page),
            None => Err(
                Failure::Other(
                    "Section target file '"@ + section.target + "' not found in pages"@,
                ),
            ),
        }
    } else {
        match parse_unsigned(section.target, u64::MAX as nat) {
            None => Err(Failure::Other("Invalid page number"@)),
            Some(n) => if n == 0 {
                Err(Failure::Other("Page number must be at least 1"@))
            } else {
                Ok((n - 1) as u64)
            },
        }
    }
}

/// The page index that a section request points at.
pub fn resolve_section_target(section: &SectionRequest, page_of_target: Option<u64>) -> (r: Result<
    u64,
    BbfError,
>)
    ensures
        agrees(r, section_target_of(section@, page_of_target)),
{
    if section.is_filename {
        match page_of_target {
            Some(page) => Ok(page),
            None => {
                let mut message = "Section target file '".to_owned();
                vstd::string::StringExecFns::append(&mut message, section.target.as_str());
                vstd::string::StringExecFns::append(&mut message, "' not found in pages");
                Err(BbfError::Other { message })
            },
        }
    } else {
        match parse_number(section.target.as_str(), u64::MAX) {
            None => Err(BbfError::other("Invalid page number")),
            Some(n) => if n == 0 {
                Err(BbfError::other("Page number must be at least 1"))
            } else {
                Ok(n - 1)
            },
        }
    }
}

/// How two pages stand to each other in a book. Pages of two different
/// sections go by the sections' names. Otherwise pages with a place given
/// go first, by their places, and the others follow by their file names.
pub open spec fn page_order(a: PagePlan, b: PagePlan) -> Order {
    if a.section is Some && b.section is Some && a.section->0@ != b.section->0@ {
        text_order(a.section->0@, b.section->0@)
    } else if a.order > 0 && b.order > 0 {
        if a.order < b.order {
            Order::Less
        } else if a.order == b.order {
            Order::Equal
        } else {
            Order::Greater
        }
    } else if a.order > 0 {
        Order::Less
    } else if b.order > 0 {
        Order::Greater
    } else {
        text_order(a.filename@, b.filename@)
    }
}

/// An [`Order`] as the standard library names it.
pub open spec fn ordering_of(o: Order) -> Ordering {
    match o {
        Order::Less => Ordering::Less,
        Order::Equal => Ordering::Equal,
        Order::Greater => Ordering::Greater,
    }
}

/// An [`Order`] as the standard library names it.
pub fn to_ordering(o: Order) -> (r: Ordering)
    ensures
        r == ordering_of(o),
{
    match o {
        Order::Less => Ordering::Less,
        Order::Equal => Ordering::Equal,
        Order::Greater => Ordering::Greater,
    }
}

/// How two pages stand to each other in a book.
pub fn order_pages(a: &PagePlan, b: &PagePlan) -> (r: Order)
    ensures
        r == page_order(*a, *b),
{
    let by_section: Option<Order> = match (&a.section, &b.section) {
        (Some(x), Some(y)) => if str_eq(x.as_str(), y.as_str()) {
            None
        } else {
            Some(order_text(x.as_str(), y.as_str()))
        },
        _ => None,
    };
    match by_section {
        Some(o) => o,
        None => if a.order > 0 && b.order > 0 {
            if a.order < b.order {
                Order::Less
            } else if a.order == b.order {
                Order::Equal
            } else {
                Order::Greater
            }
        } else if a.order > 0 {
            Order::Less
        } else if b.order > 0 {
            Order::Greater
        } else {
            order_text(a.filename.as_str(), b.filename.as_str())
        },
    }
}

/// How two pages stand to each other in a book, in the terms of the
/// standard library.
pub fn compare_pages(a: &PagePlan, b: &PagePlan) -> (r: Ordering)
    ensures
        r == ordering_of(page_order(*a, *b)),
{
    to_ordering(order_pages(a, b))
}

impl Ranked for PagePlan {
    /// A page comes after another where the order of pages says so.
    open spec fn after(&self, other: &PagePlan) -> bool {
        page_order(*self, *other) == Order::Greater
    }

    fn is_after(&self, other: &PagePlan) -> (r: bool) {
        order_pages(self, other) == Order::Greater
    }
}

/// Puts the pages of a book in their order. The list holds the same pages
/// afterwards, and no page comes after the one that follows it, unless
/// that one comes after it as well: the order of pages is not an order in
/// the strict sense where some pages stand in a section and others do not.
pub fn sort_pages(plans: &mut Vec<PagePlan>)
    ensures
        final(plans)@.to_multiset() == old(plans)@.to_multiset(),
        final(plans)@.len() == old(plans)@.len(),
        in_order(final(plans)@),
{
    insertion_sort(plans);
}

/// What a line of an order file says: a file name and its place. The
/// place is what follows the last colon; a line without a colon gives its
/// file the place 0; an empty line, or one whose place is no number, says
/// nothing.
pub open spec fn order_line_of(line: Seq<char>) -> Option<(Seq<char>, int)> {
    let t = trimmed(line);
    let k = after_last(t, ':');
    if t.len() == 0 {
        None
    } else if k == 0 {
        Some((trim_quotes_spec(t), 0int))
    } else {
        match crate::text::parse_signed_32(t.skip(k)) {
            Some(n) => Some((trim_quotes_spec(t.take(k - 1)), n)),
            None => None,
        }
    }
}

/// Reads a line of an order file.
pub fn parse_order_line(line: &str) -> (r: Option<(String, i32)>)
    ensures
        r matches Some(e) ==> order_line_of(line@) == Some((e.0@, e.1 as int)),
        r is None ==> order_line_of(line@) is None,
{
    let t = trim(line);
    let cs = chars_of(t);
    let n = cs.len();
    if n == 0 {
        return None;
    }
    let mut k: usize = n;
    while k > 0 && cs[k - 1] != ':'
        invariant
            k <= n,
            n == cs@.len(),
            forall|j: int| k <= j < n ==> cs@[j] != ':',
        decreases k,
    {
        k = k - 1;
    }
    proof {
        lemma_after_last(t@, ':', k as int);
    }
    if k == 0 {
        return Some((trim_quotes(t), 0));
    }
    let name = t.substring_char(0, k - 1);
    let place = t.substring_char(k, n);
    proof {
        assert(name@ =~= t@.take(k - 1));
        assert(place@ =~= t@.skip(k as int));
    }
    match crate::text::parse_i32(place) {
        Some(order) => Some((trim_quotes(name), order)),
        None => None,
    }
}

/// The entries of an order file, with their texts as characters.
pub open spec fn entry_views(entries: Seq<(String, i32)>) -> Seq<(Seq<char>, int)> {
    Seq::new(entries.len(), |i: int| (entries[i].0@, entries[i].1 as int))
}

/// What the lines of an order file say, in order.
pub open spec fn order_entries(lines: Seq<Seq<char>>) -> Seq<(Seq<char>, int)>
    decreases lines.len(),
{
    if lines.len() == 0 {
        Seq::empty()
    } else {
        match order_line_of(lines.last()) {
            Some(e) => order_entries(lines.drop_last()).push(e),
            None => order_entries(lines.drop_last()),
        }
    }
}

/// Reads an order file: one entry for each line that says something. Where
/// a file name occurs twice, the later entry is the one that counts.
pub fn parse_order_file(content: &str) -> (r: Vec<(String, i32)>)
    ensures
        entry_views(r@) == order_entries(split(content@, '\n')),
{
    let lines = split_chars(content, '\n');
    let mut r: Vec<(String, i32)> = Vec::new();
    let mut i: usize = 0;
    assert(views(lines@).take(0) =~= Seq::<Seq<char>>::empty());
    assert(entry_views(r@) =~= order_entries(views(lines@).take(0)));
    while i < lines.len()
        invariant
            i <= lines.len(),
            entry_views(r@) == order_entries(views(lines@).take(i as int)),
        decreases lines.len() - i,
    {
        let ghost before = entry_views(r@);
        proof {
            assert(views(lines@).take(i + 1).drop_last() =~= views(lines@).take(i as int));
            assert(views(lines@).take(i + 1).last() == lines@[i as int]@);
        }
        match parse_order_line(lines[i]) {
            Some(e) => {
                r.push(e);
                assert(entry_views(r@) =~= before.push((e.0@, e.1 as int)));
            },
            None => {},
        }
        i = i + 1;
    }
    assert(views(lines@).take(lines.len() as int) =~= views(lines@));
    r
}

/// The sections of a list, with their texts as characters.
pub open spec fn section_views(sections: Seq<SectionRequest>) -> Seq<SectionRequestView> {
    Seq::new(sections.len(), |i: int| sections[i]@)
}

/// What the lines of a sections file ask for, in order. A line is read
/// without the white space around it; an empty line asks for nothing.
pub open spec fn section_requests(lines: Seq<Seq<char>>) -> Seq<SectionRequestView>
    decreases lines.len(),
{
    if lines.len() == 0 {
        Seq::empty()
    } else if trimmed(lines.last()).len() == 0 {
        section_requests(lines.drop_last())
    } else {
        match section_request_of(trimmed(lines.last())) {
            Some(e) => section_requests(lines.drop_last()).push(e),
            None => section_requests(lines.drop_last()),
        }
    }
}

/// Reads a sections file: one section for each line that asks for one.
pub fn parse_sections_file(content: &str) -> (r: Vec<SectionRequest>)
    ensures
        section_views(r@) == section_requests(split(content@, '\n')),
{
    let lines = split_chars(content, '\n');
    let mut r: Vec<SectionRequest> = Vec::new();
    let mut i: usize = 0;
    assert(views(lines@).take(0) =~= Seq::<Seq<char>>::empty());
    assert(section_views(r@) =~= section_requests(views(lines@).take(0)));
    while i < lines.len()
        invariant
            i <= lines.len(),
            section_views(r@) == section_requests(views(lines@).take(i as int)),
        decreases lines.len() - i,
    {
        let ghost before = section_views(r@);
        proof {
            assert(views(lines@).take(i + 1).drop_last() =~= views(lines@).take(i as int));
            assert(views(lines@).take(i + 1).last() == lines@[i as int]@);
        }
        let line = trim(lines[i]);
        if chars_of(line).len() > 0 {
            match parse_section_string(line) {
                Some(e) => {
                    let ghost v = e@;
                    r.push(e);
                    assert(section_views(r@) =~= before.push(v));
                },
                None => {},
            }
        }
        i = i + 1;
    }
    assert(views(lines@).take(lines.len() as int) =~= views(lines@));
    r
}

} // verus!
