//! The `from-cbz` command: a book from comic book archives. Here are its
//! arguments and what it decides between reading the archives and writing
//! the book: which archive entries are pages, in what order archives and
//! pages go, what the temporary files are called, and where each chapter
//! starts.

use vstd::prelude::*;
use vstd::string::StringExecFns;
use crate::error::{agrees, BbfError, Failure};
use crate::sort::{in_order, insertion_sort, may_precede, Ranked};
use crate::text::{
    contains, contains_text, decimal, decimal_string, lemma_not_after, lowercase_of, not_after,
    occurs_at, order_text, padded_decimal, padded_decimal_string, splitn, splitn_chars, starts_with,
    str_eq, string_views, text_order, to_lowercase, trim, trimmed, views, Order,
};
use crate::types::MediaType;

verus! {

/// What `from-cbz` is asked to do.
pub struct FromCbzArgs {
    /// Path of an archive, or of a directory of archives.
    pub input: String,
    /// Path of the file to write.
    pub output: String,
    /// Metadata to add, each as `Key:Value[:Parent]`.
    pub metadata: Vec<String>,
    /// Keep the temporary files.
    pub keep_temp: bool,
    /// Treat the input as a directory of archives, one chapter each.
    pub directory_mode: bool,
}

/// Whether the input is read as a directory of archives: it is one, or
/// `directory_mode` says so; in the second case it has to be one.
pub open spec fn reads_directory_spec(
    input_is_dir: bool,
    directory_mode: bool,
    input: Seq<char>,
) -> Result<
    bool,
    Failure,
> {
    if input_is_dir {
        Ok(true)
    } else if directory_mode {
        Err(Failure::Other("Input is not a directory: "@ + input))
    } else {
        Ok(false)
    }
}

impl FromCbzArgs {
    /// Whether the input is read as a directory of archives.
    pub fn reads_directory(&self, input_is_dir: bool) -> (r: Result<bool, BbfError>)
        ensures
            agrees(r, reads_directory_spec(input_is_dir, self.directory_mode, self.input@)),
    {
        if input_is_dir {
            Ok(true)
        } else if self.directory_mode {
            let mut message = "Input is not a directory: ".to_owned();
            message.append(self.input.as_str());
            Err(BbfError::Other { message })
        } else {
            Ok(false)
        }
    }
}

/// The key, the value and the parent that `Key:Value[:Parent]` names, each
/// without the white space around it.
pub open spec fn metadata_of(s: Seq<char>) -> Option<(Seq<char>, Seq<char>, Option<Seq<char>>)> {
    let parts = splitn(s, 3, ':');
    if parts.len() >= 2 {
        Some(
            (
                trimmed(parts[0]),
                trimmed(parts[1]),
                if parts.len() >= 3 {
                    Some(trimmed(parts[2]))
                } else {
                    None
                },
            ),
        )
    } else {
        None
    }
}

/// Reads `Key:Value[:Parent]`.
pub fn parse_metadata(s: &str) -> (r: Option<(String, String, Option<String>)>)
    ensures
        r matches Some(m) ==> metadata_of(s@) == Some(
            (m.0@, m.1@, crate::cli::extract::opt_string_view(m.2)),
        ),
        r is None ==> metadata_of(s@) is None,
{
    let parts = splitn_chars(s, 3, ':');
    if parts.len() >= 2 {
        proof {
            assert(views(parts@)[0] == parts@[0]@);
            assert(views(parts@)[1] == parts@[1]@);
            if parts.len() >= 3 {
                assert(views(parts@)[2] == parts@[2]@);
            }
        }
        let parent = if parts.len() >= 3 {
            Some(trim(parts[2]).to_owned())
        } else {
            None
        };
        Some((trim(parts[0]).to_owned(), trim(parts[1]).to_owned(), parent))
    } else {
        None
    }
}

/// Whether a file with this extension is a comic book archive: `cbz` or
/// `zip`, in any case.
pub fn is_cbz_file(extension: Option<&str>) -> (r: bool)
    ensures
        r == (extension matches Some(e) && (lowercase_of(e@) == "cbz"@ || lowercase_of(e@)
            == "zip"@)),
{
    match extension {
        Some(e) => {
            let lower = to_lowercase(e);
            str_eq(lower.as_str(), "cbz") || str_eq(lower.as_str(), "zip")
        },
        None => false,
    }
}

/// Whether an archive entry is left out whatever its type: a directory, a
/// hidden file, or a file of the resource forks that macOS adds.
pub open spec fn entry_is_skipped(name: Seq<char>, is_dir: bool) -> bool {
    is_dir || occurs_at(name, "."@, 0) || occurs_at(name, "__MACOSX"@, 0) || contains_text(
        name,
        "/."@,
    )
}

/// The media type of an archive entry that is a page; none for an entry
/// that is left out or is no image.
pub open spec fn page_entry_type(
    name: Seq<char>,
    is_dir: bool,
    extension: Option<Seq<char>>,
) -> Option<
    MediaType,
> {
    let media_type = match extension {
        Some(e) => MediaType::of_extension(e),
        None => MediaType::of_extension(Seq::empty()),
    };
    if entry_is_skipped(name, is_dir) || media_type == MediaType::Unknown {
        None
    } else {
        Some(media_type)
    }
}

/// The media type of an archive entry that is a page. `extension` is the
/// extension of the entry's name, if it has one.
pub fn archive_page_type(
    name: &str,
    is_dir: bool,
    extension: Option<&str>,
) -> (r: Option<MediaType>)
    ensures
        r == page_entry_type(name@, is_dir, crate::builder::opt_view(extension)),
{
    if is_dir || starts_with(name, ".") || starts_with(name, "__MACOSX") || contains(name, "/.") {
        return None;
    }
    let media_type = match extension {
        Some(e) => MediaType::from_extension(e),
        None => {
            proof {
                reveal_strlit("");
                assert(""@ =~= Seq::<char>::empty());
            }
            MediaType::from_extension("")
        },
    };
    if media_type == MediaType::Unknown {
        None
    } else {
        Some(media_type)
    }
}

/// The name of the temporary file of page `index` of a chapter.
pub open spec fn temp_page_name_spec(index: u64, media_type: MediaType) -> Seq<char> {
    "page_"@ + padded_decimal(index as nat, 4) + media_type.extension()
}

/// The name of the temporary file of page `index` of a chapter.
pub fn temp_page_name(index: u64, media_type: MediaType) -> (r: String)
    ensures
        r@ == temp_page_name_spec(index, media_type),
{
    let mut r = "page_".to_owned();
    r.append(padded_decimal_string(index, 4).as_str());
    r.append(media_type.as_extension());
    r
}

/// The name of the temporary directory of chapter `index`.
pub fn chapter_dir_name(index: u64) -> (r: String)
    ensures
        r@ == "chapter_"@ + padded_decimal(index as nat, 3),
{
    let mut r = "chapter_".to_owned();
    r.append(padded_decimal_string(index, 3).as_str());
    r
}

/// The name of the temporary directory of a conversion started at `seconds`.
pub fn temp_dir_name(seconds: u64) -> (r: String)
    ensures
        r@ == "cbz_convert_"@ + decimal(seconds as nat),
{
    let mut r = "cbz_convert_".to_owned();
    r.append(decimal_string(seconds).as_str());
    r
}

/// The name of a chapter: the stem of its archive's file name, or
/// `Chapter` and its number where the archive has none.
pub fn chapter_name(stem: Option<&str>, chapter_index: u64) -> (r: String)
    requires
        chapter_index < u64::MAX,
    ensures
        r@ == (match stem {
            Some(s) => s@,
            None => "Chapter "@ + decimal((chapter_index + 1) as nat),
        }),
{
    match stem {
        Some(s) => s.to_owned(),
        None => {
            let mut r = "Chapter ".to_owned();
            r.append(decimal_string(chapter_index + 1).as_str());
            r
        },
    }
}

/// The index of the first page of each chapter, where the chapters have
/// the given numbers of pages and follow each other.
pub open spec fn first_pages(page_counts: Seq<usize>) -> Seq<int>
    decreases page_counts.len(),
{
    if page_counts.len() == 0 {
        Seq::empty()
    } else {
        first_pages(page_counts.drop_last()).push(total_pages(page_counts.drop_last()))
    }
}

/// The number of pages of all chapters together.
pub open spec fn total_pages(page_counts: Seq<usize>) -> int
    decreases page_counts.len(),
{
    if page_counts.len() == 0 {
        0
    } else {
        total_pages(page_counts.drop_last()) + page_counts.last()
    }
}

/// The index of the first page of each chapter. There are none where the
/// pages of all chapters cannot be counted in 64 bits.
pub fn chapter_first_pages(page_counts: &Vec<usize>) -> (r: Option<Vec<u64>>)
    ensures
        r matches Some(v) ==> v@.len() == page_counts@.len() && total_pages(page_counts@)
            <= u64::MAX && forall|i: int|
            0 <= i < v@.len() ==> #[trigger] v@[i] == first_pages(page_counts@)[i],
        r is None ==> total_pages(page_counts@) > u64::MAX,
{
    let mut v: Vec<u64> = Vec::new();
    let mut total: u64 = 0;
    let mut i: usize = 0;
    assert(page_counts@.take(0) =~= Seq::<usize>::empty());
    while i < page_counts.len()
        invariant
            i <= page_counts.len(),
            v@.len() == i,
            total == total_pages(page_counts@.take(i as int)),
            forall|k: int|
                0 <= k < i ==> #[trigger] v@[k] == first_pages(page_counts@.take(i as int))[k],
            first_pages(page_counts@.take(i as int)).len() == i,
        decreases page_counts.len() - i,
    {
        proof {
            assert(page_counts@.take(i + 1).drop_last() =~= page_counts@.take(i as int));
            lemma_total_pages_grows(page_counts@, i + 1);
        }
        v.push(total);
        total = match total.checked_add(page_counts[i] as u64) {
            Some(t) => t,
            None => {
                return None;
            },
        };
        i = i + 1;
    }
    assert(page_counts@.take(i as int) =~= page_counts@);
    Some(v)
}

/// The pages of the first chapters are no more than the pages of all.
pub proof fn lemma_total_pages_grows(page_counts: Seq<usize>, k: int)
    requires
        0 <= k <= page_counts.len(),
    ensures
        total_pages(page_counts.take(k)) <= total_pages(page_counts),
    decreases page_counts.len() - k,
{
    if k < page_counts.len() {
        lemma_total_pages_grows(page_counts.drop_last(), k);
        assert(page_counts.drop_last().take(k) =~= page_counts.take(k));
    } else {
        assert(page_counts.take(k) =~= page_counts);
    }
}

/// How two names stand to each other where runs of digits count as
/// numbers, so that `ch2` comes before `ch10`.
pub uninterp spec fn alphanumeric_order(a: Seq<char>, b: Seq<char>) -> Order;

/// `alphanumeric_sort::compare_str`: the result depends on the two names only.
#[verifier::external_body]
fn compare_str(a: &str, b: &str) -> (r: Order)
    ensures
        r == alphanumeric_order(a@, b@),
{
    match alphanumeric_sort::compare_str(a, b) {
        core::cmp::Ordering::Less => Order::Less,
        core::cmp::Ordering::Equal => Order::Equal,
        core::cmp::Ordering::Greater => Order::Greater,
    }
}

/// An archive that becomes a chapter of the book.
#[derive(Debug)]
pub struct ChapterFile {
    /// Path of the archive.
    pub path: String,
}

impl Ranked for ChapterFile {
    /// An archive comes after another where its path does, with runs of
    /// digits counted as numbers.
    open spec fn after(&self, other: &ChapterFile) -> bool {
        alphanumeric_order(self.path@, other.path@) == Order::Greater
    }

    fn is_after(&self, other: &ChapterFile) -> (r: bool) {
        compare_str(self.path.as_str(), other.path.as_str()) == Order::Greater
    }
}

/// Puts the archives of a directory in the order of their chapters: by
/// path, with runs of digits counted as numbers. The list holds the same
/// archives afterwards, and none comes after the one that follows it,
/// unless that one comes after it as well.
pub fn sort_chapter_files(files: &mut Vec<ChapterFile>)
    ensures
        final(files)@.to_multiset() == old(files)@.to_multiset(),
        final(files)@.len() == old(files)@.len(),
        in_order(final(files)@),
{
    insertion_sort(files);
}

/// An entry of an archive that is a page of the book.
#[derive(Debug)]
pub struct ArchivePage {
    /// Index of the entry in the archive.
    pub index: usize,
    /// Name of the entry.
    pub name: String,
    /// Media type that the name's extension stands for.
    pub media_type: MediaType,
}

impl Ranked for ArchivePage {
    /// A page comes after another where its name does, as strings are ordered.
    open spec fn after(&self, other: &ArchivePage) -> bool {
        !not_after(self.name@, other.name@)
    }

    fn is_after(&self, other: &ArchivePage) -> (r: bool) {
        order_text(self.name.as_str(), other.name.as_str()) == Order::Greater
    }
}

/// Whether no page stands before one whose name comes before its own.
pub open spec fn sorted_by_name(pages: Seq<ArchivePage>) -> bool {
    forall|i: int, j: int|
        0 <= i < j < pages.len() ==> not_after(#[trigger] pages[i].name@, #[trigger] pages[j].name@)
}

/// Pages of which each may stand before the next are sorted by name: the
/// order of strings is total and transitive.
pub proof fn lemma_in_order_sorted(pages: Seq<ArchivePage>, i: int, j: int)
    requires
        in_order(pages),
        0 <= i < j < pages.len(),
    ensures
        not_after(pages[i].name@, pages[j].name@),
    decreases j - i,
{
    assert(may_precede(pages[j - 1], pages[j]));
    lemma_not_after(pages[j - 1].name@, pages[j].name@, pages[j].name@);
    if i < j - 1 {
        lemma_in_order_sorted(pages, i, j - 1);
        lemma_not_after(pages[i].name@, pages[j - 1].name@, pages[j].name@);
    }
}

/// Puts the pages of an archive in reading order: by name.
pub fn sort_archive_pages(pages: &mut Vec<ArchivePage>)
    ensures
        final(pages)@.to_multiset() == old(pages)@.to_multiset(),
        final(pages)@.len() == old(pages)@.len(),
        sorted_by_name(final(pages)@),
{
    insertion_sort(pages);
    proof {
        assert forall|i: int, j: int| 0 <= i < j < pages@.len() implies not_after(
            #[trigger] pages@[i].name@,
            #[trigger] pages@[j].name@,
        ) by {
            lemma_in_order_sorted(pages@, i, j);
        }
    }
}

} // verus!
