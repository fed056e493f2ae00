//! Source positions, and the table of source files that gives each file
//! its range of positions.

use vstd::prelude::*;

verus! {

/// An offset into the concatenation of all source files; 0 stands for "no
/// position".
pub type Pos = usize;

/// Number of bytes that the text `s` takes in UTF-8.
pub open spec fn byte_len(s: Seq<char>) -> nat {
    vstd::utf8::encode_utf8(s).len()
}

/// The file set of the parser crate.
#[verifier::external_type_specification]
#[verifier::external_body]
pub struct ExFileSet(goscript_parser::position::FileSet);

/// The files of a file set, in the order in which they were added: for
/// each its name, its base and its size.
pub uninterp spec fn file_set_entries(fset: goscript_parser::position::FileSet) -> Seq<
    (Seq<char>, int, int),
>;

/// A file of the source table: its name and the range of positions that
/// belong to it, from `base` to `base + size`, both included.
#[derive(Debug)]
pub struct SourceFile {
    pub name: String,
    pub base: usize,
    pub size: usize,
}

impl SourceFile {
    /// The file as an entry of a file set.
    pub open spec fn entry(self) -> (Seq<char>, int, int) {
        (self.name@, self.base as int, self.size as int)
    }
}

/// Reads the files out of a file set with `FileSet::iter`, and of each file
/// its `name`, `base` and `size`. The contract only names what was read.
#[verifier::external_body]
fn file_set_files(fset: &goscript_parser::position::FileSet) -> (files: Vec<SourceFile>)
    ensures
        files@.map_values(|f: SourceFile| f.entry()) == file_set_entries(*fset),
{
    fset.iter().map(
        |f| SourceFile { name: f.name().to_string(), base: f.base(), size: f.size() },
    ).collect()
}

/// The position `p` belongs to the entry `e`, and the entry's range fits
/// the machine word.
pub open spec fn entry_holds(e: (Seq<char>, int, int), p: int) -> bool {
    e.1 <= p <= e.1 + e.2 <= usize::MAX
}

/// The index of the first entry from `from` on that holds `p`.
pub open spec fn find_entry(entries: Seq<(Seq<char>, int, int)>, p: int, from: int) -> Option<int>
    decreases entries.len() - from,
{
    if from < 0 || from >= entries.len() {
        None
    } else if entry_holds(entries[from], p) {
        Some(from)
    } else {
        find_entry(entries, p, from + 1)
    }
}

/// The entry of the file that `p` belongs to: the first entry of the file
/// set that holds `p`.
pub open spec fn entry_at(entries: Seq<(Seq<char>, int, int)>, p: int) -> Option<
    (Seq<char>, int, int),
> {
    match find_entry(entries, p, 0) {
        Some(i) => Some(entries[i]),
        None => None,
    }
}

/// The file of `fset` that the position `p` belongs to.
pub fn source_file_at(fset: &goscript_parser::position::FileSet, p: Pos) -> (r: Option<SourceFile>)
    ensures
        match entry_at(file_set_entries(*fset), p as int) {
            Some(e) => r is Some && r->0.entry() == e && e.1 + e.2 <= usize::MAX,
            None => r is None,
        },
{
    let mut files = file_set_files(fset);
    let ghost entries = file_set_entries(*fset);
    let mut i: usize = 0;
    while i < files.len()
        invariant
            i <= files.len(),
            entries == file_set_entries(*fset),
            files@.map_values(|f: SourceFile| f.entry()) == entries,
            find_entry(entries, p as int, 0) == find_entry(entries, p as int, i as int),
        decreases files.len() - i,
    {
        let base = files[i].base;
        let size = files[i].size;
        assert(entries[i as int] == files@[i as int].entry());
        if base <= p && p - base <= size && size <= usize::MAX - base {
            assert(entry_holds(entries[i as int], p as int));
            let f = files.remove(i);
            assert(f.entry() == entries[i as int]);
            return Some(f);
        }
        i += 1;
    }
    None
}


/// What the file set prints for the position `pos`: the name of the file
/// that the position belongs to, the line and the column.
pub uninterp spec fn position_text(fset: goscript_parser::position::FileSet, pos: int) -> Seq<char>;

/// Every entry ends within the machine word.
pub open spec fn entries_fit(entries: Seq<(Seq<char>, int, int)>) -> bool {
    forall|i: int| 0 <= i < entries.len() ==> (#[trigger] entries[i]).1 + entries[i].2 <= usize::MAX
}

/// Calls `FileSet::position` and prints what it gives. The file set looks
/// for the file of the position, adding the base and the size of each file
/// on its way, and counts columns from 1: so the files must end within the
/// machine word, and the position must not be the last one of the word.
/// The contract only gives the text its name.
#[verifier::external_body]
fn file_set_position(fset: &goscript_parser::position::FileSet, pos: Pos) -> (text: String)
    requires
        entries_fit(file_set_entries(*fset)),
        pos < usize::MAX,
    ensures
        text@ == position_text(*fset, pos as int),
{
    fset.position(pos).to_string()
}

/// The position `pos` in words, as the file set prints it. There are no
/// words for a position in a file set with a file that ends beyond the
/// machine word, nor for the last position of the word.
pub fn position_string(fset: &goscript_parser::position::FileSet, pos: Pos) -> (r: Option<String>)
    ensures
        match r {
            Some(text) => {
                &&& entries_fit(file_set_entries(*fset))
                &&& pos < usize::MAX
                &&& text@ == position_text(*fset, pos as int)
            },
            None => !(entries_fit(file_set_entries(*fset)) && pos < usize::MAX),
        },
{
    if pos == usize::MAX {
        return None;
    }
    let files = file_set_files(fset);
    let ghost entries = file_set_entries(*fset);
    let mut i: usize = 0;
    while i < files.len()
        invariant
            i <= files.len(),
            entries == file_set_entries(*fset),
            files@.map_values(|f: SourceFile| f.entry()) == entries,
            forall|j: int| 0 <= j < i ==> (#[trigger] entries[j]).1 + entries[j].2 <= usize::MAX,
        decreases files.len() - i,
    {
        assert(entries[i as int] == files@[i as int].entry());
        if files[i].size > usize::MAX - files[i].base {
            return None;
        }
        i += 1;
    }
    Some(file_set_position(fset, pos))
}

} // verus!
