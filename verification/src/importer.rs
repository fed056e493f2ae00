//! Import paths, the key under which an import is remembered, and the name
//! of the package that stands in for one that could not be imported.

use vstd::prelude::*;
use vstd::string::{StrSliceExecFns, StringExecFns};
use crate::errors::ErrorKind;
use crate::package::SpecRef;
use crate::objects::PackageKey;
use crate::text::{char_is_whitespace, is_whitespace_char, str_eq};

verus! {

/// What identifies an import: the path, and the directory of the file that
/// imports it.
#[derive(Debug)]
pub struct ImportKey {
    pub path: String,
    pub dir: String,
}

/// An import key, as contracts see it.
pub struct ImportKeyView {
    pub path: Seq<char>,
    pub dir: Seq<char>,
}

impl View for ImportKey {
    type V = ImportKeyView;

    open spec fn view(&self) -> ImportKeyView {
        ImportKeyView { path: self.path@, dir: self.dir@ }
    }
}

impl ImportKey {
    pub fn new(path: String, dir: String) -> (k: ImportKey)
        ensures
            k@ == (ImportKeyView { path: path@, dir: dir@ }),
    {
        ImportKey { path, dir }
    }

    /// Whether two keys name the same import.
    pub fn same(&self, other: &ImportKey) -> (b: bool)
        ensures
            b == (self@ == other@),
    {
        str_eq(self.path.as_str(), other.path.as_str()) && str_eq(
            self.dir.as_str(),
            other.dir.as_str(),
        )
    }
}

/// An entry of the import cache.
#[derive(Debug)]
pub struct ImportEntry {
    pub key: ImportKey,
    pub pkg: PackageKey,
}

impl View for ImportEntry {
    type V = (ImportKeyView, PackageKey);

    open spec fn view(&self) -> (ImportKeyView, PackageKey) {
        (self.key@, self.pkg)
    }
}

/// The package that the cache holds for `key`, searching from entry `from`
/// on.
pub open spec fn find_import(cache: Seq<(ImportKeyView, PackageKey)>, key: ImportKeyView, from: int)
    -> Option<PackageKey>
    decreases cache.len() - from,
{
    if from < 0 || from >= cache.len() {
        None
    } else if cache[from].0 == key {
        Some(cache[from].1)
    } else {
        find_import(cache, key, from + 1)
    }
}

/// The search finds nothing only where no entry has the key.
pub proof fn lemma_find_import_none(
    cache: Seq<(ImportKeyView, PackageKey)>,
    key: ImportKeyView,
    from: int,
)
    requires
        0 <= from,
        find_import(cache, key, from) is None,
    ensures
        forall|i: int| from <= i < cache.len() ==> (#[trigger] cache[i]).0 != key,
    decreases cache.len() - from,
{
    if from < cache.len() {
        lemma_find_import_none(cache, key, from + 1);
    }
}

/// What the search finds is the package of an entry.
pub proof fn lemma_find_import_some(
    cache: Seq<(ImportKeyView, PackageKey)>,
    key: ImportKeyView,
    from: int,
)
    requires
        0 <= from,
        find_import(cache, key, from) is Some,
    ensures
        exists|i: int|
            from <= i < cache.len() && (#[trigger] cache[i]).0 == key && cache[i].1 == find_import(
                cache,
                key,
                from,
            )->0,
    decreases cache.len() - from,
{
    if cache[from].0 != key {
        lemma_find_import_some(cache, key, from + 1);
    }
}

/// An entry added at the end is found under its key if the key was not
/// there, and changes nothing for any other key.
pub proof fn lemma_find_import_push(
    cache: Seq<(ImportKeyView, PackageKey)>,
    entry: (ImportKeyView, PackageKey),
    key: ImportKeyView,
    from: int,
)
    requires
        0 <= from <= cache.len(),
    ensures
        find_import(cache.push(entry), key, from) == match find_import(cache, key, from) {
            Some(p) => Some(p),
            None => if entry.0 == key {
                Some(entry.1)
            } else {
                None
            },
        },
    decreases cache.len() - from,
{
    let more = cache.push(entry);
    if from < cache.len() {
        assert(more[from] == cache[from]);
        if cache[from].0 != key {
            lemma_find_import_push(cache, entry, key, from + 1);
        }
    } else {
        assert(more[from] == entry);
        assert(find_import(more, key, from + 1) is None);
    }
}

/// Why the literal of an import names no path.
#[derive(Clone, Copy, Debug, PartialEq, Eq, Structural)]
pub enum PathError {
    /// The literal is not at least one character between double quotes.
    NoPath,
    /// The path holds the character `ch`, which no path may hold.
    BadChar { ch: char },
}

impl PathError {
    /// The error that is reported for the import at `spec`.
    pub open spec fn spec_kind(self, spec: SpecRef) -> ErrorKind {
        match self {
            PathError::NoPath => ErrorKind::InvalidImportPath { spec },
            PathError::BadChar { ch } => ErrorKind::InvalidImportChar { ch },
        }
    }

    /// The error that is reported for the import at `spec`.
    pub fn kind(self, spec: SpecRef) -> (k: ErrorKind)
        ensures
            k == self.spec_kind(spec),
    {
        match self {
            PathError::NoPath => ErrorKind::InvalidImportPath { spec },
            PathError::BadChar { ch } => ErrorKind::InvalidImportChar { ch },
        }
    }
}

/// The punctuation that no import path may hold, and the Unicode
/// replacement character.
pub open spec fn is_listed_path_char(c: char) -> bool {
    ||| c == '!'
    ||| c == '"'
    ||| c == '#'
    ||| c == '$'
    ||| c == '%'
    ||| c == '&'
    ||| c == '\''
    ||| c == '('
    ||| c == ')'
    ||| c == '*'
    ||| c == ','
    ||| c == ':'
    ||| c == ';'
    ||| c == '<'
    ||| c == '='
    ||| c == '>'
    ||| c == '?'
    ||| c == '['
    ||| c == '\\'
    ||| c == ']'
    ||| c == '^'
    ||| c == '{'
    ||| c == '|'
    ||| c == '}'
    ||| c == '`'
    ||| c == '\u{FFFD}'
}

/// The characters that no import path may hold: the listed ones, and white
/// space.
pub open spec fn is_illegal_path_char(c: char) -> bool {
    is_listed_path_char(c) || is_whitespace_char(c)
}

/// The first character of `path` from `from` on that no path may hold.
pub open spec fn first_illegal(path: Seq<char>, from: int) -> Option<char>
    decreases path.len() - from,
{
    if from < 0 || from >= path.len() {
        None
    } else if is_illegal_path_char(path[from]) {
        Some(path[from])
    } else {
        first_illegal(path, from + 1)
    }
}

/// The path that the literal `lit` of an import names: the literal without
/// its quotes. The literal is refused where it is not at least one
/// character between double quotes, and where the path holds a character
/// that no path may hold; the first such character is reported.
pub open spec fn import_path(lit: Seq<char>) -> Result<Seq<char>, PathError> {
    if lit.len() < 3 || lit[0] != '"' || lit[lit.len() - 1] != '"' {
        Err(PathError::NoPath)
    } else {
        let path = lit.subrange(1, lit.len() - 1);
        match first_illegal(path, 0) {
            Some(c) => Err(PathError::BadChar { ch: c }),
            None => Ok(path),
        }
    }
}

/// Whether no import path may hold `c`, given whether `c` is white space:
/// `c` is one of the listed characters, or it is white space.
pub fn illegal_path_char_given(c: char, white: bool) -> (b: bool)
    ensures
        b == (is_listed_path_char(c) || white),
{
    c == '!' || c == '"' || c == '#' || c == '$' || c == '%' || c == '&' || c == '\'' || c == '('
        || c == ')' || c == '*' || c == ',' || c == ':' || c == ';' || c == '<' || c == '=' || c
        == '>' || c == '?' || c == '[' || c == '\\' || c == ']' || c == '^' || c == '{' || c == '|'
        || c == '}' || c == '`' || c == '\u{FFFD}' || white
}

/// Whether `c` is a character that no import path may hold.
pub fn illegal_path_char(c: char) -> (b: bool)
    ensures
        b == is_illegal_path_char(c),
{
    illegal_path_char_given(c, char_is_whitespace(c))
}

/// The path that the literal `lit` of an import names, or why the literal
/// is refused.
pub fn check_import_path(lit: &str) -> (r: Result<String, PathError>)
    ensures
        match import_path(lit@) {
            Ok(p) => r is Ok && r->Ok_0@ == p,
            Err(k) => r == Err::<String, PathError>(k),
        },
{
    let n = lit.unicode_len();
    if n < 3 {
        return Err(PathError::NoPath);
    }
    if lit.get_char(0) != '"' || lit.get_char(n - 1) != '"' {
        return Err(PathError::NoPath);
    }
    let path = lit.substring_char(1, n - 1);
    let m = n - 2;
    let mut i: usize = 0;
    while i < m
        invariant
            i <= m,
            m == path@.len(),
            lit@.len() >= 3,
            lit@[0] == '"',
            lit@[lit@.len() - 1] == '"',
            path@ == lit@.subrange(1, lit@.len() - 1),
            first_illegal(path@, 0) == first_illegal(path@, i as int),
        decreases m - i,
    {
        let c = path.get_char(i);
        if illegal_path_char(c) {
            return Err(PathError::BadChar { ch: c });
        }
        i += 1;
    }
    Ok(String::from_str(path))
}

/// The index of the last `sep` among the first `n` characters of `s`, or -1
/// where there is none.
pub open spec fn last_index_of(s: Seq<char>, sep: char, n: int) -> int
    decreases n,
{
    if n <= 0 {
        -1
    } else if s[n - 1] == sep {
        n - 1
    } else {
        last_index_of(s, sep, n - 1)
    }
}

/// The name of the package that stands in for the package with path `path`:
/// the last segment of the path, that is, what follows the last slash once
/// a slash at the end is taken off.
pub open spec fn fake_package_name(path: Seq<char>) -> Seq<char> {
    let n = if path.len() > 0 && path[path.len() - 1] == '/' {
        path.len() - 1
    } else {
        path.len() as int
    };
    path.subrange(last_index_of(path, '/', n) + 1, n)
}

/// The name of the package that stands in for the package with path `path`.
pub fn package_name_of_path(path: &str) -> (name: String)
    ensures
        name@ == fake_package_name(path@),
{
    let len = path.unicode_len();
    let n = if len > 0 && path.get_char(len - 1) == '/' {
        len - 1
    } else {
        len
    };
    let mut i = n;
    while i > 0 && path.get_char(i - 1) != '/'
        invariant
            i <= n <= path@.len(),
            last_index_of(path@, '/', n as int) == last_index_of(path@, '/', i as int),
        decreases i,
    {
        i -= 1;
    }
    // `i` is one past the last slash, or 0 where there is none.
    String::from_str(path.substring_char(i, n))
}

} // verus!
