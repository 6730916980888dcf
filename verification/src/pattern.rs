//! The pattern model: the two search-pattern kinds, the configuration they
//! arrive in, the per-file facts a traversal hands over, and the matching
//! predicate that decides whether one file satisfies one pattern.

use vstd::prelude::*;

verus! {

/// The folder/extension pair of a `BiggestFileInFolder` pattern.
pub struct BiggestFileInFolderContainer {
    pub folder: String,
    pub file_type: String,
}

/// A declarative rule identifying which files a user wants located.
pub enum SearchPatternType {
    /// Matches a file whose base name equals the string exactly.
    Basic(String),
    /// Matches a file whose immediate parent directory's base name equals
    /// `folder` and whose extension (after the last `.`, without the dot)
    /// equals `file_type`.
    BiggestFileInFolder(BiggestFileInFolderContainer),
}

/// Mathematical model of a pattern: the same two variants over character
/// sequences.
pub enum PatternModel {
    Basic(Seq<char>),
    BiggestFileInFolder(Seq<char>, Seq<char>),
}

impl View for SearchPatternType {
    type V = PatternModel;

    open spec fn view(&self) -> PatternModel {
        match self {
            SearchPatternType::Basic(name) => PatternModel::Basic(name@),
            SearchPatternType::BiggestFileInFolder(c) => PatternModel::BiggestFileInFolder(
                c.folder@,
                c.file_type@,
            ),
        }
    }
}

/// A scan's input: the declared patterns (duplicates allowed) and the root
/// folder the traversal starts from.
pub struct Config {
    pub search_patterns: Vec<SearchPatternType>,
    pub root_folder: String,
}

/// The facts about one regular file that matching looks at: its full path,
/// its base name, its extension (absent if it has none), the base name of its
/// immediate parent directory (absent at an unnamed boundary), and its size
/// in bytes.
pub struct FileEntry {
    pub path: String,
    pub file_name: String,
    pub extension: Option<String>,
    pub parent: Option<String>,
    pub size: u64,
}

/// Mathematical model of one file's facts.
pub struct EntryModel {
    pub path: Seq<char>,
    pub file_name: Seq<char>,
    pub extension: Option<Seq<char>>,
    pub parent: Option<Seq<char>>,
    pub size: u64,
}

impl View for FileEntry {
    type V = EntryModel;

    open spec fn view(&self) -> EntryModel {
        EntryModel {
            path: self.path@,
            file_name: self.file_name@,
            extension: match self.extension {
                Option::Some(e) => Option::Some(e@),
                Option::None => Option::None,
            },
            parent: match self.parent {
                Option::Some(p) => Option::Some(p@),
                Option::None => Option::None,
            },
            size: self.size,
        }
    }
}

/// The sequence of pattern models underneath a sequence of patterns.
pub open spec fn pattern_views(s: Seq<SearchPatternType>) -> Seq<PatternModel> {
    s.map_values(|p: SearchPatternType| p@)
}

/// The sequence of entry models underneath a sequence of file entries.
pub open spec fn entry_views(s: Seq<FileEntry>) -> Seq<EntryModel> {
    s.map_values(|e: FileEntry| e@)
}

/// Whether the file described by `e` satisfies pattern `p`.
pub open spec fn pattern_matches(p: PatternModel, e: EntryModel) -> bool {
    match p {
        PatternModel::Basic(name) => e.file_name == name,
        PatternModel::BiggestFileInFolder(folder, file_type) => e.parent
            == Option::Some(folder) && e.extension == Option::Some(file_type),
    }
}

/// Decides whether the file described by `e` matches pattern `p`.
pub fn matches_entry(p: &SearchPatternType, e: &FileEntry) -> (r: bool)
    ensures
        r == pattern_matches(p@, e@),
{
    match p {
        SearchPatternType::Basic(name) => *name == e.file_name,
        SearchPatternType::BiggestFileInFolder(c) => {
            let folder_ok = match &e.parent {
                Option::Some(parent) => *parent == c.folder,
                Option::None => false,
            };
            let ext_ok = match &e.extension {
                Option::Some(ext) => *ext == c.file_type,
                Option::None => false,
            };
            folder_ok && ext_ok
        },
    }
}

/// Structural equality of two patterns, the relation deduplication keys on.
pub fn pattern_eq(a: &SearchPatternType, b: &SearchPatternType) -> (r: bool)
    ensures
        r == (a@ == b@),
{
    match (a, b) {
        (SearchPatternType::Basic(x), SearchPatternType::Basic(y)) => *x == *y,
        (
            SearchPatternType::BiggestFileInFolder(x),
            SearchPatternType::BiggestFileInFolder(y),
        ) => x.folder == y.folder && x.file_type == y.file_type,
        _ => false,
    }
}

/// The configuration the init operation writes out: one pattern of each
/// kind, and the current directory as the root folder.
pub fn default_config() -> (c: Config)
    ensures
        c.search_patterns@.len() == 2,
        c.search_patterns@[0]@ == PatternModel::Basic("example.txt"@),
        c.search_patterns@[1]@ == PatternModel::BiggestFileInFolder("Example"@, "txt"@),
        c.root_folder@ == "."@,
{
    let mut search_patterns: Vec<SearchPatternType> = Vec::new();
    search_patterns.push(SearchPatternType::Basic(String::from_str("example.txt")));
    search_patterns.push(
        SearchPatternType::BiggestFileInFolder(
            BiggestFileInFolderContainer {
                folder: String::from_str("Example"),
                file_type: String::from_str("txt"),
            },
        ),
    );
    Config { search_patterns, root_folder: String::from_str(".") }
}

/// A copy of `p` with the same model.
pub fn clone_pattern(p: &SearchPatternType) -> (r: SearchPatternType)
    ensures
        r@ == p@,
{
    match p {
        SearchPatternType::Basic(name) => SearchPatternType::Basic(name.clone()),
        SearchPatternType::BiggestFileInFolder(c) => SearchPatternType::BiggestFileInFolder(
            BiggestFileInFolderContainer { folder: c.folder.clone(), file_type: c.file_type.clone() },
        ),
    }
}

} // verus!
