//! Per-pattern results and the running-maximum update rule: a slot starts as
//! `NoFileFound` with a precomputed message, turns into `FileFound` on the
//! first match, and afterwards only a strictly larger candidate replaces it.

use vstd::prelude::*;

use crate::pattern::PatternModel;
use crate::pattern::SearchPatternType;

verus! {

/// The largest matching file seen so far.
pub struct FileFoundResult {
    pub file: String,
    pub size: u64,
}

/// The explanation reported when no file matched a pattern.
pub struct NoFileFoundResult {
    pub message: String,
}

/// The state of one pattern's slot.
pub enum SearchResult {
    FileFound(FileFoundResult),
    NoFileFound(NoFileFoundResult),
}

/// Mathematical model of a slot: either the path and size of the best file
/// seen, or the not-found message.
pub enum ResultModel {
    FileFound(Seq<char>, u64),
    NoFileFound(Seq<char>),
}

impl View for SearchResult {
    type V = ResultModel;

    open spec fn view(&self) -> ResultModel {
        match self {
            SearchResult::FileFound(f) => ResultModel::FileFound(f.file@, f.size),
            SearchResult::NoFileFound(n) => ResultModel::NoFileFound(n.message@),
        }
    }
}

/// The message a pattern's slot is seeded with: it names the missing file, or
/// the folder and extension combination, after the pattern's kind.
pub open spec fn no_file_message(p: PatternModel) -> Seq<char> {
    match p {
        PatternModel::Basic(name) => "No file found with the name: "@ + name + "!"@,
        PatternModel::BiggestFileInFolder(folder, file_type) => "Inside the folder: "@ + folder
            + ", no file was found with extension: "@ + file_type + "!"@,
    }
}

impl NoFileFoundResult {
    /// Builds the seed message for `search_pattern`.
    pub fn new(search_pattern: &SearchPatternType) -> (r: NoFileFoundResult)
        ensures
            r.message@ == no_file_message(search_pattern@),
    {
        match search_pattern {
            SearchPatternType::Basic(file_name) => NoFileFoundResult {
                message: String::from_str("No file found with the name: ").concat(
                    file_name.as_str(),
                ).concat("!"),
            },
            SearchPatternType::BiggestFileInFolder(container) => NoFileFoundResult {
                message: String::from_str("Inside the folder: ").concat(
                    container.folder.as_str(),
                ).concat(", no file was found with extension: ").concat(
                    container.file_type.as_str(),
                ).concat("!"),
            },
        }
    }
}

/// The update rule: a first match fills an empty slot; afterwards only a
/// strictly larger candidate replaces the current file, so on equal sizes the
/// earlier find is kept.
pub open spec fn updated(cur: ResultModel, path: Seq<char>, size: u64) -> ResultModel {
    match cur {
        ResultModel::NoFileFound(_) => ResultModel::FileFound(path, size),
        ResultModel::FileFound(cur_path, cur_size) => if cur_size < size {
            ResultModel::FileFound(path, size)
        } else {
            cur
        },
    }
}

/// A copy of `r` with the same model.
pub fn clone_result(r: &SearchResult) -> (c: SearchResult)
    ensures
        c@ == r@,
{
    match r {
        SearchResult::FileFound(f) => SearchResult::FileFound(
            FileFoundResult { file: f.file.clone(), size: f.size },
        ),
        SearchResult::NoFileFound(n) => SearchResult::NoFileFound(
            NoFileFoundResult { message: n.message.clone() },
        ),
    }
}

/// Applies the update rule once, for a candidate file at `path` of `size`
/// bytes.
pub fn update_result(cur: &SearchResult, path: &String, size: u64) -> (r: SearchResult)
    ensures
        r@ == updated(cur@, path@, size),
{
    match cur {
        SearchResult::NoFileFound(_) => SearchResult::FileFound(
            FileFoundResult { file: path.clone(), size },
        ),
        SearchResult::FileFound(f) => {
            if f.size < size {
                SearchResult::FileFound(FileFoundResult { file: path.clone(), size })
            } else {
                clone_result(cur)
            }
        },
    }
}

} // verus!
