pub mod json;
pub mod laws;
pub mod pattern;
pub mod report;
pub mod scan;
pub mod search_result;

pub use json::config_to_json;
pub use json::parse_config;
pub use pattern::default_config;
pub use pattern::matches_entry;
pub use pattern::pattern_eq;
pub use pattern::BiggestFileInFolderContainer;
pub use pattern::Config;
pub use pattern::FileEntry;
pub use pattern::SearchPatternType;
pub use report::render_result;
pub use report::u64_to_decimal;
pub use scan::create_initial_search_result;
pub use scan::run_scan;
pub use scan::search_for_biggest_files;
pub use search_result::update_result;
pub use search_result::FileFoundResult;
pub use search_result::NoFileFoundResult;
pub use search_result::SearchResult;
