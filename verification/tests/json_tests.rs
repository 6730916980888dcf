use find_biggest_file::config_to_json;
use find_biggest_file::default_config;
use find_biggest_file::parse_config;
use find_biggest_file::pattern_eq;
use find_biggest_file::BiggestFileInFolderContainer;
use find_biggest_file::Config;
use find_biggest_file::SearchPatternType;

fn basic(name: &str) -> SearchPatternType {
    SearchPatternType::Basic(name.to_string())
}

fn in_folder(folder: &str, file_type: &str) -> SearchPatternType {
    SearchPatternType::BiggestFileInFolder(BiggestFileInFolderContainer {
        folder: folder.to_string(),
        file_type: file_type.to_string(),
    })
}

fn assert_same_config(a: &Config, b: &Config) {
    assert_eq!(a.root_folder, b.root_folder);
    assert_eq!(a.search_patterns.len(), b.search_patterns.len());
    for (x, y) in a.search_patterns.iter().zip(b.search_patterns.iter()) {
        assert!(pattern_eq(x, y));
    }
}

#[test]
fn default_config_text_is_the_documented_shape() {
    let text = config_to_json(&default_config());
    let expected = "{\"search_patterns\":[{\"Basic\":\"example.txt\"},{\"BiggestFileInFolder\":{\"folder\":\"Example\",\"file_type\":\"txt\"}}],\"root_folder\":\".\"}";
    assert_eq!(text, expected);
}

#[test]
fn default_config_round_trips() {
    let original = default_config();
    let text = config_to_json(&original);
    let parsed = parse_config(&text).expect("the written text must parse");
    assert_same_config(&original, &parsed);
}

#[test]
fn config_with_escapes_round_trips() {
    let original = Config {
        search_patterns: vec![
            basic("we\"ird\\name.txt"),
            in_folder("fo\\lder", "t\"xt"),
            basic(""),
        ],
        root_folder: "C:\\Program Files\\\"x\"".to_string(),
    };
    let text = config_to_json(&original);
    let parsed = parse_config(&text).expect("the written text must parse");
    assert_same_config(&original, &parsed);
}

#[test]
fn empty_pattern_list_round_trips() {
    let original = Config { search_patterns: Vec::new(), root_folder: "/tmp".to_string() };
    let text = config_to_json(&original);
    assert_eq!(text, "{\"search_patterns\":[],\"root_folder\":\"/tmp\"}");
    let parsed = parse_config(&text).expect("the written text must parse");
    assert_same_config(&original, &parsed);
}

#[test]
fn malformed_texts_are_rejected() {
    assert!(parse_config("").is_none());
    assert!(parse_config("{}").is_none());
    assert!(parse_config("{\"search_patterns\":[").is_none());
    assert!(parse_config("{\"search_patterns\":[],\"root_folder\":\".\"}trailing").is_none());
    assert!(parse_config("{\"search_patterns\":[{\"Odd\":\"x\"}],\"root_folder\":\".\"}").is_none());
}

#[test]
fn written_text_is_json_in_the_documented_schema() {
    let text = config_to_json(&default_config());
    let value: serde_json::Value = serde_json::from_str(&text).expect("must be valid JSON");
    assert_eq!(value["root_folder"], serde_json::Value::String(".".to_string()));
    let patterns = value["search_patterns"].as_array().expect("must be an array");
    assert_eq!(patterns.len(), 2);
    assert_eq!(patterns[0]["Basic"], serde_json::Value::String("example.txt".to_string()));
    assert_eq!(
        patterns[1]["BiggestFileInFolder"]["folder"],
        serde_json::Value::String("Example".to_string()),
    );
    assert_eq!(
        patterns[1]["BiggestFileInFolder"]["file_type"],
        serde_json::Value::String("txt".to_string()),
    );
}
