use repo_miner::embedding::{
    create_repository_tokens, flatten_file_data, map_source_file_info_to_file,
    negative_sentiment_for_int,
};
use repo_miner::repository::{CommitRecord, FileInput, RepositoryInfo};
use repo_miner::source::SourceFileInfo;

fn sample_repository() -> RepositoryInfo {
    let history = vec![
        CommitRecord {
            author_name: "alice".to_string(),
            author_time: 1000,
            has_parent: true,
            changed_paths: vec!["src/a.rs".to_string()],
        },
        CommitRecord {
            author_name: "bob".to_string(),
            author_time: 2000,
            has_parent: true,
            changed_paths: vec!["x.toml".to_string()],
        },
    ];
    let files = vec![
        FileInput {
            path: "repo/src/a.rs".to_string(),
            language_name: "Rust".to_string(),
            loc: 8,
            contents: "fn a() -> u8 { 1 }\n".to_string(),
        },
        FileInput {
            path: "repo/x.toml".to_string(),
            language_name: "Toml".to_string(),
            loc: 2,
            contents: "[a]\nb = \"c\"\n".to_string(),
        },
    ];
    RepositoryInfo::new("sample".to_string(), "repo", &files, &history).unwrap()
}

#[test]
fn content_hash_of_the_empty_string_is_the_known_digest() {
    assert_eq!(
        SourceFileInfo::calculate_hash_from(""),
        "e3b0c44298fc1c149afbf4c8996fb92427ae41e4649b934ca495991b7852b855"
    );
}

#[test]
fn content_hash_of_a_known_text() {
    assert_eq!(
        SourceFileInfo::calculate_hash_from("hello"),
        "2cf24dba5fb0a30e26e83b2ac5b9e29e1b161e5c1fa7425e73043362938b9824"
    );
}

#[test]
fn content_hash_is_pure_and_sensitive() {
    let a1 = SourceFileInfo::calculate_hash_from("abc");
    let a2 = SourceFileInfo::calculate_hash_from("abc");
    let b = SourceFileInfo::calculate_hash_from("abd");
    assert_eq!(a1, a2);
    assert_ne!(a1, b);
    assert_ne!(a1, "abc");
    assert_eq!(a1.len(), 64);
    assert!(a1.chars().all(|c| c.is_ascii_hexdigit() && !c.is_ascii_uppercase()));
}

#[test]
fn two_mining_passes_serialize_byte_identically() {
    let r1 = sample_repository();
    let r2 = sample_repository();
    let j1 = r1.get_as_json().unwrap();
    let j2 = r2.get_as_json().unwrap();
    assert_eq!(j1, j2);
}

#[test]
fn document_is_valid_json_with_the_agreed_shape() {
    let ri = sample_repository();
    let json = ri.get_as_json().unwrap();
    let v: serde_json::Value = serde_json::from_str(&json).unwrap();
    assert_eq!(v["name"], serde_json::Value::String("sample".to_string()));
    assert_eq!(v["statistics"]["num_files"], serde_json::Value::from(2));
    assert_eq!(v["predominant_language"]["name"], serde_json::Value::String("Rust".to_string()));
    let files = v["source_files"].as_array().unwrap();
    assert_eq!(files.len(), 2);
    for f in files {
        let o = f.as_object().unwrap();
        // Raw content is never part of the document.
        assert!(!o.contains_key("content"));
        assert!(o.contains_key("name"));
        assert!(o.contains_key("relative_path"));
        assert!(o.contains_key("id_hash"));
        assert!(o.contains_key("statistics"));
    }
    let contributors = v["contributors"].as_array().unwrap();
    assert_eq!(contributors.len(), 2);
    assert_eq!(contributors[0]["name"], serde_json::Value::String("alice".to_string()));
    assert_eq!(contributors[0]["last_contribution"], serde_json::Value::from(1000));
}

#[test]
fn absent_language_is_omitted_not_null() {
    let mut ri = sample_repository();
    ri.source_files[0].language = None;
    ri.predominant_language = None;
    let json = ri.get_as_json().unwrap();
    let v: serde_json::Value = serde_json::from_str(&json).unwrap();
    let first = v["source_files"][0].as_object().unwrap();
    assert!(!first.contains_key("language"));
    let second = v["source_files"][1].as_object().unwrap();
    assert!(second.contains_key("language"));
    // The repository-level field itself stays present.
    assert!(v.as_object().unwrap().contains_key("predominant_language"));
    assert!(v["predominant_language"].is_null());
}

#[test]
fn json_escapes_special_characters() {
    let mut ri = sample_repository();
    ri.name = "a\"b\\c\nd".to_string();
    let json = ri.get_as_json().unwrap();
    let v: serde_json::Value = serde_json::from_str(&json).unwrap();
    assert_eq!(v["name"], serde_json::Value::String("a\"b\\c\nd".to_string()));
}

#[test]
fn sentiment_is_the_negated_digit_count() {
    assert_eq!(negative_sentiment_for_int(0), 0);
    assert_eq!(negative_sentiment_for_int(1), 0);
    assert_eq!(negative_sentiment_for_int(9), 0);
    assert_eq!(negative_sentiment_for_int(10), -1);
    assert_eq!(negative_sentiment_for_int(999), -2);
    assert_eq!(negative_sentiment_for_int(1000), -3);
    assert_eq!(negative_sentiment_for_int(i64::MAX), -18);
}

#[test]
fn file_flattens_to_six_tokens_in_key_order() {
    let ri = sample_repository();
    let fe = map_source_file_info_to_file(&ri.source_files[0], "0".to_string());
    let tokens = flatten_file_data(&fe);
    assert_eq!(tokens.len(), 6);
    let hash = ri.source_files[0].id_hash.clone().unwrap();
    assert_eq!(tokens[0], "a.rs: /contents/\"fn a() -> u8 { 1 }\\n\"");
    assert_eq!(tokens[1], "a.rs: /frequency_sentiment/0");
    assert_eq!(tokens[2], format!("a.rs: /id_hash/\"{}\"", hash));
    assert_eq!(tokens[3], "a.rs: /language/\"Rust\"");
    assert_eq!(tokens[4], "a.rs: /loc_sentiment/0");
    assert_eq!(tokens[5], "a.rs: /size_sentiment/-1");
}

#[test]
fn repository_tokens_preserve_file_order_and_identity() {
    let ri = sample_repository();
    let sentiments = vec!["-1.5".to_string(), "0".to_string()];
    let tokens = create_repository_tokens(&ri, &sentiments);
    assert_eq!(tokens.len(), 12);
    assert!(tokens[0].starts_with("a.rs: /contents/"));
    assert_eq!(tokens[1], "a.rs: /frequency_sentiment/-1.5");
    assert!(tokens[6].starts_with("x.toml: /contents/"));
    assert_eq!(tokens[7], "x.toml: /frequency_sentiment/0");
    // Two identical passes give the identical sequence.
    let again = create_repository_tokens(&ri, &sentiments);
    assert_eq!(tokens, again);
}
