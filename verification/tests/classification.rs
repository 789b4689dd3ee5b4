use repo_miner::data::{Frequency, Statistics};
use repo_miner::repository::{CommitRecord, FileInput, RepositoryInfo};
use repo_miner::source::{
    extension_of, file_name_of, strip_path_prefix, LanguageType, SourceFileInfo,
};

fn lang(name: &str, loc: i64, size: i64) -> LanguageType {
    LanguageType {
        name: name.to_string(),
        extensions: Vec::new(),
        statistics: Some(Statistics {
            size,
            loc,
            num_files: 1,
            num_commits: 0,
            frequency: Frequency { count: 0, total: 0 },
        }),
    }
}

#[test]
fn percentage_distribution_is_exactly_eighty_twenty() {
    let mut languages = vec![lang("Rust", 80, 0), lang("Toml", 20, 0)];
    LanguageType::calculate_percentage_distribution(&mut languages).unwrap();
    let f0 = languages[0].statistics.as_ref().unwrap().frequency;
    let f1 = languages[1].statistics.as_ref().unwrap().frequency;
    assert_eq!(f0, Frequency { count: 80, total: 100 });
    assert_eq!(f1, Frequency { count: 20, total: 100 });
    assert_eq!(f0.count as f32 / f0.total as f32 * 100.0, 80.0);
    assert_eq!(f1.count as f32 / f1.total as f32 * 100.0, 20.0);
}

#[test]
fn percentage_distribution_sums_to_one_hundred() {
    let mut languages = vec![lang("A", 33, 0), lang("B", 33, 0), lang("C", 34, 0)];
    LanguageType::calculate_percentage_distribution(&mut languages).unwrap();
    let mut total_value = 0.0_f64;
    for l in &languages {
        let f = l.statistics.as_ref().unwrap().frequency;
        assert_eq!(f.total, 100);
        total_value += f.count as f64 / f.total as f64 * 100.0;
    }
    assert!((total_value - 100.0).abs() < 0.01);
}

#[test]
fn percentage_distribution_with_zero_total_is_zero_everywhere() {
    let mut languages = vec![lang("A", 0, 0), lang("B", 0, 0)];
    LanguageType::calculate_percentage_distribution(&mut languages).unwrap();
    for l in &languages {
        let f = l.statistics.as_ref().unwrap().frequency;
        assert_eq!(f, Frequency { count: 0, total: 0 });
    }
}

#[test]
fn sum_lines_of_code_skips_missing_statistics() {
    let mut no_stats = lang("C", 0, 0);
    no_stats.statistics = None;
    let languages = vec![lang("A", 5, 0), no_stats, lang("B", 7, 0)];
    assert_eq!(LanguageType::sum_lines_of_code(&languages).unwrap(), 12);
}

#[test]
fn predominant_language_picks_highest_frequency() {
    let mut languages = vec![lang("Rust", 80, 10), lang("Toml", 20, 99)];
    LanguageType::calculate_percentage_distribution(&mut languages).unwrap();
    let p = LanguageType::get_predominant_language(&languages);
    assert_eq!(p.name, "Rust");
}

#[test]
fn predominant_language_tie_broken_by_size() {
    let mut languages = vec![lang("Small", 50, 10), lang("Large", 50, 20)];
    LanguageType::calculate_percentage_distribution(&mut languages).unwrap();
    let p = LanguageType::get_predominant_language(&languages);
    assert_eq!(p.name, "Large");
}

#[test]
fn predominant_language_full_tie_keeps_the_earlier_entry() {
    let mut languages = vec![lang("First", 50, 10), lang("Second", 50, 10)];
    LanguageType::calculate_percentage_distribution(&mut languages).unwrap();
    let p = LanguageType::get_predominant_language(&languages);
    assert_eq!(p.name, "First");
}

#[test]
fn no_positive_frequency_yields_the_default_sentinel() {
    let languages = vec![lang("A", 0, 5), lang("B", 0, 9)];
    let p = LanguageType::get_predominant_language(&languages);
    assert_eq!(p.name, "");
    assert!(p.extensions.is_empty());
    assert!(p.statistics.is_none());
}

#[test]
fn languages_with_one_name_merge_and_union_extensions() {
    let history: Vec<CommitRecord> = Vec::new();
    let files = vec![
        FileInput {
            path: "repo/a.rs".to_string(),
            language_name: "Rust".to_string(),
            loc: 3,
            contents: "abc".to_string(),
        },
        FileInput {
            path: "repo/build.rs".to_string(),
            language_name: "Rust".to_string(),
            loc: 2,
            contents: "de".to_string(),
        },
        FileInput {
            path: "repo/x.toml".to_string(),
            language_name: "Toml".to_string(),
            loc: 1,
            contents: "f".to_string(),
        },
    ];
    let sfis = RepositoryInfo::get_source_file_info_for_repo("repo", &files, &history).unwrap();
    let languages = RepositoryInfo::aggregate_languages(&sfis);
    assert_eq!(languages.len(), 2);
    assert_eq!(languages[0].name, "Rust");
    assert_eq!(languages[0].extensions, vec!["rs".to_string()]);
    let rust_stats = languages[0].statistics.as_ref().unwrap();
    assert_eq!(rust_stats.loc, 5);
    assert_eq!(rust_stats.size, 5);
    assert_eq!(rust_stats.num_files, 2);
    assert_eq!(languages[1].name, "Toml");
    assert_eq!(languages[1].extensions, vec!["toml".to_string()]);
}

#[test]
fn repository_predominant_language_by_line_share() {
    let history: Vec<CommitRecord> = Vec::new();
    let files = vec![
        FileInput {
            path: "repo/a.rs".to_string(),
            language_name: "Rust".to_string(),
            loc: 80,
            contents: "a".to_string(),
        },
        FileInput {
            path: "repo/x.toml".to_string(),
            language_name: "Toml".to_string(),
            loc: 20,
            contents: "b".to_string(),
        },
    ];
    let ri = RepositoryInfo::new("p".to_string(), "repo", &files, &history).unwrap();
    let p = ri.predominant_language.unwrap();
    assert_eq!(p.name, "Rust");
    let f = p.statistics.unwrap().frequency;
    assert_eq!(f, Frequency { count: 80, total: 100 });
}

#[test]
fn language_new_from_starts_bare() {
    let l = LanguageType::new_from("Rust");
    assert_eq!(l.name, "Rust");
    assert!(l.extensions.is_empty());
    assert!(l.statistics.is_none());
}

#[test]
fn path_helpers_follow_their_rules() {
    assert_eq!(file_name_of("src/a.rs"), "a.rs");
    assert_eq!(file_name_of("a.rs"), "a.rs");
    assert_eq!(file_name_of("src/"), "");
    assert_eq!(extension_of("a.rs"), Some("rs".to_string()));
    assert_eq!(extension_of("archive.tar.gz"), Some("gz".to_string()));
    assert_eq!(extension_of(".bashrc"), None);
    assert_eq!(extension_of("Makefile"), None);
    assert_eq!(strip_path_prefix("repo", "repo/src/a.rs"), Some("src/a.rs".to_string()));
    assert_eq!(strip_path_prefix("repo/", "repo/src/a.rs"), Some("src/a.rs".to_string()));
    assert_eq!(strip_path_prefix("repo", "other/a.rs"), None);
    assert_eq!(strip_path_prefix("repo", "repository/a.rs"), None);
}

#[test]
fn source_file_record_is_fully_derived() {
    let history = vec![CommitRecord {
        author_name: "alice".to_string(),
        author_time: 1,
        has_parent: true,
        changed_paths: vec!["src/a.rs".to_string()],
    }];
    let lang_type = LanguageType::new_from("Rust");
    let sfi = SourceFileInfo::get_source_file_info(
        "repo",
        "repo/src/a.rs",
        7,
        &lang_type,
        "fn a() {}\n".to_string(),
        &history,
    )
    .unwrap();
    assert_eq!(sfi.name, "a.rs");
    assert_eq!(sfi.relative_path, "src/a.rs");
    let l = sfi.language.as_ref().unwrap();
    assert_eq!(l.name, "Rust");
    assert_eq!(l.extensions, vec!["rs".to_string()]);
    assert_eq!(sfi.id_hash.as_ref().unwrap().len(), 64);
    assert_eq!(sfi.content.as_ref().unwrap(), "fn a() {}\n");
    assert_eq!(sfi.statistics.size, 10);
    assert_eq!(sfi.statistics.loc, 7);
    assert_eq!(sfi.statistics.num_files, 1);
    assert_eq!(sfi.statistics.num_commits, 1);
    assert_eq!(sfi.statistics.frequency, Frequency { count: 1, total: 1 });
}

#[test]
fn stored_contents_round_trip() {
    let history: Vec<CommitRecord> = Vec::new();
    let lang_type = LanguageType::new_from("Rust");
    let mut sfi = SourceFileInfo::get_source_file_info(
        "repo",
        "repo/a.rs",
        1,
        &lang_type,
        "one".to_string(),
        &history,
    )
    .unwrap();
    assert_eq!(sfi.get_source_file_contents(), "one");
    sfi.set_source_file_contents("two".to_string());
    assert_eq!(sfi.get_source_file_contents(), "two");
}
