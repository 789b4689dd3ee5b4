use repo_miner::data::{Frequency, Statistics};
use repo_miner::errors::SourceCodeError;
use repo_miner::repository::{CommitRecord, Contributor, FileInput, RepositoryInfo};
use repo_miner::source::SourceFileChangeFrequency;

fn commit(author: &str, time: i64, has_parent: bool, changed: &[&str]) -> CommitRecord {
    CommitRecord {
        author_name: author.to_string(),
        author_time: time,
        has_parent,
        changed_paths: changed.iter().map(|p| p.to_string()).collect(),
    }
}

#[test]
fn change_frequency_two_of_three_commits() {
    // A file changed in the first and third of three commits.
    let history = vec![
        commit("alice", 100, true, &["a.rs", "b.rs"]),
        commit("bob", 200, true, &["b.rs"]),
        commit("alice", 300, true, &["a.rs"]),
    ];
    let scf =
        SourceFileChangeFrequency::get_from_source_file(&history, "repo", "repo/a.rs").unwrap();
    assert_eq!(scf.file_commits, 2);
    assert_eq!(scf.total_commits, 3);
    assert_eq!(scf.frequency, Frequency { count: 2, total: 3 });
    let value = scf.frequency.count as f32 / scf.frequency.total as f32 * 100.0;
    assert!((value - 66.67).abs() < 0.01);
}

#[test]
fn root_commit_never_counts_for_file_commits() {
    let history = vec![
        commit("alice", 100, false, &["a.rs"]),
        commit("alice", 200, true, &["a.rs"]),
    ];
    let scf =
        SourceFileChangeFrequency::get_from_source_file(&history, "repo", "repo/a.rs").unwrap();
    assert_eq!(scf.file_commits, 1);
    assert_eq!(scf.total_commits, 2);
}

#[test]
fn empty_history_yields_zero_frequency_and_no_contributors() {
    let history: Vec<CommitRecord> = Vec::new();
    let scf =
        SourceFileChangeFrequency::get_from_source_file(&history, "repo", "repo/a.rs").unwrap();
    assert_eq!(scf.file_commits, 0);
    assert_eq!(scf.total_commits, 0);
    assert_eq!(scf.frequency, Frequency { count: 0, total: 0 });
    let contributors = Contributor::get_git_contributors(&history);
    assert!(contributors.is_empty());
    assert_eq!(RepositoryInfo::get_total_commits(&history).unwrap(), 0);
}

#[test]
fn zero_commit_repository_mines_without_failure() {
    let history: Vec<CommitRecord> = Vec::new();
    let files = vec![FileInput {
        path: "repo/a.rs".to_string(),
        language_name: "Rust".to_string(),
        loc: 10,
        contents: "fn main() {}\n".to_string(),
    }];
    let ri = RepositoryInfo::new("empty".to_string(), "repo", &files, &history).unwrap();
    assert_eq!(ri.statistics.num_commits, 0);
    assert!(ri.contributors.is_empty());
    assert_eq!(ri.source_files[0].statistics.num_commits, 0);
    assert_eq!(ri.source_files[0].statistics.frequency, Frequency { count: 0, total: 0 });
}

#[test]
fn contributors_grouped_counted_and_timestamped() {
    let history = vec![
        commit("alice", 100, true, &[]),
        commit("bob", 200, true, &[]),
        commit("alice", 150, true, &[]),
    ];
    let contributors = Contributor::get_git_contributors(&history);
    assert_eq!(contributors.len(), 2);
    // First-appearance order.
    assert_eq!(contributors[0].name, "alice");
    assert_eq!(contributors[0].statistics.num_commits, 2);
    assert_eq!(contributors[0].last_contribution, 150);
    assert_eq!(contributors[0].percentage_contribution, Frequency { count: 2, total: 3 });
    assert_eq!(contributors[1].name, "bob");
    assert_eq!(contributors[1].statistics.num_commits, 1);
    assert_eq!(contributors[1].last_contribution, 200);
    assert_eq!(contributors[1].percentage_contribution, Frequency { count: 1, total: 3 });
}

#[test]
fn contributor_keeps_maximum_timestamp() {
    let history = vec![
        commit("alice", 500, true, &[]),
        commit("alice", 100, true, &[]),
    ];
    let contributors = Contributor::get_git_contributors(&history);
    assert_eq!(contributors.len(), 1);
    assert_eq!(contributors[0].last_contribution, 500);
}

#[test]
fn repository_statistics_are_the_file_sums() {
    let history = vec![commit("alice", 100, true, &["src/a.rs"])];
    let files = vec![
        FileInput {
            path: "repo/src/a.rs".to_string(),
            language_name: "Rust".to_string(),
            loc: 3,
            contents: "fn a() {}\n".to_string(),
        },
        FileInput {
            path: "repo/b.toml".to_string(),
            language_name: "Toml".to_string(),
            loc: 1,
            contents: "[x]\n".to_string(),
        },
    ];
    let ri = RepositoryInfo::new("sums".to_string(), "repo", &files, &history).unwrap();
    let size_sum: i64 = ri.source_files.iter().map(|f| f.statistics.size).sum();
    let loc_sum: i64 = ri.source_files.iter().map(|f| f.statistics.loc).sum();
    assert_eq!(ri.statistics.size, size_sum);
    assert_eq!(ri.statistics.size, 10 + 4);
    assert_eq!(ri.statistics.loc, loc_sum);
    assert_eq!(ri.statistics.loc, 4);
    assert_eq!(ri.statistics.num_files, 2);
    assert_eq!(ri.statistics.num_commits, 1);
    // The repository-level frequency has no denominator and stays zero.
    assert_eq!(ri.statistics.frequency, Frequency { count: 0, total: 0 });
}

#[test]
fn mining_rejects_a_path_outside_the_repository() {
    let history: Vec<CommitRecord> = Vec::new();
    let files = vec![FileInput {
        path: "elsewhere/a.rs".to_string(),
        language_name: "Rust".to_string(),
        loc: 1,
        contents: "x".to_string(),
    }];
    let r = RepositoryInfo::new("bad".to_string(), "repo", &files, &history);
    assert!(matches!(r, Err(SourceCodeError::FilePathError)));
}

#[test]
fn mining_rejects_an_unrepresentable_line_count() {
    let history: Vec<CommitRecord> = Vec::new();
    let files = vec![FileInput {
        path: "repo/a.rs".to_string(),
        language_name: "Rust".to_string(),
        loc: usize::MAX,
        contents: "x".to_string(),
    }];
    let r = RepositoryInfo::new("bad".to_string(), "repo", &files, &history);
    assert!(matches!(r, Err(SourceCodeError::ConversionError)));
}

#[test]
fn statistics_record_construction() {
    let zero = Statistics::new();
    assert_eq!(zero.size, 0);
    assert_eq!(zero.loc, 0);
    assert_eq!(zero.num_files, 0);
    assert_eq!(zero.num_commits, 0);
    assert_eq!(zero.frequency, Frequency { count: 0, total: 0 });

    let scf = SourceFileChangeFrequency {
        file_commits: 2,
        total_commits: 4,
        frequency: Frequency { count: 2, total: 4 },
    };
    let s = Statistics::get_statistics_for_source_file(&scf, 123, 45);
    assert_eq!(s.size, 123);
    assert_eq!(s.loc, 45);
    assert_eq!(s.num_files, 1);
    assert_eq!(s.num_commits, 2);
    assert_eq!(s.frequency, Frequency { count: 2, total: 4 });

    let as_stats = scf.get_as_statistics();
    assert_eq!(as_stats.size, 0);
    assert_eq!(as_stats.num_commits, 2);
    assert_eq!(as_stats.frequency, Frequency { count: 2, total: 4 });
}

#[test]
fn frequency_constructors_build_the_exact_ratio() {
    assert_eq!(Frequency::zero(), Frequency { count: 0, total: 0 });
    assert_eq!(Frequency::new(1, 4), Frequency { count: 1, total: 4 });
}

#[test]
fn frequency_value_stays_in_percentage_range() {
    let history = vec![
        commit("alice", 1, true, &["a.rs"]),
        commit("alice", 2, true, &["a.rs"]),
    ];
    let scf =
        SourceFileChangeFrequency::get_from_source_file(&history, "repo", "repo/a.rs").unwrap();
    let f = scf.frequency;
    assert!(f.count <= f.total);
    let value = f.count as f64 / f.total as f64 * 100.0;
    assert!((0.0..=100.0).contains(&value));
}
