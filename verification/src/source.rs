//! Per-file records: identity (name, repository-relative path, content hash),
//! language classification, and change-frequency statistics.

use vstd::prelude::*;

use crate::data::{Frequency, Statistics};
use crate::errors::SourceCodeError;
use crate::repository::{CommitRecord, CommitRecordV};
use crate::text::{spec_hex_of, to_lowercase_hex};

use sha2::Digest;

verus! {

use vstd::string::StringSliceAdditionalSpecFns;

/// The SHA-256 digest (32 bytes) of a text's UTF-8 bytes. The digest is a
/// pure function of the text: identical content always yields the identical
/// digest.
pub uninterp spec fn sha256_of(s: Seq<char>) -> Seq<u8>;

/// Relies on `sha2::Sha256` (the one-shot `Digest::digest` over the UTF-8
/// bytes): the 32-byte SHA-256 digest is a function of the input text alone.
#[verifier::external_body]
fn sha256_digest(contents: &str) -> (r: Vec<u8>)
    ensures
        r@ == sha256_of(contents@),
        r@.len() == 32,
{
    sha2::Sha256::digest(contents.as_bytes()).to_vec()
}

/// The content-identity key of a text: its SHA-256 digest rendered as 64
/// lowercase hex digits. A de-duplication/versioning key, not a security
/// credential.
pub open spec fn spec_content_hash(s: Seq<char>) -> Seq<char> {
    spec_hex_of(sha256_of(s))
}

/// The file-name part of a `/`-separated path: the characters after the last
/// `/`, or the whole path when it has none (empty when the path ends in `/`).
pub open spec fn spec_file_name(path: Seq<char>) -> Seq<char>
    decreases path.len(),
{
    if path.len() == 0 {
        Seq::empty()
    } else if path.last() == '/' {
        Seq::empty()
    } else {
        spec_file_name(path.drop_last()).push(path.last())
    }
}

/// The extension of a file name: the characters after the last `.`, provided
/// that `.` is not the name's first character (so `.bashrc` has none).
pub open spec fn spec_extension(name: Seq<char>) -> Option<Seq<char>>
    decreases name.len(),
{
    if name.len() <= 1 {
        None
    } else if name.last() == '.' {
        Some(Seq::empty())
    } else {
        match spec_extension(name.drop_last()) {
            Some(e) => Some(e.push(name.last())),
            None => None,
        }
    }
}

/// A path made relative to a repository root: `Some` exactly when `path`
/// starts with `repo` followed by a `/` separator (or `repo` is empty or
/// already ends in `/`), and then the remainder after that separator.
pub open spec fn spec_strip_prefix(repo: Seq<char>, path: Seq<char>) -> Option<Seq<char>> {
    if repo.len() == 0 {
        Some(path)
    } else if repo.last() == '/' {
        if repo.len() <= path.len() && path.take(repo.len() as int) == repo {
            Some(path.skip(repo.len() as int))
        } else {
            None
        }
    } else {
        if repo.len() < path.len() && path.take(repo.len() as int) == repo && path[repo.len() as int]
            == '/' {
            Some(path.skip(repo.len() as int + 1))
        } else {
            None
        }
    }
}

/// The file-name part of a `/`-separated path.
pub fn file_name_of(path: &str) -> (r: String)
    ensures
        r@ == spec_file_name(path@),
    decreases path@.len(),
{
    let n = path.unicode_len();
    if n == 0 {
        String::new()
    } else {
        let c = path.get_char(n - 1);
        if c == '/' {
            String::new()
        } else {
            let prefix = path.substring_char(0, n - 1);
            proof {
                assert(prefix@ =~= path@.drop_last());
            }
            let mut r = file_name_of(prefix);
            r.push(c);
            r
        }
    }
}

/// The extension of a file name, `None` when it has none.
pub fn extension_of(name: &str) -> (r: Option<String>)
    ensures
        r.deep_view() == spec_extension(name@),
    decreases name@.len(),
{
    let n = name.unicode_len();
    if n <= 1 {
        None
    } else {
        let c = name.get_char(n - 1);
        if c == '.' {
            Some(String::new())
        } else {
            let prefix = name.substring_char(0, n - 1);
            proof {
                assert(prefix@ =~= name@.drop_last());
            }
            match extension_of(prefix) {
                Some(mut e) => {
                    e.push(c);
                    Some(e)
                },
                None => None,
            }
        }
    }
}

/// Writes `path` relative to the repository root `repo`, `None` when `path`
/// does not lie under `repo`.
pub fn strip_path_prefix(repo: &str, path: &str) -> (r: Option<String>)
    ensures
        r.deep_view() == spec_strip_prefix(repo@, path@),
{
    let rn = repo.unicode_len();
    let pn = path.unicode_len();
    if rn == 0 {
        return Some(path.to_owned());
    }
    if rn > pn {
        return None;
    }
    let mut i: usize = 0;
    while i < rn
        invariant
            i <= rn,
            rn <= pn,
            rn == repo@.len(),
            pn == path@.len(),
            forall|j: int| 0 <= j < i ==> path@[j] == repo@[j],
        decreases rn - i,
    {
        if path.get_char(i) != repo.get_char(i) {
            proof {
                assert(path@.take(rn as int)[i as int] != repo@[i as int]);
            }
            return None;
        }
        i = i + 1;
    }
    proof {
        assert(path@.take(rn as int) =~= repo@);
    }
    if repo.get_char(rn - 1) == '/' {
        let rest = path.substring_char(rn, pn);
        return Some(rest.to_owned());
    }
    if rn < pn {
        if path.get_char(rn) == '/' {
            let rest = path.substring_char(rn + 1, pn);
            return Some(rest.to_owned());
        }
    }
    None
}

/// Statistics on the language types found in a repository. Each source file
/// is assigned one language; at repository scope, entries of the same
/// language name are merged and their extension sets unioned.
#[derive(Clone, Debug)]
pub struct LanguageType {
    pub name: String,
    pub extensions: Vec<String>,
    pub statistics: Option<Statistics>,
}

#[verifier::ext_equal]
pub struct LanguageTypeV {
    pub name: Seq<char>,
    pub extensions: Seq<Seq<char>>,
    pub statistics: Option<Statistics>,
}

impl View for LanguageType {
    type V = LanguageTypeV;

    open spec fn view(&self) -> LanguageTypeV {
        LanguageTypeV {
            name: self.name@,
            extensions: self.extensions.deep_view(),
            statistics: self.statistics,
        }
    }
}

impl DeepView for LanguageType {
    type V = LanguageTypeV;

    open spec fn deep_view(&self) -> LanguageTypeV {
        self.view()
    }
}

impl LanguageTypeV {
    pub open spec fn wf(self) -> bool {
        match self.statistics {
            Some(s) => s.wf(),
            None => true,
        }
    }

    /// The "no predominant language" sentinel.
    pub open spec fn spec_default() -> LanguageTypeV {
        LanguageTypeV { name: Seq::empty(), extensions: Seq::empty(), statistics: None }
    }
}

impl Default for LanguageType {
    fn default() -> (r: LanguageType)
        ensures
            r@ == LanguageTypeV::spec_default(),
    {
        let r = LanguageType { name: String::new(), extensions: Vec::new(), statistics: None };
        proof {
            assert(r@ =~~= LanguageTypeV::spec_default());
        }
        r
    }
}

/// The record of one source file during a mining pass: identity,
/// classification, content, and statistics. Owned by the repository model;
/// the content is read once at construction and never re-read.
#[derive(Clone, Debug)]
pub struct SourceFileInfo {
    pub name: String,
    pub relative_path: String,
    pub language: Option<LanguageType>,
    pub id_hash: Option<String>,
    pub content: Option<String>,
    pub statistics: Statistics,
}

#[verifier::ext_equal]
pub struct SourceFileInfoV {
    pub name: Seq<char>,
    pub relative_path: Seq<char>,
    pub language: Option<LanguageTypeV>,
    pub id_hash: Option<Seq<char>>,
    pub content: Option<Seq<char>>,
    pub statistics: Statistics,
}

impl View for SourceFileInfo {
    type V = SourceFileInfoV;

    open spec fn view(&self) -> SourceFileInfoV {
        SourceFileInfoV {
            name: self.name@,
            relative_path: self.relative_path@,
            language: self.language.deep_view(),
            id_hash: self.id_hash.deep_view(),
            content: self.content.deep_view(),
            statistics: self.statistics,
        }
    }
}

impl DeepView for SourceFileInfo {
    type V = SourceFileInfoV;

    open spec fn deep_view(&self) -> SourceFileInfoV {
        self.view()
    }
}

impl SourceFileInfo {
    /// Stores the file's content on the record.
    pub fn set_source_file_contents(&mut self, contents: String)
        ensures
            final(self)@ == (SourceFileInfoV { content: Some(contents@), ..old(self)@ }),
    {
        self.content = Some(contents);
    }

    /// The stored content, or the empty string when none was stored.
    pub fn get_source_file_contents(&self) -> (r: String)
        ensures
            r@ == (match self@.content {
                Some(c) => c,
                None => Seq::<char>::empty(),
            }),
    {
        match &self.content {
            Some(c) => c.clone(),
            None => String::new(),
        }
    }

    /// The byte length of a file's content, as a signed 64-bit integer; a
    /// length that does not fit that width is rejected explicitly, never
    /// silently truncated.
    pub fn get_file_contents_size(file_contents: &str) -> (r: Result<i64, SourceCodeError>)
        requires
            file_contents.spec_bytes().len() <= usize::MAX,
        ensures
            match r {
                Ok(n) => 0 <= n && n as int == file_contents.spec_bytes().len(),
                Err(e) => e == SourceCodeError::ConversionError && file_contents.spec_bytes().len()
                    > i64::MAX,
            },
    {
        let len = file_contents.len();
        if len as u64 <= i64::MAX as u64 {
            Ok(len as i64)
        } else {
            Err(SourceCodeError::ConversionError)
        }
    }

    /// Calculates the content-identity hash of a text: SHA-256, rendered as
    /// 64 lowercase hex digits.
    pub fn calculate_hash_from(file_contents: &str) -> (r: String)
        ensures
            r@ == spec_content_hash(file_contents@),
            r@.len() == 64,
    {
        let digest = sha256_digest(file_contents);
        to_lowercase_hex(&digest)
    }
}

/// Clones a vector of strings, keeping its view.
pub fn clone_string_vec(v: &Vec<String>) -> (r: Vec<String>)
    ensures
        r.deep_view() == v.deep_view(),
{
    let mut r: Vec<String> = Vec::new();
    let mut i: usize = 0;
    while i < v.len()
        invariant
            i <= v@.len(),
            r@.len() == i,
            forall|k: int| 0 <= k < i ==> r@[k]@ == v@[k]@,
        decreases v@.len() - i,
    {
        r.push(v[i].clone());
        i = i + 1;
    }
    proof {
        assert(r.deep_view() =~~= v.deep_view());
    }
    r
}

/// Whether `v` holds a string equal to `s`.
pub fn vec_contains_string(v: &Vec<String>, s: &String) -> (r: bool)
    ensures
        r == v.deep_view().contains(s@),
{
    let mut i: usize = 0;
    while i < v.len()
        invariant
            i <= v@.len(),
            forall|k: int| 0 <= k < i ==> v@[k]@ != s@,
        decreases v@.len() - i,
    {
        if (&v[i]).eq(s) {
            proof {
                assert(v.deep_view()[i as int] == s@);
            }
            return true;
        }
        i = i + 1;
    }
    proof {
        assert forall|k: int| 0 <= k < v.deep_view().len() implies v.deep_view()[k] != s@ by {
            assert(v@[k]@ != s@);
        }
    }
    false
}

/// How many commits of `history` touch `path`: a commit counts when it has a
/// parent and its diff against the first parent lists `path`. A root commit
/// (no parent) never counts.
pub open spec fn spec_file_commits(history: Seq<CommitRecordV>, path: Seq<char>) -> int
    decreases history.len(),
{
    if history.len() == 0 {
        0
    } else {
        spec_file_commits(history.drop_last(), path) + (
        if history.last().has_parent && history.last().changed_paths.contains(path) {
            1int
        } else {
            0int
        })
    }
}

pub proof fn lemma_file_commits_bounds(history: Seq<CommitRecordV>, path: Seq<char>)
    ensures
        0 <= spec_file_commits(history, path) <= history.len(),
    decreases history.len(),
{
    if history.len() > 0 {
        lemma_file_commits_bounds(history.drop_last(), path);
    }
}

/// How often one file changes: the number of commits that touch it, over the
/// total number of commits, as a percentage.
#[derive(Clone, Copy, Debug, PartialEq, Eq, Structural)]
pub struct SourceFileChangeFrequency {
    pub file_commits: i32,
    pub total_commits: i32,
    pub frequency: Frequency,
}

impl SourceFileChangeFrequency {
    /// Well-formed: the counts are consistent and the frequency is exactly
    /// `file_commits / total_commits * 100` (zero when there are no commits).
    pub open spec fn wf(self) -> bool {
        &&& 0 <= self.file_commits <= self.total_commits
        &&& self.frequency == (Frequency {
            count: self.file_commits as u64,
            total: self.total_commits as u64,
        })
    }

    /// The record as [`Statistics`]: only the commit count and the frequency
    /// are meaningful at this point; size and line counts are merged in by
    /// the aggregator.
    pub fn get_as_statistics(&self) -> (r: Statistics)
        ensures
            r == (Statistics {
                size: 0,
                loc: 0,
                num_files: 0,
                num_commits: self.file_commits,
                frequency: self.frequency,
            }),
    {
        Statistics {
            size: 0,
            loc: 0,
            num_files: 0,
            num_commits: self.file_commits,
            frequency: self.frequency,
        }
    }

    /// The change frequency of the file at `file_path` inside the repository
    /// rooted at `repo_path`, over the given commit history.
    ///
    /// Fails with `FilePathError` when `file_path` cannot be written relative
    /// to `repo_path`, and with `ConversionError` when the commit count does
    /// not fit the chosen integer width. Otherwise the result is exact:
    /// `total_commits` is the length of the history, `file_commits` counts
    /// the commits whose first-parent diff lists the file, and `frequency`
    /// is their ratio as a percentage (zero when the history is empty).
    pub fn get_from_source_file(
        history: &Vec<CommitRecord>,
        repo_path: &str,
        file_path: &str,
    ) -> (r: Result<SourceFileChangeFrequency, SourceCodeError>)
        ensures
            match spec_strip_prefix(repo_path@, file_path@) {
                None => r == Err::<SourceFileChangeFrequency, SourceCodeError>(
                    SourceCodeError::FilePathError,
                ),
                Some(rel) => match r {
                    Ok(scf) => {
                        &&& history.deep_view().len() <= i32::MAX
                        &&& scf.wf()
                        &&& scf.total_commits as int == history.deep_view().len()
                        &&& scf.file_commits as int == spec_file_commits(
                            history.deep_view(),
                            rel,
                        )
                    },
                    Err(e) => e == SourceCodeError::ConversionError && history.deep_view().len()
                        > i32::MAX,
                },
            },
    {
        let rel = match strip_path_prefix(repo_path, file_path) {
            Some(rel) => rel,
            None => {
                return Err(SourceCodeError::FilePathError);
            },
        };
        let ghost h = history.deep_view();
        let mut file_commits: usize = 0;
        let mut i: usize = 0;
        while i < history.len()
            invariant
                i <= history@.len(),
                h == history.deep_view(),
                h.len() == history@.len(),
                file_commits as int == spec_file_commits(h.take(i as int), rel@),
                file_commits <= i,
            decreases history@.len() - i,
        {
            proof {
                lemma_file_commits_bounds(h.take(i as int), rel@);
            }
            let c = &history[i];
            let touched = if c.has_parent {
                vec_contains_string(&c.changed_paths, &rel)
            } else {
                false
            };
            if touched {
                file_commits = file_commits + 1;
            }
            proof {
                assert(h.take(i + 1).drop_last() =~= h.take(i as int));
                assert(h.take(i + 1).last() == history@[i as int]@);
                assert(file_commits as int == spec_file_commits(h.take(i + 1), rel@));
            }
            i = i + 1;
        }
        proof {
            assert(h.take(history@.len() as int) =~= h);
        }
        let total = history.len();
        if total > i32::MAX as usize {
            return Err(SourceCodeError::ConversionError);
        }
        Ok(SourceFileChangeFrequency {
            file_commits: file_commits as i32,
            total_commits: total as i32,
            frequency: Frequency { count: file_commits as u64, total: total as u64 },
        })
    }
}

/// The lines of code an entry contributes to a language total: its
/// statistics' `loc`, or `0` when it has no statistics yet.
pub open spec fn spec_loc_of(l: LanguageTypeV) -> int {
    match l.statistics {
        Some(s) => s.loc as int,
        None => 0,
    }
}

/// The total lines of code across a language list.
pub open spec fn spec_sum_loc(langs: Seq<LanguageTypeV>) -> int
    decreases langs.len(),
{
    if langs.len() == 0 {
        0
    } else {
        spec_sum_loc(langs.drop_last()) + spec_loc_of(langs.last())
    }
}

pub proof fn lemma_sum_loc_nonneg(langs: Seq<LanguageTypeV>)
    requires
        forall|k: int| 0 <= k < langs.len() ==> (#[trigger] langs[k]).wf(),
    ensures
        0 <= spec_sum_loc(langs),
    decreases langs.len(),
{
    if langs.len() > 0 {
        assert(forall|k: int|
            0 <= k < langs.drop_last().len() ==> (#[trigger] langs.drop_last()[k]).wf());
        lemma_sum_loc_nonneg(langs.drop_last());
        assert(langs.last().wf());
    }
}

pub proof fn lemma_sum_loc_prefix(langs: Seq<LanguageTypeV>, i: int)
    requires
        0 <= i <= langs.len(),
        forall|k: int| 0 <= k < langs.len() ==> (#[trigger] langs[k]).wf(),
    ensures
        0 <= spec_sum_loc(langs.take(i)) <= spec_sum_loc(langs),
{
    assert(forall|k: int| 0 <= k < langs.take(i).len() ==> (#[trigger] langs.take(i)[k]).wf());
    lemma_sum_loc_nonneg(langs.take(i));
    lemma_sum_loc_mono_to_end(langs, i);
}

/// Each entry's lines of code are at most the total across the list.
pub proof fn lemma_loc_le_sum(langs: Seq<LanguageTypeV>, i: int)
    requires
        0 <= i < langs.len(),
        forall|k: int| 0 <= k < langs.len() ==> (#[trigger] langs[k]).wf(),
    ensures
        0 <= spec_loc_of(langs[i]) <= spec_sum_loc(langs),
{
    lemma_sum_loc_prefix(langs, i);
    lemma_sum_loc_prefix(langs, i + 1);
    assert(langs.take(i + 1).drop_last() =~= langs.take(i));
    assert(langs.take(i + 1).last() == langs[i]);
    assert(spec_sum_loc(langs.take(i + 1)) <= spec_sum_loc(langs)) by {
        lemma_sum_loc_mono_to_end(langs, i + 1);
    }
}

proof fn lemma_sum_loc_mono_to_end(langs: Seq<LanguageTypeV>, i: int)
    requires
        0 <= i <= langs.len(),
        forall|k: int| 0 <= k < langs.len() ==> (#[trigger] langs[k]).wf(),
    ensures
        spec_sum_loc(langs.take(i)) <= spec_sum_loc(langs),
    decreases langs.len() - i,
{
    if i == langs.len() {
        assert(langs.take(i) =~= langs);
    } else {
        lemma_sum_loc_mono_to_end(langs, i + 1);
        assert(langs.take(i + 1).drop_last() =~= langs.take(i));
        assert(langs.take(i + 1).last() == langs[i]);
    }
}

pub proof fn lemma_sum_loc_update(langs: Seq<LanguageTypeV>, j: int, v: LanguageTypeV)
    requires
        0 <= j < langs.len(),
    ensures
        spec_sum_loc(langs.update(j, v)) == spec_sum_loc(langs) - spec_loc_of(langs[j])
            + spec_loc_of(v),
    decreases langs.len(),
{
    let u = langs.update(j, v);
    if j == langs.len() - 1 {
        assert(u.drop_last() =~= langs.drop_last());
        assert(u.last() == v);
    } else {
        assert(u.drop_last() =~= langs.drop_last().update(j, v));
        assert(u.last() == langs.last());
        lemma_sum_loc_update(langs.drop_last(), j, v);
        assert(langs.drop_last()[j] == langs[j]);
    }
}

/// One language entry after the percentage distribution over total `total`:
/// entries without statistics are untouched; the rest get the line-share
/// frequency `loc / total * 100` (exactly zero when `total` is zero, since
/// their `loc` is then zero too).
pub open spec fn spec_distributed(l: LanguageTypeV, total: int) -> LanguageTypeV {
    match l.statistics {
        None => l,
        Some(s) => LanguageTypeV {
            statistics: Some(
                Statistics {
                    frequency: Frequency { count: s.loc as u64, total: total as u64 },
                    ..s
                },
            ),
            ..l
        },
    }
}

/// Cross-multiplied comparison of two ratio percentages: for positive
/// denominators, `a.count/a.total > b.count/b.total` exactly when
/// `a.count * b.total > b.count * a.total`. Predominance candidates always
/// have a positive count and hence a positive denominator.
pub open spec fn spec_freq_value_gt(a: Frequency, b: Frequency) -> bool {
    (a.count as int) * (b.total as int) > (b.count as int) * (a.total as int)
}

pub open spec fn spec_freq_value_eq(a: Frequency, b: Frequency) -> bool {
    (a.count as int) * (b.total as int) == (b.count as int) * (a.total as int)
}

/// The deterministic predominance order: strictly higher frequency wins, a
/// frequency tie is broken by larger size, and a full tie keeps the earlier
/// entry of the list.
pub open spec fn spec_better(x: LanguageTypeV, best: LanguageTypeV) -> bool {
    match (x.statistics, best.statistics) {
        (Some(sx), Some(sb)) => spec_freq_value_gt(sx.frequency, sb.frequency) || (
        spec_freq_value_eq(sx.frequency, sb.frequency) && sx.size > sb.size),
        _ => false,
    }
}

/// The predominant language of a list: among the entries with statistics and
/// a positive frequency, the first entry that no later entry strictly beats
/// (see [`spec_better`]); `None` when no entry has a positive frequency.
pub open spec fn spec_predominant(langs: Seq<LanguageTypeV>) -> Option<LanguageTypeV>
    decreases langs.len(),
{
    if langs.len() == 0 {
        None
    } else {
        let rest = spec_predominant(langs.drop_last());
        let x = langs.last();
        match x.statistics {
            Some(s) => if s.frequency.count > 0 {
                match rest {
                    None => Some(x),
                    Some(b) => if spec_better(x, b) {
                        Some(x)
                    } else {
                        Some(b)
                    },
                }
            } else {
                rest
            },
            None => rest,
        }
    }
}

proof fn lemma_u64_mul_fits_u128(x: u64, y: u64)
    ensures
        0 <= (x as int) * (y as int) <= u128::MAX as int,
{
    assert(0 <= (x as int) * (y as int) <= u128::MAX as int) by (nonlinear_arith)
        requires
            0 <= x <= u64::MAX,
            0 <= y <= u64::MAX,
    ;
}

fn freq_cross_gt(a: Frequency, b: Frequency) -> (r: bool)
    ensures
        r == spec_freq_value_gt(a, b),
{
    proof {
        lemma_u64_mul_fits_u128(a.count, b.total);
        lemma_u64_mul_fits_u128(b.count, a.total);
    }
    let x = (a.count as u128) * (b.total as u128);
    let y = (b.count as u128) * (a.total as u128);
    x > y
}

fn freq_cross_eq(a: Frequency, b: Frequency) -> (r: bool)
    ensures
        r == spec_freq_value_eq(a, b),
{
    proof {
        lemma_u64_mul_fits_u128(a.count, b.total);
        lemma_u64_mul_fits_u128(b.count, a.total);
    }
    let x = (a.count as u128) * (b.total as u128);
    let y = (b.count as u128) * (a.total as u128);
    x == y
}

impl LanguageType {
    /// A fresh classification from a language name reported by the code
    /// metrics collaborator: no extensions and no statistics yet.
    pub fn new_from(language_name: &str) -> (r: LanguageType)
        ensures
            r@ == (LanguageTypeV {
                name: language_name@,
                extensions: Seq::empty(),
                statistics: None,
            }),
    {
        let r = LanguageType {
            name: language_name.to_owned(),
            extensions: Vec::new(),
            statistics: None,
        };
        proof {
            assert(r@ =~~= (LanguageTypeV {
                name: language_name@,
                extensions: Seq::empty(),
                statistics: None,
            }));
        }
        r
    }

    /// Sums the lines of code across a language list; a sum that does not
    /// fit the chosen integer width is an explicit error.
    pub fn sum_lines_of_code(language_types: &Vec<LanguageType>) -> (r: Result<
        i64,
        SourceCodeError,
    >)
        requires
            forall|k: int|
                0 <= k < language_types.deep_view().len() ==> (#[trigger] language_types.deep_view()[k]).wf(),
        ensures
            match r {
                Ok(n) => 0 <= n && n as int == spec_sum_loc(language_types.deep_view()),
                Err(e) => e == SourceCodeError::ConversionError && spec_sum_loc(
                    language_types.deep_view(),
                ) > i64::MAX,
            },
    {
        let ghost dv = language_types.deep_view();
        let mut acc: i64 = 0;
        let mut i: usize = 0;
        while i < language_types.len()
            invariant
                i <= language_types@.len(),
                dv == language_types.deep_view(),
                dv.len() == language_types@.len(),
                forall|k: int| 0 <= k < dv.len() ==> (#[trigger] dv[k]).wf(),
                0 <= acc,
                acc as int == spec_sum_loc(dv.take(i as int)),
            decreases language_types@.len() - i,
        {
            let loc = match &language_types[i].statistics {
                Some(st) => st.loc,
                None => 0,
            };
            proof {
                assert(dv[i as int].wf());
                assert(0 <= loc);
                assert(dv.take(i + 1).drop_last() =~= dv.take(i as int));
                assert(dv.take(i + 1).last() == dv[i as int]);
            }
            if acc > i64::MAX - loc {
                proof {
                    lemma_sum_loc_mono_to_end(dv, i + 1);
                }
                return Err(SourceCodeError::ConversionError);
            }
            acc = acc + loc;
            i = i + 1;
        }
        proof {
            assert(dv.take(language_types@.len() as int) =~= dv);
        }
        Ok(acc)
    }

    /// Computes the percentage distribution over a language list: each
    /// entry's frequency becomes its share of the total lines of code,
    /// `loc / total_loc * 100`, exactly zero for every entry when the total
    /// is zero. Entries without statistics are left untouched.
    pub fn calculate_percentage_distribution(languages: &mut Vec<LanguageType>) -> (r: Result<
        (),
        SourceCodeError,
    >)
        requires
            forall|k: int|
                0 <= k < old(languages).deep_view().len() ==> (#[trigger] old(
                    languages,
                ).deep_view()[k]).wf(),
        ensures
            match r {
                Ok(()) => {
                    &&& spec_sum_loc(old(languages).deep_view()) <= i64::MAX
                    &&& final(languages)@.len() == old(languages)@.len()
                    &&& forall|k: int|
                        0 <= k < old(languages).deep_view().len()
                            ==> final(languages).deep_view()[k] == spec_distributed(
                            old(languages).deep_view()[k],
                            spec_sum_loc(old(languages).deep_view()),
                        )
                    &&& forall|k: int|
                        0 <= k < final(languages).deep_view().len()
                            ==> (#[trigger] final(languages).deep_view()[k]).wf()
                },
                Err(e) => {
                    &&& e == SourceCodeError::ConversionError
                    &&& spec_sum_loc(old(languages).deep_view()) > i64::MAX
                    &&& *final(languages) == *old(languages)
                },
            },
    {
        let ghost dv = languages.deep_view();
        let ghost n = languages@.len();
        let total = match LanguageType::sum_lines_of_code(languages) {
            Ok(t) => t,
            Err(e) => {
                return Err(e);
            },
        };
        let mut out: Vec<LanguageType> = Vec::new();
        let mut i: usize = 0;
        while i < languages.len()
            invariant
                i <= languages@.len(),
                dv == languages.deep_view(),
                dv.len() == languages@.len(),
                languages == old(languages),
                forall|k: int| 0 <= k < dv.len() ==> (#[trigger] dv[k]).wf(),
                0 <= total,
                total as int == spec_sum_loc(dv),
                out@.len() == i,
                forall|k: int|
                    0 <= k < i ==> #[trigger] out.deep_view()[k] == spec_distributed(
                        dv[k],
                        total as int,
                    ),
                forall|k: int| 0 <= k < i ==> (#[trigger] out.deep_view()[k]).wf(),
            decreases languages@.len() - i,
        {
            let l = &languages[i];
            let name = l.name.clone();
            let extensions = clone_string_vec(&l.extensions);
            let statistics: Option<Statistics> = match &l.statistics {
                Some(st) => {
                    proof {
                        lemma_loc_le_sum(dv, i as int);
                    }
                    let freq = Frequency { count: st.loc as u64, total: total as u64 };
                    Some(Statistics { frequency: freq, ..*st })
                },
                None => None,
            };
            let entry = LanguageType { name, extensions, statistics };
            proof {
                assert(entry@ =~~= spec_distributed(dv[i as int], total as int));
                assert(dv[i as int].wf());
                assert(entry@.wf());
            }
            let ghost out_before = out.deep_view();
            out.push(entry);
            proof {
                assert(out@.len() == i + 1);
                assert forall|k: int| 0 <= k < i + 1 implies #[trigger] out.deep_view()[k]
                    == spec_distributed(dv[k], total as int) by {
                    if k < i {
                        assert(out@[k] == out@.drop_last()[k]);
                        assert(out.deep_view()[k] == out_before[k]);
                    } else {
                        assert(out@[k] == entry);
                    }
                };
                assert forall|k: int| 0 <= k < i + 1 implies (#[trigger] out.deep_view()[k]).wf()
                    by {
                    assert(out.deep_view()[k] == spec_distributed(dv[k], total as int));
                    lemma_loc_le_sum(dv, k);
                    assert(dv[k].wf());
                };
            }
            i = i + 1;
        }
        *languages = out;
        Ok(())
    }

    /// The predominant language of a list: the entry with the highest
    /// frequency, ties broken by larger size, a full tie keeping the earlier
    /// entry; the default ("no predominant language") record when no entry
    /// has a positive frequency.
    pub fn get_predominant_language(languages: &Vec<LanguageType>) -> (r: LanguageType)
        ensures
            r@ == (match spec_predominant(languages.deep_view()) {
                Some(l) => l,
                None => LanguageTypeV::spec_default(),
            }),
    {
        let ghost dv = languages.deep_view();
        let mut has_best: bool = false;
        let mut best_idx: usize = 0;
        let mut best_stats: Statistics = Statistics::new();
        let mut i: usize = 0;
        while i < languages.len()
            invariant
                i <= languages@.len(),
                dv == languages.deep_view(),
                dv.len() == languages@.len(),
                !has_best ==> spec_predominant(dv.take(i as int)) is None,
                has_best ==> {
                    &&& best_idx < i
                    &&& spec_predominant(dv.take(i as int)) == Some(dv[best_idx as int])
                    &&& dv[best_idx as int].statistics == Some(best_stats)
                },
            decreases languages@.len() - i,
        {
            proof {
                assert(dv.take(i + 1).drop_last() =~= dv.take(i as int));
                assert(dv.take(i + 1).last() == dv[i as int]);
            }
            match &languages[i].statistics {
                Some(st) => {
                    if st.frequency.count > 0 {
                        if !has_best {
                            has_best = true;
                            best_idx = i;
                            best_stats = *st;
                        } else {
                            let better = if freq_cross_gt(st.frequency, best_stats.frequency) {
                                true
                            } else if freq_cross_eq(st.frequency, best_stats.frequency) {
                                st.size > best_stats.size
                            } else {
                                false
                            };
                            proof {
                                assert(better == spec_better(dv[i as int], dv[best_idx as int]));
                            }
                            if better {
                                best_idx = i;
                                best_stats = *st;
                            }
                        }
                    }
                },
                None => {},
            }
            i = i + 1;
        }
        proof {
            assert(dv.take(languages@.len() as int) =~= dv);
        }
        if has_best {
            let chosen = &languages[best_idx];
            let r = LanguageType {
                name: chosen.name.clone(),
                extensions: clone_string_vec(&chosen.extensions),
                statistics: chosen.statistics,
            };
            proof {
                assert(r@ =~~= dv[best_idx as int]);
            }
            r
        } else {
            LanguageType::default()
        }
    }
}

/// The byte length of a text's UTF-8 encoding.
pub open spec fn spec_byte_len(s: Seq<char>) -> int {
    vstd::utf8::encode_utf8(s).len() as int
}

impl SourceFileInfoV {
    pub open spec fn wf(self) -> bool {
        &&& self.statistics.wf()
        &&& match self.language {
            Some(l) => l.wf(),
            None => true,
        }
    }
}

/// The language record one file carries: the reported language name and the
/// file's own extension (no statistics at file scope; statistics appear when
/// languages are aggregated at repository scope).
pub open spec fn spec_file_language(lang_name: Seq<char>, rel: Seq<char>) -> LanguageTypeV {
    LanguageTypeV {
        name: lang_name,
        extensions: match spec_extension(spec_file_name(rel)) {
            Some(e) => seq![e],
            None => Seq::empty(),
        },
        statistics: None,
    }
}

/// One finished file record: every field a function of the file's relative
/// path, reported language and line count, content, and the commit history.
pub open spec fn spec_source_file_info(
    rel: Seq<char>,
    lang_name: Seq<char>,
    loc: int,
    contents: Seq<char>,
    h: Seq<CommitRecordV>,
) -> SourceFileInfoV {
    SourceFileInfoV {
        name: spec_file_name(rel),
        relative_path: rel,
        language: Some(spec_file_language(lang_name, rel)),
        id_hash: Some(spec_content_hash(contents)),
        content: Some(contents),
        statistics: Statistics {
            size: spec_byte_len(contents) as i64,
            loc: loc as i64,
            num_files: 1,
            num_commits: spec_file_commits(h, rel) as i32,
            frequency: Frequency {
                count: spec_file_commits(h, rel) as u64,
                total: h.len() as u64,
            },
        },
    }
}

impl SourceFileInfo {
    /// Builds the record for one discovered file: reads nothing itself — the
    /// caller hands in the content and the per-file line count reported by
    /// the code metrics collaborator — and computes the relative path, file
    /// name, extension, content hash, and per-file statistics including the
    /// change frequency over the given history.
    ///
    /// Fails with `FilePathError` when the file path cannot be written
    /// relative to the repository root, and with `ConversionError` when the
    /// content's byte length, the line count, or the commit count does not
    /// fit its integer width.
    pub fn get_source_file_info(
        repo_path: &str,
        file_path: &str,
        loc: usize,
        lang_type: &LanguageType,
        contents: String,
        history: &Vec<CommitRecord>,
    ) -> (r: Result<SourceFileInfo, SourceCodeError>)
        requires
            spec_byte_len(contents@) <= usize::MAX,
        ensures
            match spec_strip_prefix(repo_path@, file_path@) {
                None => r == Err::<SourceFileInfo, SourceCodeError>(SourceCodeError::FilePathError),
                Some(rel) => {
                    if spec_byte_len(contents@) > i64::MAX || loc > i64::MAX
                        || history.deep_view().len() > i32::MAX {
                        r == Err::<SourceFileInfo, SourceCodeError>(SourceCodeError::ConversionError)
                    } else {
                        match r {
                            Ok(sfi) => sfi@ == spec_source_file_info(
                                rel,
                                lang_type@.name,
                                loc as int,
                                contents@,
                                history.deep_view(),
                            ) && sfi@.wf(),
                            Err(_) => false,
                        }
                    }
                },
            },
    {
        let rel = match strip_path_prefix(repo_path, file_path) {
            Some(r) => r,
            None => {
                return Err(SourceCodeError::FilePathError);
            },
        };
        let scf = match SourceFileChangeFrequency::get_from_source_file(
            history,
            repo_path,
            file_path,
        ) {
            Ok(s) => s,
            Err(e) => {
                return Err(e);
            },
        };
        let size = match SourceFileInfo::get_file_contents_size(contents.as_str()) {
            Ok(s) => s,
            Err(e) => {
                return Err(e);
            },
        };
        if (loc as u64) > i64::MAX as u64 {
            return Err(SourceCodeError::ConversionError);
        }
        let statistics = Statistics::get_statistics_for_source_file(&scf, size, loc as i64);
        let hash = SourceFileInfo::calculate_hash_from(contents.as_str());
        let name = file_name_of(rel.as_str());
        let mut extensions: Vec<String> = Vec::new();
        match extension_of(name.as_str()) {
            Some(e) => extensions.push(e),
            None => (),
        }
        let language = LanguageType {
            name: lang_type.name.clone(),
            extensions,
            statistics: None,
        };
        let mut sfi = SourceFileInfo {
            name,
            relative_path: rel,
            language: Some(language),
            id_hash: Some(hash),
            content: None,
            statistics,
        };
        sfi.set_source_file_contents(contents);
        proof {
            let rel_s = spec_strip_prefix(repo_path@, file_path@).unwrap();
            lemma_file_commits_bounds(history.deep_view(), rel_s);
            assert(sfi@ =~~= spec_source_file_info(
                rel_s,
                lang_type@.name,
                loc as int,
                contents@,
                history.deep_view(),
            ));
        }
        Ok(sfi)
    }
}

/// The sum of the frequency numerators a language list carries.
pub open spec fn spec_sum_freq_counts(langs: Seq<LanguageTypeV>) -> int
    decreases langs.len(),
{
    if langs.len() == 0 {
        0
    } else {
        spec_sum_freq_counts(langs.drop_last()) + (match langs.last().statistics {
            Some(s) => s.frequency.count as int,
            None => 0,
        })
    }
}

proof fn lemma_sum_counts(langs: Seq<LanguageTypeV>, dist: Seq<LanguageTypeV>, total: int)
    requires
        forall|k: int| 0 <= k < langs.len() ==> (#[trigger] langs[k]).wf(),
        forall|k: int| 0 <= k < langs.len() ==> (#[trigger] langs[k]).statistics is Some,
        0 <= total <= i64::MAX,
        dist.len() == langs.len(),
        forall|k: int|
            0 <= k < langs.len() ==> #[trigger] dist[k] == spec_distributed(langs[k], total),
    ensures
        spec_sum_freq_counts(dist) == spec_sum_loc(langs),
    decreases langs.len(),
{
    if langs.len() > 0 {
        assert(forall|k: int|
            0 <= k < langs.drop_last().len() ==> #[trigger] dist.drop_last()[k]
                == spec_distributed(langs.drop_last()[k], total));
        lemma_sum_counts(langs.drop_last(), dist.drop_last(), total);
        assert(dist.last() == spec_distributed(langs[langs.len() - 1], total));
        assert(langs[langs.len() - 1].wf());
    }
}

/// Percentage-distribution law: over a language list in which every entry
/// carries statistics, the distribution gives every entry's frequency the
/// common denominator `total_loc` and a numerator equal to its own line
/// count, and those numerators sum to exactly `total_loc`. So when
/// `total_loc > 0`, the percentages `100 * count / total` sum to exactly
/// `100` — no floating-point tolerance is needed — and when `total_loc == 0`
/// every entry's share is exactly `0`.
pub proof fn lemma_distribution_sums_to_hundred(
    langs: Seq<LanguageTypeV>,
    dist: Seq<LanguageTypeV>,
)
    requires
        forall|k: int| 0 <= k < langs.len() ==> (#[trigger] langs[k]).wf(),
        forall|k: int| 0 <= k < langs.len() ==> (#[trigger] langs[k]).statistics is Some,
        0 <= spec_sum_loc(langs) <= i64::MAX,
        dist.len() == langs.len(),
        forall|k: int|
            0 <= k < langs.len() ==> #[trigger] dist[k] == spec_distributed(
                langs[k],
                spec_sum_loc(langs),
            ),
    ensures
        forall|k: int|
            0 <= k < dist.len() ==> (#[trigger] dist[k]).statistics is Some
                && dist[k].statistics.unwrap().frequency.total as int == spec_sum_loc(langs)
                && dist[k].statistics.unwrap().frequency.wf(),
        spec_sum_freq_counts(dist) == spec_sum_loc(langs),
{
    assert forall|k: int| 0 <= k < dist.len() implies (#[trigger] dist[k]).statistics is Some
        && dist[k].statistics.unwrap().frequency.total as int == spec_sum_loc(langs)
        && dist[k].statistics.unwrap().frequency.wf() by {
        assert(langs[k].wf());
        lemma_loc_le_sum(langs, k);
    }
    lemma_sum_counts(langs, dist, spec_sum_loc(langs));
}

/// Content-identity law: the hash is a pure function of the content —
/// identical content always yields the identical digest. (That different
/// content yields a different digest holds only with overwhelming
/// probability; the tests exercise it, nothing can prove it.)
pub proof fn lemma_content_hash_pure(a: Seq<char>, b: Seq<char>)
    requires
        a == b,
    ensures
        spec_content_hash(a) == spec_content_hash(b),
{
}

} // verus!
