//! The repository model: the commit history as mined data, contributor
//! aggregation, repository-level statistics, and the aggregate root that owns
//! the per-file records.

use vstd::prelude::*;

use crate::data::{Frequency, Statistics};
use crate::errors::SourceCodeError;
use crate::source::{
    clone_string_vec, lemma_sum_loc_update, spec_byte_len, spec_distributed, spec_loc_of, spec_predominant,
    spec_source_file_info, spec_strip_prefix, spec_sum_loc, vec_contains_string, LanguageType,
    LanguageTypeV, SourceFileInfo, SourceFileInfoV,
};

verus! {

/// One commit of the repository's history, as the version-control
/// collaborator reports it: the author's display name, the author timestamp
/// in seconds since the Unix epoch, whether the commit has a parent, and the
/// paths changed against the first parent's tree (for each changed entry the
/// new-file path, falling back to the old-file path when the new one is
/// absent, e.g. for deletions). Paths are repository-root-relative with `/`
/// as the separator.
#[derive(Clone, Debug)]
pub struct CommitRecord {
    pub author_name: String,
    pub author_time: i64,
    pub has_parent: bool,
    pub changed_paths: Vec<String>,
}

#[verifier::ext_equal]
pub struct CommitRecordV {
    pub author_name: Seq<char>,
    pub author_time: int,
    pub has_parent: bool,
    pub changed_paths: Seq<Seq<char>>,
}

impl View for CommitRecord {
    type V = CommitRecordV;

    open spec fn view(&self) -> CommitRecordV {
        CommitRecordV {
            author_name: self.author_name@,
            author_time: self.author_time as int,
            has_parent: self.has_parent,
            changed_paths: self.changed_paths.deep_view(),
        }
    }
}

impl DeepView for CommitRecord {
    type V = CommitRecordV;

    open spec fn deep_view(&self) -> CommitRecordV {
        self.view()
    }
}

/// All records of a file list are well-formed.
pub open spec fn spec_files_wf(files: Seq<SourceFileInfoV>) -> bool {
    forall|k: int| 0 <= k < files.len() ==> (#[trigger] files[k]).wf()
}

pub open spec fn spec_fsize(f: SourceFileInfoV) -> int {
    f.statistics.size as int
}

pub open spec fn spec_floc(f: SourceFileInfoV) -> int {
    f.statistics.loc as int
}

/// The total byte size across a file list.
pub open spec fn spec_sum_size(files: Seq<SourceFileInfoV>) -> int
    decreases files.len(),
{
    if files.len() == 0 {
        0
    } else {
        spec_sum_size(files.drop_last()) + spec_fsize(files.last())
    }
}

/// The total lines of code across a file list.
pub open spec fn spec_sum_floc(files: Seq<SourceFileInfoV>) -> int
    decreases files.len(),
{
    if files.len() == 0 {
        0
    } else {
        spec_sum_floc(files.drop_last()) + spec_floc(files.last())
    }
}

pub proof fn lemma_sum_size_nonneg(files: Seq<SourceFileInfoV>)
    requires
        spec_files_wf(files),
    ensures
        0 <= spec_sum_size(files),
    decreases files.len(),
{
    if files.len() > 0 {
        assert(spec_files_wf(files.drop_last()));
        lemma_sum_size_nonneg(files.drop_last());
        assert(files.last().wf());
    }
}

pub proof fn lemma_sum_size_mono_to_end(files: Seq<SourceFileInfoV>, i: int)
    requires
        0 <= i <= files.len(),
        spec_files_wf(files),
    ensures
        spec_sum_size(files.take(i)) <= spec_sum_size(files),
    decreases files.len() - i,
{
    if i == files.len() {
        assert(files.take(i) =~= files);
    } else {
        lemma_sum_size_mono_to_end(files, i + 1);
        assert(files.take(i + 1).drop_last() =~= files.take(i));
        assert(files.take(i + 1).last() == files[i]);
        assert(files[i].wf());
    }
}

pub proof fn lemma_sum_size_prefix(files: Seq<SourceFileInfoV>, i: int)
    requires
        0 <= i <= files.len(),
        spec_files_wf(files),
    ensures
        0 <= spec_sum_size(files.take(i)) <= spec_sum_size(files),
{
    assert(spec_files_wf(files.take(i)));
    lemma_sum_size_nonneg(files.take(i));
    lemma_sum_size_mono_to_end(files, i);
}

pub proof fn lemma_sum_floc_nonneg(files: Seq<SourceFileInfoV>)
    requires
        spec_files_wf(files),
    ensures
        0 <= spec_sum_floc(files),
    decreases files.len(),
{
    if files.len() > 0 {
        assert(spec_files_wf(files.drop_last()));
        lemma_sum_floc_nonneg(files.drop_last());
        assert(files.last().wf());
    }
}

pub proof fn lemma_sum_floc_mono_to_end(files: Seq<SourceFileInfoV>, i: int)
    requires
        0 <= i <= files.len(),
        spec_files_wf(files),
    ensures
        spec_sum_floc(files.take(i)) <= spec_sum_floc(files),
    decreases files.len() - i,
{
    if i == files.len() {
        assert(files.take(i) =~= files);
    } else {
        lemma_sum_floc_mono_to_end(files, i + 1);
        assert(files.take(i + 1).drop_last() =~= files.take(i));
        assert(files.take(i + 1).last() == files[i]);
        assert(files[i].wf());
    }
}

pub proof fn lemma_sum_floc_prefix(files: Seq<SourceFileInfoV>, i: int)
    requires
        0 <= i <= files.len(),
        spec_files_wf(files),
    ensures
        0 <= spec_sum_floc(files.take(i)) <= spec_sum_floc(files),
{
    assert(spec_files_wf(files.take(i)));
    lemma_sum_floc_nonneg(files.take(i));
    lemma_sum_floc_mono_to_end(files, i);
}

/// One contributor's aggregate over the whole history: display name, number
/// of commits, the most recent author timestamp, and the share of all
/// commits as a percentage.
#[derive(Clone, Debug)]
pub struct Contributor {
    pub name: String,
    pub last_contribution: i64,
    pub percentage_contribution: Frequency,
    pub statistics: Statistics,
}

#[verifier::ext_equal]
pub struct ContributorV {
    pub name: Seq<char>,
    pub last_contribution: int,
    pub percentage_contribution: Frequency,
    pub statistics: Statistics,
}

impl View for Contributor {
    type V = ContributorV;

    open spec fn view(&self) -> ContributorV {
        ContributorV {
            name: self.name@,
            last_contribution: self.last_contribution as int,
            percentage_contribution: self.percentage_contribution,
            statistics: self.statistics,
        }
    }
}

impl DeepView for Contributor {
    type V = ContributorV;

    open spec fn deep_view(&self) -> ContributorV {
        self.view()
    }
}

impl ContributorV {
    pub open spec fn wf(self) -> bool {
        &&& self.percentage_contribution.wf()
        &&& self.statistics.wf()
    }
}

/// The first index in the author groups whose name is `name`, `-1` when the
/// name does not occur yet.
pub open spec fn spec_find_author(groups: Seq<(Seq<char>, int, int)>, name: Seq<char>) -> int
    decreases groups.len(),
{
    if groups.len() == 0 {
        -1
    } else if groups[0].0 == name {
        0
    } else {
        let r = spec_find_author(groups.drop_first(), name);
        if r < 0 {
            -1
        } else {
            r + 1
        }
    }
}

pub proof fn lemma_find_author_props(groups: Seq<(Seq<char>, int, int)>, name: Seq<char>)
    ensures
        -1 <= spec_find_author(groups, name) < groups.len(),
        spec_find_author(groups, name) == -1 <==> (forall|k: int|
            0 <= k < groups.len() ==> (#[trigger] groups[k]).0 != name),
        spec_find_author(groups, name) >= 0 ==> groups[spec_find_author(groups, name)].0 == name
            && (forall|k: int|
            0 <= k < spec_find_author(groups, name) ==> (#[trigger] groups[k]).0 != name),
    decreases groups.len(),
{
    if groups.len() > 0 && groups[0].0 != name {
        let rest = groups.drop_first();
        lemma_find_author_props(rest, name);
        assert(forall|k: int| 0 <= k < rest.len() ==> rest[k] == groups[k + 1]);
        let r = spec_find_author(groups, name);
        if spec_find_author(rest, name) >= 0 {
            assert(groups[r] == rest[r - 1]);
            assert forall|k: int| 0 <= k < r implies (#[trigger] groups[k]).0 != name by {
                if k > 0 {
                    assert(groups[k] == rest[k - 1]);
                }
            }
        } else {
            assert forall|k: int| 0 <= k < groups.len() implies (#[trigger] groups[k]).0 != name
                by {
                if k > 0 {
                    assert(groups[k] == rest[k - 1]);
                }
            }
        }
    }
}

/// The author groups after walking a history once, in order of each author's
/// first appearance: for each author the commit count and the maximum
/// (most recent) author timestamp.
pub open spec fn spec_author_groups(h: Seq<CommitRecordV>) -> Seq<(Seq<char>, int, int)>
    decreases h.len(),
{
    if h.len() == 0 {
        Seq::empty()
    } else {
        let acc = spec_author_groups(h.drop_last());
        let c = h.last();
        let j = spec_find_author(acc, c.author_name);
        if j < 0 {
            acc.push((c.author_name, 1int, c.author_time))
        } else {
            acc.update(
                j,
                (acc[j].0, acc[j].1 + 1, if c.author_time > acc[j].2 {
                    c.author_time
                } else {
                    acc[j].2
                }),
            )
        }
    }
}

/// The contributor record one author group yields, with `total` the number
/// of commits in the whole history: the percentage contribution is
/// `count / total * 100`, and only the commit count is meaningful in the
/// statistics.
pub open spec fn spec_contributor(g: (Seq<char>, int, int), total: int) -> ContributorV {
    ContributorV {
        name: g.0,
        last_contribution: g.2,
        percentage_contribution: Frequency { count: g.1 as u64, total: total as u64 },
        statistics: Statistics {
            size: 0,
            loc: 0,
            num_files: 0,
            num_commits: g.1 as i32,
            frequency: Frequency { count: 0, total: 0 },
        },
    }
}

/// One author's running aggregate while the history is walked: name, commit
/// count so far, most recent author timestamp so far.
pub struct AuthorGroup {
    pub name: String,
    pub count: usize,
    pub last: i64,
}

impl View for AuthorGroup {
    type V = (Seq<char>, int, int);

    open spec fn view(&self) -> (Seq<char>, int, int) {
        (self.name@, self.count as int, self.last as int)
    }
}

impl DeepView for AuthorGroup {
    type V = (Seq<char>, int, int);

    open spec fn deep_view(&self) -> (Seq<char>, int, int) {
        self.view()
    }
}

fn find_author_group(groups: &Vec<AuthorGroup>, name: &String) -> (r: Option<usize>)
    ensures
        match r {
            Some(j) => j < groups@.len() && spec_find_author(groups.deep_view(), name@) == j,
            None => spec_find_author(groups.deep_view(), name@) == -1,
        },
{
    let ghost dv = groups.deep_view();
    let mut i: usize = 0;
    while i < groups.len()
        invariant
            i <= groups@.len(),
            dv == groups.deep_view(),
            dv.len() == groups@.len(),
            forall|k: int| 0 <= k < i ==> (#[trigger] dv[k]).0 != name@,
        decreases groups@.len() - i,
    {
        if (&groups[i].name).eq(name) {
            proof {
                lemma_find_author_props(dv, name@);
                assert(dv[i as int].0 == name@);
            }
            return Some(i);
        }
        i = i + 1;
    }
    proof {
        lemma_find_author_props(dv, name@);
    }
    None
}

impl Contributor {
    pub fn new(
        name: String,
        last_contribution: i64,
        percentage_contribution: Frequency,
        statistics: Statistics,
    ) -> (r: Contributor)
        ensures
            r@ == (ContributorV {
                name: name@,
                last_contribution: last_contribution as int,
                percentage_contribution,
                statistics,
            }),
    {
        Contributor { name, last_contribution, percentage_contribution, statistics }
    }

    /// Aggregates contributors over a commit history: one record per author
    /// display name, in order of first appearance, with the author's commit
    /// count, most recent author timestamp, and percentage of all commits
    /// (`count / total * 100`, zero when the history is empty).
    pub fn get_git_contributors(history: &Vec<CommitRecord>) -> (r: Vec<Contributor>)
        requires
            history@.len() <= i32::MAX,
        ensures
            r.deep_view().len() == spec_author_groups(history.deep_view()).len(),
            forall|k: int|
                0 <= k < r.deep_view().len() ==> #[trigger] r.deep_view()[k] == spec_contributor(
                    spec_author_groups(history.deep_view())[k],
                    history@.len() as int,
                ),
            forall|k: int| 0 <= k < r.deep_view().len() ==> (#[trigger] r.deep_view()[k]).wf(),
    {
        let ghost h = history.deep_view();
        let n = history.len();
        let mut groups: Vec<AuthorGroup> = Vec::new();
        let mut i: usize = 0;
        while i < n
            invariant
                i <= n,
                n == history@.len(),
                h == history.deep_view(),
                h.len() == history@.len(),
                groups.deep_view() == spec_author_groups(h.take(i as int)),
                groups@.len() == groups.deep_view().len(),
                forall|k: int|
                    0 <= k < groups@.len() ==> 1 <= (#[trigger] groups.deep_view()[k]).1 <= i,
            decreases n - i,
        {
            proof {
                assert(h.take(i + 1).drop_last() =~= h.take(i as int));
                assert(h.take(i + 1).last() == history@[i as int]@);
            }
            let c = &history[i];
            let ghost before = groups.deep_view();
            match find_author_group(&groups, &c.author_name) {
                Some(j) => {
                    let g = groups.remove(j);
                    proof {
                        assert(g@ == before[j as int]);
                        assert(1 <= before[j as int].1 <= i as int);
                    }
                    let last = if c.author_time > g.last {
                        c.author_time
                    } else {
                        g.last
                    };
                    groups.insert(j, AuthorGroup { name: g.name, count: g.count + 1, last });
                    proof {
                        assert(groups.deep_view() =~~= before.update(
                            j as int,
                            (before[j as int].0, before[j as int].1 + 1, if history@[i as int]@.author_time
                                > before[j as int].2 {
                                history@[i as int]@.author_time
                            } else {
                                before[j as int].2
                            }),
                        ));
                    }
                },
                None => {
                    groups.push(AuthorGroup { name: c.author_name.clone(), count: 1, last: c.author_time });
                    proof {
                        assert(groups.deep_view() =~~= before.push(
                            (history@[i as int]@.author_name, 1int, history@[i as int]@.author_time),
                        ));
                    }
                },
            }
            i = i + 1;
        }
        proof {
            assert(h.take(n as int) =~= h);
        }
        let mut contributors: Vec<Contributor> = Vec::new();
        let mut k: usize = 0;
        while k < groups.len()
            invariant
                k <= groups@.len(),
                n <= i32::MAX,
                groups.deep_view() == spec_author_groups(h),
                groups@.len() == groups.deep_view().len(),
                forall|j: int|
                    0 <= j < groups@.len() ==> 1 <= (#[trigger] groups.deep_view()[j]).1 <= n,
                contributors@.len() == k,
                forall|j: int|
                    0 <= j < k ==> #[trigger] contributors.deep_view()[j] == spec_contributor(
                        groups.deep_view()[j],
                        n as int,
                    ),
                forall|j: int|
                    0 <= j < k ==> (#[trigger] contributors.deep_view()[j]).wf(),
            decreases groups@.len() - k,
        {
            let g = &groups[k];
            let c = Contributor {
                name: g.name.clone(),
                last_contribution: g.last,
                percentage_contribution: Frequency { count: g.count as u64, total: n as u64 },
                statistics: Statistics {
                    size: 0,
                    loc: 0,
                    num_files: 0,
                    num_commits: g.count as i32,
                    frequency: Frequency { count: 0, total: 0 },
                },
            };
            proof {
                assert(g@ == groups.deep_view()[k as int]);
                assert(c@ =~~= spec_contributor(groups.deep_view()[k as int], n as int));
            }
            let ghost cb = contributors.deep_view();
            contributors.push(c);
            proof {
                assert forall|j: int| 0 <= j < k + 1 implies #[trigger] contributors.deep_view()[j]
                    == spec_contributor(groups.deep_view()[j], n as int) by {
                    if j < k {
                        assert(contributors@[j] == contributors@.drop_last()[j]);
                        assert(contributors.deep_view()[j] == cb[j]);
                    }
                };
                assert forall|j: int| 0 <= j < k + 1 implies (#[trigger] contributors.deep_view()[j]).wf() by {
                    assert(contributors.deep_view()[j] == spec_contributor(
                        groups.deep_view()[j],
                        n as int,
                    ));
                    assert(1 <= groups.deep_view()[j].1 <= n);
                };
            }
            k = k + 1;
        }
        contributors
    }
}


/// The first index in a language list whose name is `name`, `-1` when the
/// name does not occur.
pub open spec fn spec_find_lang(langs: Seq<LanguageTypeV>, name: Seq<char>) -> int
    decreases langs.len(),
{
    if langs.len() == 0 {
        -1
    } else if langs[0].name == name {
        0
    } else {
        let r = spec_find_lang(langs.drop_first(), name);
        if r < 0 {
            -1
        } else {
            r + 1
        }
    }
}

pub proof fn lemma_find_lang_props(langs: Seq<LanguageTypeV>, name: Seq<char>)
    ensures
        -1 <= spec_find_lang(langs, name) < langs.len(),
        spec_find_lang(langs, name) == -1 <==> (forall|k: int|
            0 <= k < langs.len() ==> (#[trigger] langs[k]).name != name),
        spec_find_lang(langs, name) >= 0 ==> langs[spec_find_lang(langs, name)].name == name && (
        forall|k: int|
            0 <= k < spec_find_lang(langs, name) ==> (#[trigger] langs[k]).name != name),
    decreases langs.len(),
{
    if langs.len() > 0 && langs[0].name != name {
        let rest = langs.drop_first();
        lemma_find_lang_props(rest, name);
        assert(forall|k: int| 0 <= k < rest.len() ==> rest[k] == langs[k + 1]);
        let r = spec_find_lang(langs, name);
        if spec_find_lang(rest, name) >= 0 {
            assert(langs[r] == rest[r - 1]);
            assert forall|k: int| 0 <= k < r implies (#[trigger] langs[k]).name != name by {
                if k > 0 {
                    assert(langs[k] == rest[k - 1]);
                }
            }
        } else {
            assert forall|k: int| 0 <= k < langs.len() implies (#[trigger] langs[k]).name != name
                by {
                if k > 0 {
                    assert(langs[k] == rest[k - 1]);
                }
            }
        }
    }
}

/// The repository-scope language entry a first file of its language opens:
/// the file's language name and extension set, and statistics seeded from
/// the file (one file; no commit count or frequency at language scope —
/// neither has a per-language denominator; the frequency is set later by the
/// percentage distribution).
pub open spec fn spec_lang_entry_new(f: SourceFileInfoV, l: LanguageTypeV) -> LanguageTypeV {
    LanguageTypeV {
        name: l.name,
        extensions: l.extensions,
        statistics: Some(
            Statistics {
                size: f.statistics.size,
                loc: f.statistics.loc,
                num_files: 1,
                num_commits: 0,
                frequency: Frequency { count: 0, total: 0 },
            },
        ),
    }
}

/// An extension set unioned with further extensions, kept deduplicated and
/// in first-appearance order.
pub open spec fn spec_merge_exts(a: Seq<Seq<char>>, b: Seq<Seq<char>>) -> Seq<Seq<char>>
    decreases b.len(),
{
    if b.len() == 0 {
        a
    } else {
        let m = spec_merge_exts(a, b.drop_last());
        if m.contains(b.last()) {
            m
        } else {
            m.push(b.last())
        }
    }
}

/// An existing language entry with one more file of the same language folded
/// in: extension sets unioned, sizes and line counts summed, one more file.
pub open spec fn spec_merge_lang(e: LanguageTypeV, f: SourceFileInfoV, l: LanguageTypeV) -> LanguageTypeV {
    let es = match e.statistics {
        Some(s) => s,
        None => Statistics::spec_zero(),
    };
    LanguageTypeV {
        name: e.name,
        extensions: spec_merge_exts(e.extensions, l.extensions),
        statistics: Some(
            Statistics {
                size: (es.size + f.statistics.size) as i64,
                loc: (es.loc + f.statistics.loc) as i64,
                num_files: (es.num_files + 1) as i32,
                num_commits: 0,
                frequency: Frequency { count: 0, total: 0 },
            },
        ),
    }
}

/// The aggregated language list of a file list: one entry per language name,
/// in order of first appearance; files without a language are skipped.
pub open spec fn spec_aggregate_langs(files: Seq<SourceFileInfoV>) -> Seq<LanguageTypeV>
    decreases files.len(),
{
    if files.len() == 0 {
        Seq::empty()
    } else {
        let acc = spec_aggregate_langs(files.drop_last());
        let f = files.last();
        match f.language {
            None => acc,
            Some(l) => {
                let j = spec_find_lang(acc, l.name);
                if j < 0 {
                    acc.push(spec_lang_entry_new(f, l))
                } else {
                    acc.update(j, spec_merge_lang(acc[j], f, l))
                }
            },
        }
    }
}

/// The aggregated language list with the percentage distribution applied:
/// each entry's frequency is its share of the total lines of code.
pub open spec fn spec_repo_languages(files: Seq<SourceFileInfoV>) -> Seq<LanguageTypeV> {
    let langs = spec_aggregate_langs(files);
    langs.map_values(|l: LanguageTypeV| spec_distributed(l, spec_sum_loc(langs)))
}

/// The predominant language of a file list: highest line share, ties broken
/// by larger size, a full tie keeping the earlier entry; the default record
/// when no language has a positive share.
pub open spec fn spec_repo_predominant(files: Seq<SourceFileInfoV>) -> LanguageTypeV {
    match spec_predominant(spec_repo_languages(files)) {
        Some(l) => l,
        None => LanguageTypeV::spec_default(),
    }
}

fn find_language(langs: &Vec<LanguageType>, name: &String) -> (r: Option<usize>)
    ensures
        match r {
            Some(j) => j < langs@.len() && spec_find_lang(langs.deep_view(), name@) == j,
            None => spec_find_lang(langs.deep_view(), name@) == -1,
        },
{
    let ghost dv = langs.deep_view();
    let mut i: usize = 0;
    while i < langs.len()
        invariant
            i <= langs@.len(),
            dv == langs.deep_view(),
            dv.len() == langs@.len(),
            forall|k: int| 0 <= k < i ==> (#[trigger] dv[k]).name != name@,
        decreases langs@.len() - i,
    {
        if (&langs[i].name).eq(name) {
            proof {
                lemma_find_lang_props(dv, name@);
                assert(dv[i as int].name == name@);
            }
            return Some(i);
        }
        i = i + 1;
    }
    proof {
        lemma_find_lang_props(dv, name@);
    }
    None
}

/// Unions further extensions into a set kept deduplicated and ordered by
/// first appearance.
fn merge_extensions(base: Vec<String>, add: &Vec<String>) -> (r: Vec<String>)
    ensures
        r.deep_view() == spec_merge_exts(base.deep_view(), add.deep_view()),
{
    let ghost bdv = base.deep_view();
    let ghost adv = add.deep_view();
    let mut m = base;
    let mut i: usize = 0;
    while i < add.len()
        invariant
            i <= add@.len(),
            adv == add.deep_view(),
            adv.len() == add@.len(),
            m.deep_view() == spec_merge_exts(bdv, adv.take(i as int)),
        decreases add@.len() - i,
    {
        proof {
            assert(adv.take(i + 1).drop_last() =~= adv.take(i as int));
            assert(adv.take(i + 1).last() == add@[i as int]@);
        }
        if !vec_contains_string(&m, &add[i]) {
            let ghost mb = m.deep_view();
            m.push(add[i].clone());
            proof {
                assert(m.deep_view() =~~= mb.push(add@[i as int]@));
            }
        }
        i = i + 1;
    }
    proof {
        assert(adv.take(add@.len() as int) =~= adv);
    }
    m
}

/// The mined model of one repository: the aggregate root that owns the
/// contributors and the per-file records, built once per mining pass and not
/// mutated afterwards.
#[derive(Clone, Debug)]
pub struct RepositoryInfo {
    pub name: String,
    pub predominant_language: Option<LanguageType>,
    pub statistics: Statistics,
    pub contributors: Vec<Contributor>,
    pub source_files: Vec<SourceFileInfo>,
}

#[verifier::ext_equal]
pub struct RepositoryInfoV {
    pub name: Seq<char>,
    pub predominant_language: Option<LanguageTypeV>,
    pub statistics: Statistics,
    pub contributors: Seq<ContributorV>,
    pub source_files: Seq<SourceFileInfoV>,
}

impl View for RepositoryInfo {
    type V = RepositoryInfoV;

    open spec fn view(&self) -> RepositoryInfoV {
        RepositoryInfoV {
            name: self.name@,
            predominant_language: self.predominant_language.deep_view(),
            statistics: self.statistics,
            contributors: self.contributors.deep_view(),
            source_files: self.source_files.deep_view(),
        }
    }
}

impl DeepView for RepositoryInfo {
    type V = RepositoryInfoV;

    open spec fn deep_view(&self) -> RepositoryInfoV {
        self.view()
    }
}

/// One file handed to a mining pass: the path as the code metrics
/// collaborator reported it, the reported language name and per-file line
/// count, and the file content read once by the caller.
#[derive(Clone, Debug)]
pub struct FileInput {
    pub path: String,
    pub language_name: String,
    pub loc: usize,
    pub contents: String,
}

#[verifier::ext_equal]
pub struct FileInputV {
    pub path: Seq<char>,
    pub language_name: Seq<char>,
    pub loc: int,
    pub contents: Seq<char>,
}

impl View for FileInput {
    type V = FileInputV;

    open spec fn view(&self) -> FileInputV {
        FileInputV {
            path: self.path@,
            language_name: self.language_name@,
            loc: self.loc as int,
            contents: self.contents@,
        }
    }
}

impl DeepView for FileInput {
    type V = FileInputV;

    open spec fn deep_view(&self) -> FileInputV {
        self.view()
    }
}

/// What one file input yields: its finished record, or the error that aborts
/// the pass (an unrelatable path, or a magnitude that does not fit its
/// integer width).
pub open spec fn spec_build_file(
    repo: Seq<char>,
    f: FileInputV,
    h: Seq<CommitRecordV>,
) -> Result<SourceFileInfoV, SourceCodeError> {
    match spec_strip_prefix(repo, f.path) {
        None => Err(SourceCodeError::FilePathError),
        Some(rel) => if spec_byte_len(f.contents) > i64::MAX || f.loc > i64::MAX || h.len()
            > i32::MAX {
            Err(SourceCodeError::ConversionError)
        } else {
            Ok(spec_source_file_info(rel, f.language_name, f.loc, f.contents, h))
        },
    }
}

/// What a whole file list yields: the records in input order, or the first
/// file's error.
pub open spec fn spec_build_files(
    repo: Seq<char>,
    files: Seq<FileInputV>,
    h: Seq<CommitRecordV>,
) -> Result<Seq<SourceFileInfoV>, SourceCodeError>
    decreases files.len(),
{
    if files.len() == 0 {
        Ok(Seq::empty())
    } else {
        match spec_build_files(repo, files.drop_last(), h) {
            Err(e) => Err(e),
            Ok(acc) => match spec_build_file(repo, files.last(), h) {
                Err(e) => Err(e),
                Ok(v) => Ok(acc.push(v)),
            },
        }
    }
}

pub proof fn lemma_build_files_err_persists(
    repo: Seq<char>,
    files: Seq<FileInputV>,
    h: Seq<CommitRecordV>,
    i: int,
)
    requires
        0 <= i <= files.len(),
        spec_build_files(repo, files.take(i), h) is Err,
    ensures
        spec_build_files(repo, files, h) == spec_build_files(repo, files.take(i), h),
    decreases files.len() - i,
{
    if i == files.len() {
        assert(files.take(i) =~= files);
    } else {
        assert(files.take(i + 1).drop_last() =~= files.take(i));
        lemma_build_files_err_persists(repo, files, h, i + 1);
    }
}

/// The entire mining pass as a function of its inputs: the per-file records,
/// the aggregated statistics and languages, the predominant language, and
/// the contributor list — or the single typed failure that aborts the pass.
/// Equal inputs yield the equal model.
pub open spec fn spec_mine(
    name: Seq<char>,
    repo: Seq<char>,
    files: Seq<FileInputV>,
    h: Seq<CommitRecordV>,
) -> Result<RepositoryInfoV, SourceCodeError> {
    match spec_build_files(repo, files, h) {
        Err(e) => Err(e),
        Ok(sfs) => if spec_sum_size(sfs) > i64::MAX || spec_sum_floc(sfs) > i64::MAX || sfs.len()
            > i32::MAX || h.len() > i32::MAX {
            Err(SourceCodeError::ConversionError)
        } else {
            Ok(
                RepositoryInfoV {
                    name: name,
                    predominant_language: Some(spec_repo_predominant(sfs)),
                    statistics: Statistics {
                        size: spec_sum_size(sfs) as i64,
                        loc: spec_sum_floc(sfs) as i64,
                        num_files: sfs.len() as i32,
                        num_commits: h.len() as i32,
                        frequency: Frequency { count: 0, total: 0 },
                    },
                    contributors: Seq::new(
                        spec_author_groups(h).len(),
                        |k: int| spec_contributor(spec_author_groups(h)[k], h.len() as int),
                    ),
                    source_files: sfs,
                },
            )
        },
    }
}

impl RepositoryInfo {
    /// The total byte size across a file list; a sum that does not fit the
    /// chosen integer width is an explicit error.
    pub fn get_total_size(source_file_infos: &Vec<SourceFileInfo>) -> (r: Result<
        i64,
        SourceCodeError,
    >)
        requires
            spec_files_wf(source_file_infos.deep_view()),
        ensures
            match r {
                Ok(n) => 0 <= n && n as int == spec_sum_size(source_file_infos.deep_view()),
                Err(e) => e == SourceCodeError::ConversionError && spec_sum_size(
                    source_file_infos.deep_view(),
                ) > i64::MAX,
            },
    {
        let ghost dv = source_file_infos.deep_view();
        let mut acc: i64 = 0;
        let mut i: usize = 0;
        while i < source_file_infos.len()
            invariant
                i <= source_file_infos@.len(),
                dv == source_file_infos.deep_view(),
                dv.len() == source_file_infos@.len(),
                spec_files_wf(dv),
                0 <= acc,
                acc as int == spec_sum_size(dv.take(i as int)),
            decreases source_file_infos@.len() - i,
        {
            let size = source_file_infos[i].statistics.size;
            proof {
                assert(dv[i as int].wf());
                assert(dv.take(i + 1).drop_last() =~= dv.take(i as int));
                assert(dv.take(i + 1).last() == dv[i as int]);
            }
            if acc > i64::MAX - size {
                proof {
                    lemma_sum_size_mono_to_end(dv, i + 1);
                }
                return Err(SourceCodeError::ConversionError);
            }
            acc = acc + size;
            i = i + 1;
        }
        proof {
            assert(dv.take(source_file_infos@.len() as int) =~= dv);
        }
        Ok(acc)
    }

    /// The total lines of code across a file list; a sum that does not fit
    /// the chosen integer width is an explicit error.
    pub fn get_total_lines_of_code(source_file_infos: &Vec<SourceFileInfo>) -> (r: Result<
        i64,
        SourceCodeError,
    >)
        requires
            spec_files_wf(source_file_infos.deep_view()),
        ensures
            match r {
                Ok(n) => 0 <= n && n as int == spec_sum_floc(source_file_infos.deep_view()),
                Err(e) => e == SourceCodeError::ConversionError && spec_sum_floc(
                    source_file_infos.deep_view(),
                ) > i64::MAX,
            },
    {
        let ghost dv = source_file_infos.deep_view();
        let mut acc: i64 = 0;
        let mut i: usize = 0;
        while i < source_file_infos.len()
            invariant
                i <= source_file_infos@.len(),
                dv == source_file_infos.deep_view(),
                dv.len() == source_file_infos@.len(),
                spec_files_wf(dv),
                0 <= acc,
                acc as int == spec_sum_floc(dv.take(i as int)),
            decreases source_file_infos@.len() - i,
        {
            let loc = source_file_infos[i].statistics.loc;
            proof {
                assert(dv[i as int].wf());
                assert(dv.take(i + 1).drop_last() =~= dv.take(i as int));
                assert(dv.take(i + 1).last() == dv[i as int]);
            }
            if acc > i64::MAX - loc {
                proof {
                    lemma_sum_floc_mono_to_end(dv, i + 1);
                }
                return Err(SourceCodeError::ConversionError);
            }
            acc = acc + loc;
            i = i + 1;
        }
        proof {
            assert(dv.take(source_file_infos@.len() as int) =~= dv);
        }
        Ok(acc)
    }

    /// The total number of commits reachable from the head: the length of
    /// the walked history. A count that does not fit the chosen integer
    /// width is an explicit error.
    pub fn get_total_commits(history: &Vec<CommitRecord>) -> (r: Result<i32, SourceCodeError>)
        ensures
            match r {
                Ok(n) => history@.len() <= i32::MAX && n as int == history@.len(),
                Err(e) => e == SourceCodeError::ConversionError && history@.len() > i32::MAX,
            },
    {
        let n = history.len();
        if n as u64 > i32::MAX as u64 {
            Err(SourceCodeError::ConversionError)
        } else {
            Ok(n as i32)
        }
    }

    /// Aggregates the per-file language records at repository scope: one
    /// entry per language name, in order of first appearance, extension sets
    /// unioned and statistics summed. Files without a language are skipped.
    pub fn aggregate_languages(source_files: &Vec<SourceFileInfo>) -> (r: Vec<LanguageType>)
        requires
            spec_files_wf(source_files.deep_view()),
            spec_sum_size(source_files.deep_view()) <= i64::MAX,
            spec_sum_floc(source_files.deep_view()) <= i64::MAX,
            source_files@.len() <= i32::MAX,
        ensures
            r.deep_view() == spec_aggregate_langs(source_files.deep_view()),
            forall|k: int|
                0 <= k < r.deep_view().len() ==> (#[trigger] r.deep_view()[k]).wf(),
            spec_sum_loc(r.deep_view()) <= spec_sum_floc(source_files.deep_view()),
    {
        let ghost dv = source_files.deep_view();
        let n = source_files.len();
        let mut acc: Vec<LanguageType> = Vec::new();
        let mut i: usize = 0;
        while i < n
            invariant
                i <= n,
                n == source_files@.len(),
                n <= i32::MAX,
                dv == source_files.deep_view(),
                dv.len() == n,
                spec_files_wf(dv),
                spec_sum_size(dv) <= i64::MAX,
                spec_sum_floc(dv) <= i64::MAX,
                acc.deep_view() == spec_aggregate_langs(dv.take(i as int)),
                acc@.len() == acc.deep_view().len(),
                forall|k: int| 0 <= k < acc@.len() ==> (#[trigger] acc.deep_view()[k]).wf(),
                forall|k: int|
                    0 <= k < acc@.len() ==> (#[trigger] acc.deep_view()[k]).statistics is Some,
                forall|k: int|
                    0 <= k < acc@.len() ==> 0 <= spec_lang_size(#[trigger] acc.deep_view()[k])
                        <= spec_sum_size(dv.take(i as int)),
                forall|k: int|
                    0 <= k < acc@.len() ==> 0 <= spec_loc_of(#[trigger] acc.deep_view()[k])
                        <= spec_sum_floc(dv.take(i as int)),
                forall|k: int|
                    0 <= k < acc@.len() ==> 0 <= spec_lang_files(#[trigger] acc.deep_view()[k])
                        <= i,
                spec_sum_loc(acc.deep_view()) <= spec_sum_floc(dv.take(i as int)),
            decreases n - i,
        {
            proof {
                assert(dv.take(i + 1).drop_last() =~= dv.take(i as int));
                assert(dv.take(i + 1).last() == dv[i as int]);
                assert(dv[i as int].wf());
                lemma_sum_size_mono_to_end(dv, i + 1);
                lemma_sum_floc_mono_to_end(dv, i + 1);
                lemma_sum_size_prefix(dv, i as int);
                lemma_sum_floc_prefix(dv, i as int);
            }
            let f = &source_files[i];
            let ghost before = acc.deep_view();
            match &f.language {
                None => {},
                Some(l) => {
                    match find_language(&acc, &l.name) {
                        None => {
                            let entry = LanguageType {
                                name: l.name.clone(),
                                extensions: clone_string_vec(&l.extensions),
                                statistics: Some(
                                    Statistics {
                                        size: f.statistics.size,
                                        loc: f.statistics.loc,
                                        num_files: 1,
                                        num_commits: 0,
                                        frequency: Frequency { count: 0, total: 0 },
                                    },
                                ),
                            };
                            proof {
                                let lv = dv[i as int].language.unwrap();
                                assert(entry@ =~~= spec_lang_entry_new(dv[i as int], lv));
                            }
                            acc.push(entry);
                            proof {
                                assert(acc.deep_view() =~~= before.push(
                                    spec_lang_entry_new(
                                        dv[i as int],
                                        dv[i as int].language.unwrap(),
                                    ),
                                ));
                                assert(acc.deep_view().drop_last() =~= before);
                                assert(spec_sum_loc(acc.deep_view()) == spec_sum_loc(before)
                                    + spec_floc(dv[i as int]));
                            }
                        },
                        Some(j) => {
                            let e = acc.remove(j);
                            proof {
                                assert(e@ == before[j as int]);
                            }
                            let es = match &e.statistics {
                                Some(s) => *s,
                                None => Statistics::new(),
                            };
                            let entry = LanguageType {
                                name: e.name,
                                extensions: merge_extensions(e.extensions, &l.extensions),
                                statistics: Some(
                                    Statistics {
                                        size: es.size + f.statistics.size,
                                        loc: es.loc + f.statistics.loc,
                                        num_files: es.num_files + 1,
                                        num_commits: 0,
                                        frequency: Frequency { count: 0, total: 0 },
                                    },
                                ),
                            };
                            acc.insert(j, entry);
                            proof {
                                let lv = dv[i as int].language.unwrap();
                                let merged = spec_merge_lang(before[j as int], dv[i as int], lv);
                                assert(acc.deep_view() =~~= before.update(j as int, merged));
                                lemma_sum_loc_update(before, j as int, merged);
                                assert(spec_loc_of(merged) == spec_loc_of(before[j as int])
                                    + spec_floc(dv[i as int]));
                                assert(spec_sum_loc(acc.deep_view()) == spec_sum_loc(before)
                                    + spec_floc(dv[i as int]));
                            }
                        },
                    }
                },
            }
            i = i + 1;
        }
        proof {
            assert(dv.take(n as int) =~= dv);
        }
        acc
    }

    /// The predominant language of a mined file list: aggregate the
    /// languages, distribute the line-share percentages, and pick the entry
    /// with the highest share (ties broken by larger size, then by earlier
    /// appearance); the default record when no language has a positive
    /// share. A magnitude that does not fit its integer width is an explicit
    /// error.
    pub fn get_predominant_language(source_files: &Vec<SourceFileInfo>) -> (r: Result<
        LanguageType,
        SourceCodeError,
    >)
        requires
            spec_files_wf(source_files.deep_view()),
        ensures
            match r {
                Ok(l) => l@ == spec_repo_predominant(source_files.deep_view()),
                Err(e) => {
                    &&& e == SourceCodeError::ConversionError
                    &&& (spec_sum_size(source_files.deep_view()) > i64::MAX || spec_sum_floc(
                        source_files.deep_view(),
                    ) > i64::MAX || source_files@.len() > i32::MAX)
                },
            },
    {
        let ghost dv = source_files.deep_view();
        match Self::get_total_size(source_files) {
            Ok(_) => {},
            Err(e) => {
                return Err(e);
            },
        }
        match Self::get_total_lines_of_code(source_files) {
            Ok(_) => {},
            Err(e) => {
                return Err(e);
            },
        }
        if source_files.len() as u64 > i32::MAX as u64 {
            return Err(SourceCodeError::ConversionError);
        }
        let mut languages = Self::aggregate_languages(source_files);
        let ghost agg = languages.deep_view();
        match LanguageType::calculate_percentage_distribution(&mut languages) {
            Ok(()) => {},
            Err(_) => {
                // Unreachable: the language line totals were proved to fit
                // just above, and the distribution fails only when they do not.
                proof {
                    assert(false);
                }
                return Err(SourceCodeError::ConversionError);
            },
        }
        proof {
            assert(languages.deep_view() =~~= spec_repo_languages(dv));
        }
        let l = LanguageType::get_predominant_language(&languages);
        Ok(l)
    }

    /// One whole mining pass: builds every file record, sums the
    /// repository-level statistics, selects the predominant language, and
    /// aggregates the contributors — or aborts with the pass's first typed
    /// failure, yielding no model at all.
    ///
    /// The result is a pure function of the inputs ([`spec_mine`]): mining
    /// the same name, paths, file contents and history again yields the
    /// identical model. The repository-level statistics satisfy
    /// `size == Σ file.size`, `loc == Σ file.loc`,
    /// `num_files == #files`, and `num_commits == #commits`; the
    /// repository-level `frequency` is intentionally left zero (it has no
    /// repository-level denominator).
    pub fn new(
        name: String,
        repo_path: &str,
        files: &Vec<FileInput>,
        history: &Vec<CommitRecord>,
    ) -> (r: Result<RepositoryInfo, SourceCodeError>)
        requires
            forall|k: int|
                0 <= k < files.deep_view().len() ==> spec_byte_len(
                    (#[trigger] files.deep_view()[k]).contents,
                ) <= usize::MAX,
        ensures
            match r {
                Ok(ri) => {
                    &&& spec_mine(name@, repo_path@, files.deep_view(), history.deep_view())
                        == Ok::<RepositoryInfoV, SourceCodeError>(ri@)
                    &&& ri@.statistics.size as int == spec_sum_size(ri@.source_files)
                    &&& ri@.statistics.loc as int == spec_sum_floc(ri@.source_files)
                    &&& ri@.statistics.num_files as int == ri@.source_files.len()
                    &&& ri@.statistics.num_commits as int == history@.len()
                    &&& ri@.statistics.frequency == (Frequency { count: 0u64, total: 0u64 })
                    &&& ri@.statistics.wf()
                    &&& spec_files_wf(ri@.source_files)
                    &&& forall|k: int|
                        0 <= k < ri@.contributors.len() ==> (#[trigger] ri@.contributors[k]).wf()
                },
                Err(e) => spec_mine(name@, repo_path@, files.deep_view(), history.deep_view())
                    == Err::<RepositoryInfoV, SourceCodeError>(e),
            },
    {
        let source_files = match Self::get_source_file_info_for_repo(repo_path, files, history) {
            Ok(v) => v,
            Err(e) => {
                return Err(e);
            },
        };
        let total_size = match Self::get_total_size(&source_files) {
            Ok(n) => n,
            Err(e) => {
                return Err(e);
            },
        };
        let total_loc = match Self::get_total_lines_of_code(&source_files) {
            Ok(n) => n,
            Err(e) => {
                return Err(e);
            },
        };
        if source_files.len() as u64 > i32::MAX as u64 {
            return Err(SourceCodeError::ConversionError);
        }
        let total_commits = match Self::get_total_commits(history) {
            Ok(n) => n,
            Err(e) => {
                return Err(e);
            },
        };
        let predominant = match Self::get_predominant_language(&source_files) {
            Ok(l) => l,
            Err(e) => {
                // Unreachable: the sums and the file count were checked above.
                proof {
                    assert(false);
                }
                return Err(e);
            },
        };
        let contributors = Contributor::get_git_contributors(history);
        let num_files = source_files.len() as i32;
        let statistics = Statistics {
            size: total_size,
            loc: total_loc,
            num_files,
            num_commits: total_commits,
            frequency: Frequency { count: 0, total: 0 },
        };
        let ri = RepositoryInfo {
            name,
            predominant_language: Some(predominant),
            statistics,
            contributors,
            source_files,
        };
        proof {
            let m = spec_mine(
                ri.name@,
                repo_path@,
                files.deep_view(),
                history.deep_view(),
            );
            assert(m is Ok);
            assert(ri@ =~~= m.unwrap());
        }
        Ok(ri)
    }

    /// Builds the per-file records for a whole mining pass, in input order;
    /// the first file that fails aborts the pass with its error.
    pub fn get_source_file_info_for_repo(
        repo_path: &str,
        files: &Vec<FileInput>,
        history: &Vec<CommitRecord>,
    ) -> (r: Result<Vec<SourceFileInfo>, SourceCodeError>)
        requires
            forall|k: int|
                0 <= k < files.deep_view().len() ==> spec_byte_len(
                    (#[trigger] files.deep_view()[k]).contents,
                ) <= usize::MAX,
        ensures
            match r {
                Ok(v) => {
                    &&& spec_build_files(repo_path@, files.deep_view(), history.deep_view())
                        == Ok::<Seq<SourceFileInfoV>, SourceCodeError>(v.deep_view())
                    &&& spec_files_wf(v.deep_view())
                },
                Err(e) => spec_build_files(repo_path@, files.deep_view(), history.deep_view())
                    == Err::<Seq<SourceFileInfoV>, SourceCodeError>(e),
            },
    {
        let ghost fdv = files.deep_view();
        let ghost h = history.deep_view();
        let mut out: Vec<SourceFileInfo> = Vec::new();
        proof {
            assert(fdv.take(0) =~= Seq::<FileInputV>::empty());
            assert(out.deep_view() =~= Seq::<SourceFileInfoV>::empty());
        }
        let mut i: usize = 0;
        while i < files.len()
            invariant
                i <= files@.len(),
                fdv == files.deep_view(),
                fdv.len() == files@.len(),
                h == history.deep_view(),
                forall|k: int|
                    0 <= k < fdv.len() ==> spec_byte_len((#[trigger] fdv[k]).contents)
                        <= usize::MAX,
                spec_build_files(repo_path@, fdv.take(i as int), h) == Ok::<
                    Seq<SourceFileInfoV>,
                    SourceCodeError,
                >(out.deep_view()),
                out@.len() == out.deep_view().len(),
                spec_files_wf(out.deep_view()),
            decreases files@.len() - i,
        {
            proof {
                assert(fdv.take(i + 1).drop_last() =~= fdv.take(i as int));
                assert(fdv.take(i + 1).last() == files@[i as int]@);
            }
            let f = &files[i];
            let lang_type = LanguageType::new_from(f.language_name.as_str());
            let sfi = match SourceFileInfo::get_source_file_info(
                repo_path,
                f.path.as_str(),
                f.loc,
                &lang_type,
                f.contents.clone(),
                history,
            ) {
                Ok(sfi) => sfi,
                Err(e) => {
                    proof {
                        assert(spec_build_files(repo_path@, fdv.take(i + 1), h) == Err::<
                            Seq<SourceFileInfoV>,
                            SourceCodeError,
                        >(e));
                        lemma_build_files_err_persists(repo_path@, fdv, h, i + 1);
                    }
                    return Err(e);
                },
            };
            let ghost ob = out.deep_view();
            out.push(sfi);
            proof {
                assert(out.deep_view() =~~= ob.push(
                    spec_build_file(repo_path@, fdv[i as int], h).unwrap(),
                ));
            }
            i = i + 1;
        }
        proof {
            assert(fdv.take(files@.len() as int) =~= fdv);
        }
        Ok(out)
    }
}

/// The byte size a language entry carries.
pub open spec fn spec_lang_size(l: LanguageTypeV) -> int {
    match l.statistics {
        Some(s) => s.size as int,
        None => 0,
    }
}

/// The file count a language entry carries.
pub open spec fn spec_lang_files(l: LanguageTypeV) -> int {
    match l.statistics {
        Some(s) => s.num_files as int,
        None => 0,
    }
}

} // verus!
