//! The interchange document: the repository model rendered as JSON by the
//! library's own verified encoder. The rendering is pinned character by
//! character to spec functions, so equal models serialize to byte-identical
//! documents. Absent `language` fields are omitted entirely (not null), and
//! raw file content is never included.

use vstd::prelude::*;

use crate::data::{Frequency, Statistics};
use crate::errors::SourceCodeError;
use crate::repository::{
    spec_mine, CommitRecordV, Contributor, ContributorV, FileInputV, RepositoryInfo,
    RepositoryInfoV,
};
use crate::source::{LanguageType, LanguageTypeV, SourceFileInfo, SourceFileInfoV};
use crate::text::{
    push_dec_i64, push_dec_u64, push_json_string, spec_dec_i64, spec_dec_u64, spec_json_string,
};

verus! {

pub open spec fn spec_json_frequency(f: Frequency) -> Seq<char> {
    "{\"count\":"@ + spec_dec_u64(f.count as int) + ",\"total\":"@ + spec_dec_u64(f.total as int)
        + "}"@
}

pub fn push_json_frequency(out: &mut String, f: &Frequency)
    ensures
        final(out)@ == old(out)@ + spec_json_frequency(*f),
{
    out.append("{\"count\":");
    push_dec_u64(out, f.count);
    out.append(",\"total\":");
    push_dec_u64(out, f.total);
    out.append("}");
    assert(final(out)@ =~= old(out)@ + spec_json_frequency(*f));
}

pub open spec fn spec_json_statistics(s: Statistics) -> Seq<char> {
    "{\"size\":"@ + spec_dec_i64(s.size as int) + ",\"loc\":"@ + spec_dec_i64(s.loc as int)
        + ",\"num_files\":"@ + spec_dec_i64(s.num_files as int) + ",\"num_commits\":"@
        + spec_dec_i64(s.num_commits as int) + ",\"frequency\":"@ + spec_json_frequency(s.frequency)
        + "}"@
}

pub fn push_json_statistics(out: &mut String, s: &Statistics)
    ensures
        final(out)@ == old(out)@ + spec_json_statistics(*s),
{
    out.append("{\"size\":");
    push_dec_i64(out, s.size);
    out.append(",\"loc\":");
    push_dec_i64(out, s.loc);
    out.append(",\"num_files\":");
    push_dec_i64(out, s.num_files as i64);
    out.append(",\"num_commits\":");
    push_dec_i64(out, s.num_commits as i64);
    out.append(",\"frequency\":");
    push_json_frequency(out, &s.frequency);
    out.append("}");
    assert(final(out)@ =~= old(out)@ + spec_json_statistics(*s));
}

/// The string-array rendering of an extension set.
pub open spec fn spec_json_str_items(items: Seq<Seq<char>>) -> Seq<char>
    decreases items.len(),
{
    if items.len() == 0 {
        Seq::empty()
    } else if items.len() == 1 {
        spec_json_string(items[0])
    } else {
        spec_json_str_items(items.drop_last()) + ","@ + spec_json_string(items.last())
    }
}

pub open spec fn spec_json_str_array(items: Seq<Seq<char>>) -> Seq<char> {
    "["@ + spec_json_str_items(items) + "]"@
}

pub fn push_json_str_array(out: &mut String, items: &Vec<String>)
    ensures
        final(out)@ == old(out)@ + spec_json_str_array(items.deep_view()),
{
    let ghost dv = items.deep_view();
    out.append("[");
    let mut i: usize = 0;
    while i < items.len()
        invariant
            i <= items@.len(),
            dv == items.deep_view(),
            dv.len() == items@.len(),
            out@ == old(out)@ + "["@ + spec_json_str_items(dv.take(i as int)),
        decreases items@.len() - i,
    {
        if i > 0 {
            out.append(",");
        }
        push_json_string(out, items[i].as_str());
        proof {
            assert(dv.take(i + 1).drop_last() =~= dv.take(i as int));
            assert(dv.take(i + 1).last() == items@[i as int]@);
            assert(out@ =~= old(out)@ + "["@ + spec_json_str_items(dv.take(i + 1)));
        }
        i = i + 1;
    }
    out.append("]");
    proof {
        assert(dv.take(items@.len() as int) =~= dv);
        assert(final(out)@ =~= old(out)@ + spec_json_str_array(dv));
    }
}

/// A language entry: the `statistics` member is omitted entirely when absent.
pub open spec fn spec_json_language(l: LanguageTypeV) -> Seq<char> {
    "{\"name\":"@ + spec_json_string(l.name) + ",\"extensions\":"@ + spec_json_str_array(
        l.extensions,
    ) + (match l.statistics {
        Some(s) => ",\"statistics\":"@ + spec_json_statistics(s),
        None => Seq::empty(),
    }) + "}"@
}

pub fn push_json_language(out: &mut String, l: &LanguageType)
    ensures
        final(out)@ == old(out)@ + spec_json_language(l@),
{
    out.append("{\"name\":");
    push_json_string(out, l.name.as_str());
    out.append(",\"extensions\":");
    push_json_str_array(out, &l.extensions);
    match &l.statistics {
        Some(s) => {
            out.append(",\"statistics\":");
            push_json_statistics(out, s);
        },
        None => {},
    }
    out.append("}");
    assert(final(out)@ =~= old(out)@ + spec_json_language(l@));
}

pub open spec fn spec_json_contributor(c: ContributorV) -> Seq<char> {
    "{\"name\":"@ + spec_json_string(c.name) + ",\"last_contribution\":"@ + spec_dec_i64(
        c.last_contribution,
    ) + ",\"percentage_contribution\":"@ + spec_json_frequency(c.percentage_contribution)
        + ",\"statistics\":"@ + spec_json_statistics(c.statistics) + "}"@
}

pub fn push_json_contributor(out: &mut String, c: &Contributor)
    ensures
        final(out)@ == old(out)@ + spec_json_contributor(c@),
{
    out.append("{\"name\":");
    push_json_string(out, c.name.as_str());
    out.append(",\"last_contribution\":");
    push_dec_i64(out, c.last_contribution);
    out.append(",\"percentage_contribution\":");
    push_json_frequency(out, &c.percentage_contribution);
    out.append(",\"statistics\":");
    push_json_statistics(out, &c.statistics);
    out.append("}");
    assert(final(out)@ =~= old(out)@ + spec_json_contributor(c@));
}

/// A file record: the `language` member is omitted entirely when absent, the
/// raw content is never included, every other member is always present.
pub open spec fn spec_json_source_file(f: SourceFileInfoV) -> Seq<char> {
    "{\"name\":"@ + spec_json_string(f.name) + ",\"relative_path\":"@ + spec_json_string(
        f.relative_path,
    ) + (match f.language {
        Some(l) => ",\"language\":"@ + spec_json_language(l),
        None => Seq::empty(),
    }) + ",\"id_hash\":"@ + (match f.id_hash {
        Some(h) => spec_json_string(h),
        None => "null"@,
    }) + ",\"statistics\":"@ + spec_json_statistics(f.statistics) + "}"@
}

#[verifier::rlimit(50)]
pub fn push_json_source_file(out: &mut String, f: &SourceFileInfo)
    ensures
        final(out)@ == old(out)@ + spec_json_source_file(f@),
{
    out.append("{\"name\":");
    push_json_string(out, f.name.as_str());
    out.append(",\"relative_path\":");
    push_json_string(out, f.relative_path.as_str());
    match &f.language {
        Some(l) => {
            out.append(",\"language\":");
            push_json_language(out, l);
        },
        None => {},
    }
    out.append(",\"id_hash\":");
    match &f.id_hash {
        Some(h) => push_json_string(out, h.as_str()),
        None => out.append("null"),
    }
    out.append(",\"statistics\":");
    push_json_statistics(out, &f.statistics);
    out.append("}");
    assert(final(out)@ =~= old(out)@ + spec_json_source_file(f@));
}

pub open spec fn spec_json_contributor_items(items: Seq<ContributorV>) -> Seq<char>
    decreases items.len(),
{
    if items.len() == 0 {
        Seq::empty()
    } else if items.len() == 1 {
        spec_json_contributor(items[0])
    } else {
        spec_json_contributor_items(items.drop_last()) + ","@ + spec_json_contributor(items.last())
    }
}

pub fn push_json_contributor_array(out: &mut String, items: &Vec<Contributor>)
    ensures
        final(out)@ == old(out)@ + "["@ + spec_json_contributor_items(items.deep_view()) + "]"@,
{
    let ghost dv = items.deep_view();
    out.append("[");
    let mut i: usize = 0;
    while i < items.len()
        invariant
            i <= items@.len(),
            dv == items.deep_view(),
            dv.len() == items@.len(),
            out@ == old(out)@ + "["@ + spec_json_contributor_items(dv.take(i as int)),
        decreases items@.len() - i,
    {
        if i > 0 {
            out.append(",");
        }
        push_json_contributor(out, &items[i]);
        proof {
            assert(dv.take(i + 1).drop_last() =~= dv.take(i as int));
            assert(dv.take(i + 1).last() == items@[i as int]@);
            assert(out@ =~= old(out)@ + "["@ + spec_json_contributor_items(dv.take(i + 1)));
        }
        i = i + 1;
    }
    out.append("]");
    proof {
        assert(dv.take(items@.len() as int) =~= dv);
        assert(final(out)@ =~= old(out)@ + "["@ + spec_json_contributor_items(dv) + "]"@);
    }
}

pub open spec fn spec_json_source_file_items(items: Seq<SourceFileInfoV>) -> Seq<char>
    decreases items.len(),
{
    if items.len() == 0 {
        Seq::empty()
    } else if items.len() == 1 {
        spec_json_source_file(items[0])
    } else {
        spec_json_source_file_items(items.drop_last()) + ","@ + spec_json_source_file(items.last())
    }
}

pub fn push_json_source_file_array(out: &mut String, items: &Vec<SourceFileInfo>)
    ensures
        final(out)@ == old(out)@ + "["@ + spec_json_source_file_items(items.deep_view()) + "]"@,
{
    let ghost dv = items.deep_view();
    out.append("[");
    let mut i: usize = 0;
    while i < items.len()
        invariant
            i <= items@.len(),
            dv == items.deep_view(),
            dv.len() == items@.len(),
            out@ == old(out)@ + "["@ + spec_json_source_file_items(dv.take(i as int)),
        decreases items@.len() - i,
    {
        if i > 0 {
            out.append(",");
        }
        push_json_source_file(out, &items[i]);
        proof {
            assert(dv.take(i + 1).drop_last() =~= dv.take(i as int));
            assert(dv.take(i + 1).last() == items@[i as int]@);
            assert(out@ =~= old(out)@ + "["@ + spec_json_source_file_items(dv.take(i + 1)));
        }
        i = i + 1;
    }
    out.append("]");
    proof {
        assert(dv.take(items@.len() as int) =~= dv);
        assert(final(out)@ =~= old(out)@ + "["@ + spec_json_source_file_items(dv) + "]"@);
    }
}

/// The whole interchange document of one mined repository.
pub open spec fn spec_json_repository(r: RepositoryInfoV) -> Seq<char> {
    "{\"name\":"@ + spec_json_string(r.name) + ",\"predominant_language\":"@ + (match r
        .predominant_language {
        Some(l) => spec_json_language(l),
        None => "null"@,
    }) + ",\"statistics\":"@ + spec_json_statistics(r.statistics) + ",\"contributors\":"@ + "["@
        + spec_json_contributor_items(r.contributors) + "]"@ + ",\"source_files\":"@ + "["@
        + spec_json_source_file_items(r.source_files) + "]"@ + "}"@
}

impl RepositoryInfo {
    /// The repository model as its JSON interchange document. This encoder
    /// is total, so the result is always `Ok`; the serialization is exactly
    /// [`spec_json_repository`] of the model, so equal models yield
    /// byte-identical documents.
    pub fn get_as_json(&self) -> (r: Result<String, SourceCodeError>)
        ensures
            match r {
                Ok(s) => s@ == spec_json_repository(self@),
                Err(_) => false,
            },
    {
        let mut out = String::new();
        out.append("{\"name\":");
        push_json_string(&mut out, self.name.as_str());
        out.append(",\"predominant_language\":");
        match &self.predominant_language {
            Some(l) => push_json_language(&mut out, l),
            None => out.append("null"),
        }
        out.append(",\"statistics\":");
        push_json_statistics(&mut out, &self.statistics);
        out.append(",\"contributors\":");
        push_json_contributor_array(&mut out, &self.contributors);
        out.append(",\"source_files\":");
        push_json_source_file_array(&mut out, &self.source_files);
        out.append("}");
        assert(out@ =~= spec_json_repository(self@));
        Ok(out)
    }
}

/// Idempotence law: a mining pass is a pure function of its inputs
/// ([`spec_mine`]), and the interchange document is a pure function of the
/// model, so two passes over an unchanged repository — the same name, paths,
/// file contents, and commit history — produce the same model and a
/// byte-identical serialized document. The one history-dependent timestamp,
/// `last_contribution`, is a function of the history's author timestamps and
/// is therefore equally stable.
pub proof fn lemma_mining_idempotent(
    name: Seq<char>,
    repo: Seq<char>,
    files: Seq<FileInputV>,
    h: Seq<CommitRecordV>,
    r1: RepositoryInfoV,
    r2: RepositoryInfoV,
)
    requires
        spec_mine(name, repo, files, h) == Ok::<RepositoryInfoV, SourceCodeError>(r1),
        spec_mine(name, repo, files, h) == Ok::<RepositoryInfoV, SourceCodeError>(r2),
    ensures
        r1 == r2,
        spec_json_repository(r1) == spec_json_repository(r2),
{
}

} // verus!
