//! The statistics record shared by files, languages, contributors and the
//! repository itself, and the exact percentage type its `frequency` field uses.

use vstd::prelude::*;

use crate::source::SourceFileChangeFrequency;

verus! {

/// A percentage stated exactly as a ratio: the value is `count / total * 100`.
/// When the denominator `total` is `0` the value is defined to be `0` (the
/// count is then `0` as well), never an error and never a division by zero.
///
/// Two ratios of this type occur in the model under the one field name
/// `frequency`: a commit-change ratio (commits touching a file over total
/// commits) at file scope, and a line-share ratio (lines of one language over
/// all lines) at language scope. At repository scope the field is left zero:
/// it has no well-defined denominator there.
#[derive(Clone, Copy, Debug, PartialEq, Eq, Structural)]
pub struct Frequency {
    pub count: u64,
    pub total: u64,
}

impl Frequency {
    /// Well-formed: the numerator never exceeds the denominator, so the
    /// percentage lies in `[0, 100]`; a zero denominator forces a zero count.
    pub open spec fn wf(self) -> bool {
        self.count <= self.total
    }

    /// The zero percentage, used wherever a denominator is `0` or a
    /// frequency is intentionally left unset.
    pub fn zero() -> (r: Frequency)
        ensures
            r == (Frequency { count: 0u64, total: 0u64 }),
            r.wf(),
    {
        Frequency { count: 0, total: 0 }
    }

    pub fn new(count: u64, total: u64) -> (r: Frequency)
        requires
            count <= total,
        ensures
            r == (Frequency { count, total }),
            r.wf(),
    {
        Frequency { count, total }
    }
}

/// Every well-formed frequency is a percentage in `[0, 100]`: its value is
/// `100 * count / total`, and `0 <= 100 * count <= 100 * total` says exactly
/// that the value lies between `0` and `100`. When the denominator is `0`
/// the count is `0` too, so the value is `0` by definition on that path as
/// well — no code path yields an undefined percentage.
pub proof fn lemma_frequency_in_range(f: Frequency)
    requires
        f.wf(),
    ensures
        0 <= 100 * (f.count as int) <= 100 * (f.total as int),
        f.total == 0 ==> f.count == 0,
{
}

/// Statistics on a body of code: a single source file, one language's share
/// of a repository, one contributor's commits, or the repository as a whole.
///
/// `size` is in bytes, `loc` counts lines of code (blank and comment lines
/// excluded, as the code metrics collaborator reports them), and `frequency`
/// carries the scope's percentage (see [`Frequency`]).
#[derive(Clone, Copy, Debug, PartialEq, Eq, Structural)]
pub struct Statistics {
    pub size: i64,
    pub loc: i64,
    pub num_files: i32,
    pub num_commits: i32,
    pub frequency: Frequency,
}

impl Statistics {
    /// Well-formed: every magnitude is non-negative and the percentage is in
    /// range.
    pub open spec fn wf(self) -> bool {
        &&& 0 <= self.size
        &&& 0 <= self.loc
        &&& 0 <= self.num_files
        &&& 0 <= self.num_commits
        &&& self.frequency.wf()
    }

    pub open spec fn spec_zero() -> Statistics {
        Statistics {
            size: 0,
            loc: 0,
            num_files: 0,
            num_commits: 0,
            frequency: Frequency { count: 0, total: 0 },
        }
    }

    /// Per-file statistics: `size` and `loc` exactly as the code metrics
    /// collaborator and the content reader report them (never placeholder
    /// zeros), one file, and the commit count and change frequency from the
    /// file's change-frequency record.
    pub fn get_statistics_for_source_file(
        scf: &SourceFileChangeFrequency,
        size: i64,
        loc: i64,
    ) -> (r: Statistics)
        requires
            0 <= size,
            0 <= loc,
            scf.wf(),
        ensures
            r == (Statistics {
                size,
                loc,
                num_files: 1,
                num_commits: scf.file_commits,
                frequency: scf.frequency,
            }),
            r.wf(),
    {
        Statistics {
            size,
            loc,
            num_files: 1,
            num_commits: scf.file_commits,
            frequency: scf.frequency,
        }
    }

    /// The all-zero record.
    pub fn new() -> (r: Statistics)
        ensures
            r == Statistics::spec_zero(),
            r.wf(),
    {
        Statistics { size: 0, loc: 0, num_files: 0, num_commits: 0, frequency: Frequency { count: 0, total: 0 } }
    }
}

impl Default for Statistics {
    fn default() -> (r: Statistics)
        ensures
            r == Statistics::spec_zero(),
    {
        Statistics::new()
    }
}

} // verus!
