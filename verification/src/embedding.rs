//! The feature preparation pipeline: derives per-file "sentiment" scalars
//! (negative log-scale magnitude transforms, not natural-language sentiment)
//! and flattens each file record into an ordered sequence of text tokens for
//! an embedding provider. The flattening walks the record's fields in
//! lexicographic key order, so identical models always yield the identical
//! token sequence.

use vstd::prelude::*;

use crate::repository::RepositoryInfo;
use crate::source::{SourceFileInfo, SourceFileInfoV};
use crate::text::{push_dec_i64, push_json_string, spec_dec_i64, spec_json_string};

verus! {

/// Integer logarithm base 10: the number of digits minus one.
pub open spec fn spec_ilog10(n: int) -> int
    recommends
        1 <= n,
    decreases n,
{
    if n < 10 {
        0
    } else {
        1 + spec_ilog10(n / 10)
    }
}

pub proof fn lemma_ilog10_le(n: int)
    requires
        1 <= n,
    ensures
        0 <= spec_ilog10(n) <= n,
    decreases n,
{
    if n >= 10 {
        lemma_ilog10_le(n / 10);
    }
}

/// The sentiment of a non-negative magnitude: `0` for `0`, otherwise
/// `-floor(log10(n))` — larger magnitudes give more negative scores, biasing
/// downstream ranking toward smaller, quieter files.
pub open spec fn spec_negative_sentiment(n: int) -> int {
    if n <= 0 {
        0
    } else {
        -spec_ilog10(n)
    }
}

/// The sentiment of a non-negative integer magnitude (byte size or line
/// count): `0` for `0`, otherwise `-floor(log10(num))`.
pub fn negative_sentiment_for_int(num: i64) -> (r: i64)
    requires
        0 <= num,
    ensures
        r == spec_negative_sentiment(num as int),
        r <= 0,
{
    if num == 0 {
        return 0;
    }
    proof {
        lemma_ilog10_le(num as int);
    }
    let mut m: i64 = num;
    let mut d: i64 = 0;
    while m >= 10
        invariant
            1 <= m <= num,
            0 <= d,
            spec_ilog10(num as int) == d + spec_ilog10(m as int),
        decreases m,
    {
        proof {
            lemma_ilog10_le(num as int);
            lemma_ilog10_le(m as int);
            lemma_ilog10_le(m as int / 10);
        }
        m = m / 10;
        d = d + 1;
    }
    -d
}

/// One file flattened for embedding: the data fields below, keyed by the
/// file name.
pub struct FileToEmbed {
    pub name: String,
    pub data: FileData,
}

/// The per-file embedding fields. The two integer sentiments are derived
/// here; the frequency sentiment, `-log10(frequency)` (`0` when the
/// frequency is `0`), is a continuous floating-point magnitude that the
/// caller renders to text and hands in — the pipeline keeps everything
/// around it deterministic.
pub struct FileData {
    pub language: String,
    pub id_hash: String,
    pub contents: String,
    pub size_sentiment: i64,
    pub loc_sentiment: i64,
    pub frequency_sentiment: String,
}

#[verifier::ext_equal]
pub struct FileDataV {
    pub language: Seq<char>,
    pub id_hash: Seq<char>,
    pub contents: Seq<char>,
    pub size_sentiment: int,
    pub loc_sentiment: int,
    pub frequency_sentiment: Seq<char>,
}

#[verifier::ext_equal]
pub struct FileToEmbedV {
    pub name: Seq<char>,
    pub data: FileDataV,
}

impl View for FileData {
    type V = FileDataV;

    open spec fn view(&self) -> FileDataV {
        FileDataV {
            language: self.language@,
            id_hash: self.id_hash@,
            contents: self.contents@,
            size_sentiment: self.size_sentiment as int,
            loc_sentiment: self.loc_sentiment as int,
            frequency_sentiment: self.frequency_sentiment@,
        }
    }
}

impl View for FileToEmbed {
    type V = FileToEmbedV;

    open spec fn view(&self) -> FileToEmbedV {
        FileToEmbedV { name: self.name@, data: self.data@ }
    }
}

/// What one file record flattens to, given the rendered frequency sentiment:
/// absent language, hash or content become empty strings, and the two
/// integer sentiments are derived from the file's size and line count.
pub open spec fn spec_map_file(f: SourceFileInfoV, fs: Seq<char>) -> FileToEmbedV {
    FileToEmbedV {
        name: f.name,
        data: FileDataV {
            language: match f.language {
                Some(l) => l.name,
                None => Seq::empty(),
            },
            id_hash: match f.id_hash {
                Some(h) => h,
                None => Seq::empty(),
            },
            contents: match f.content {
                Some(c) => c,
                None => Seq::empty(),
            },
            size_sentiment: spec_negative_sentiment(f.statistics.size as int),
            loc_sentiment: spec_negative_sentiment(f.statistics.loc as int),
            frequency_sentiment: fs,
        },
    }
}

/// Maps one file record to its embedding fields; `frequency_sentiment` is
/// the rendered `-log10(frequency)` value supplied by the caller.
pub fn map_source_file_info_to_file(
    source_file_info: &SourceFileInfo,
    frequency_sentiment: String,
) -> (r: FileToEmbed)
    requires
        source_file_info@.statistics.wf(),
    ensures
        r@ == spec_map_file(source_file_info@, frequency_sentiment@),
{
    let language = match &source_file_info.language {
        Some(l) => l.name.clone(),
        None => String::new(),
    };
    let id_hash = match &source_file_info.id_hash {
        Some(h) => h.clone(),
        None => String::new(),
    };
    let contents = source_file_info.get_source_file_contents();
    let size_sentiment = negative_sentiment_for_int(source_file_info.statistics.size);
    let loc_sentiment = negative_sentiment_for_int(source_file_info.statistics.loc);
    let r = FileToEmbed {
        name: source_file_info.name.clone(),
        data: FileData {
            language,
            id_hash,
            contents,
            size_sentiment,
            loc_sentiment,
            frequency_sentiment,
        },
    };
    proof {
        assert(r@ =~~= spec_map_file(source_file_info@, frequency_sentiment@));
    }
    r
}

/// The six tokens one flattened file yields, in lexicographic key order:
/// `"<file-name>: /<key>/<value>"`, string values rendered as JSON string
/// literals, the integer sentiments in decimal, and the frequency sentiment
/// as the number text it already is.
pub open spec fn spec_file_tokens(fe: FileToEmbedV) -> Seq<Seq<char>> {
    seq![
        fe.name + ": /contents/"@ + spec_json_string(fe.data.contents),
        fe.name + ": /frequency_sentiment/"@ + fe.data.frequency_sentiment,
        fe.name + ": /id_hash/"@ + spec_json_string(fe.data.id_hash),
        fe.name + ": /language/"@ + spec_json_string(fe.data.language),
        fe.name + ": /loc_sentiment/"@ + spec_dec_i64(fe.data.loc_sentiment),
        fe.name + ": /size_sentiment/"@ + spec_dec_i64(fe.data.size_sentiment),
    ]
}

/// Flattens one file's embedding fields into its six tokens, in the
/// deterministic lexicographic key order of [`spec_file_tokens`].
pub fn flatten_file_data(fe: &FileToEmbed) -> (r: Vec<String>)
    ensures
        r.deep_view() == spec_file_tokens(fe@),
{
    let mut r: Vec<String> = Vec::new();

    let mut t = fe.name.clone();
    t.append(": /contents/");
    push_json_string(&mut t, fe.data.contents.as_str());
    r.push(t);

    let mut t = fe.name.clone();
    t.append(": /frequency_sentiment/");
    t.append(fe.data.frequency_sentiment.as_str());
    r.push(t);

    let mut t = fe.name.clone();
    t.append(": /id_hash/");
    push_json_string(&mut t, fe.data.id_hash.as_str());
    r.push(t);

    let mut t = fe.name.clone();
    t.append(": /language/");
    push_json_string(&mut t, fe.data.language.as_str());
    r.push(t);

    let mut t = fe.name.clone();
    t.append(": /loc_sentiment/");
    push_dec_i64(&mut t, fe.data.loc_sentiment);
    r.push(t);

    let mut t = fe.name.clone();
    t.append(": /size_sentiment/");
    push_dec_i64(&mut t, fe.data.size_sentiment);
    r.push(t);

    proof {
        assert(r.deep_view() =~~= spec_file_tokens(fe@));
    }
    r
}

/// The full ordered token sequence of a repository: each file's six tokens
/// in file order, given the rendered frequency sentiments (one per file).
pub open spec fn spec_repository_tokens(
    files: Seq<SourceFileInfoV>,
    sentiments: Seq<Seq<char>>,
) -> Seq<Seq<char>>
    decreases files.len(),
{
    if files.len() == 0 {
        Seq::empty()
    } else {
        spec_repository_tokens(files.drop_last(), sentiments.drop_last()) + spec_file_tokens(
            spec_map_file(files.last(), sentiments.last()),
        )
    }
}

/// Flattens a whole mined repository into the ordered token sequence handed
/// to the embedding provider, one rendered frequency sentiment per file. The
/// order is deterministic: equal models and sentiments yield the identical
/// sequence.
pub fn create_repository_tokens(
    stats: &RepositoryInfo,
    frequency_sentiments: &Vec<String>,
) -> (r: Vec<String>)
    requires
        frequency_sentiments@.len() == stats@.source_files.len(),
        forall|k: int|
            0 <= k < stats@.source_files.len() ==> (#[trigger] stats@.source_files[k]).statistics.wf(),
    ensures
        r.deep_view() == spec_repository_tokens(
            stats@.source_files,
            frequency_sentiments.deep_view(),
        ),
{
    let ghost files = stats@.source_files;
    let ghost sdv = frequency_sentiments.deep_view();
    let mut out: Vec<String> = Vec::new();
    proof {
        assert(files.take(0) =~= Seq::<SourceFileInfoV>::empty());
        assert(out.deep_view() =~= Seq::<Seq<char>>::empty());
        assert(out.deep_view() =~= spec_repository_tokens(files.take(0), sdv.take(0)));
    }
    let mut i: usize = 0;
    while i < stats.source_files.len()
        invariant
            i <= stats.source_files@.len(),
            files == stats@.source_files,
            sdv == frequency_sentiments.deep_view(),
            files.len() == stats.source_files@.len(),
            sdv.len() == files.len(),
            forall|k: int| 0 <= k < files.len() ==> (#[trigger] files[k]).statistics.wf(),
            out.deep_view() == spec_repository_tokens(files.take(i as int), sdv.take(i as int)),
        decreases stats.source_files@.len() - i,
    {
        proof {
            assert(files[i as int] == stats.source_files@[i as int]@);
        }
        let fe = map_source_file_info_to_file(
            &stats.source_files[i],
            frequency_sentiments[i].clone(),
        );
        let mut tokens = flatten_file_data(&fe);
        let ghost ob = out.deep_view();
        let ghost tdv = tokens.deep_view();
        out.append(&mut tokens);
        proof {
            assert(files.take(i + 1).drop_last() =~= files.take(i as int));
            assert(sdv.take(i + 1).drop_last() =~= sdv.take(i as int));
            assert(files.take(i + 1).last() == files[i as int]);
            assert(sdv.take(i + 1).last() == sdv[i as int]);
            assert(out.deep_view() =~~= ob + tdv);
            assert(out.deep_view() =~~= spec_repository_tokens(
                files.take(i + 1),
                sdv.take(i + 1),
            ));
        }
        i = i + 1;
    }
    proof {
        assert(files.take(files.len() as int) =~= files);
        assert(sdv.take(sdv.len() as int) =~= sdv);
    }
    out
}

} // verus!
