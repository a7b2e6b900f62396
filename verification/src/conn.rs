//! The connection-string grammar for `connect`.
//!
//! A connection string is either `postgres://...` (a database connection,
//! currently an explicitly unsupported capability) or a file path of the
//! form `<path>.<type>[.<compression>]`, read from the right: if the
//! rightmost dot-separated suffix is one of `gz`, `bz2`, `xz`, `zstd` it
//! names the compression and the suffix to its left names the file type;
//! otherwise the rightmost suffix alone names the file type. A name
//! without a dot is invalid, and so is a compression suffix with no type
//! suffix before it.

use vstd::prelude::*;

use crate::text::str_eq;

verus! {

/// How a dataset file is compressed on disk.
#[derive(Debug, Clone, Copy, PartialEq, Eq, Structural)]
pub enum FileCompression {
    Uncompressed,
    Gzip,
    Bzip2,
    Xz,
    Zstd,
}

/// Where a file-backed dataset lives: the full connection string, the
/// file-type suffix, and the compression read from the suffixes.
#[derive(Debug, Clone, PartialEq)]
pub struct FileOpts {
    pub filename: String,
    pub ext: String,
    pub compression: FileCompression,
}

/// The mathematical content of a [`FileOpts`].
pub struct FileOptsV {
    pub filename: Seq<char>,
    pub ext: Seq<char>,
    pub compression: FileCompression,
}

impl View for FileOpts {
    type V = FileOptsV;

    open spec fn view(&self) -> FileOptsV {
        FileOptsV { filename: self.filename@, ext: self.ext@, compression: self.compression }
    }
}

impl FileOpts {
    pub fn new(filename: &str, ext: &str, compression: FileCompression) -> (r: Self)
        ensures
            r@ == (FileOptsV { filename: filename@, ext: ext@, compression }),
    {
        FileOpts {
            filename: String::from_str(filename),
            ext: String::from_str(ext),
            compression,
        }
    }
}

/// A parsed connection string.
#[derive(Debug, Clone, PartialEq)]
pub enum DatasetConn {
    Postgres(String),
    Csv(FileOpts),
    Parquet(String),
    NdJson(FileOpts),
}

/// The mathematical content of a [`DatasetConn`].
pub enum DatasetConnV {
    Postgres(Seq<char>),
    Csv(FileOptsV),
    Parquet(Seq<char>),
    NdJson(FileOptsV),
}

impl View for DatasetConn {
    type V = DatasetConnV;

    open spec fn view(&self) -> DatasetConnV {
        match self {
            DatasetConn::Postgres(s) => DatasetConnV::Postgres(s@),
            DatasetConn::Csv(o) => DatasetConnV::Csv(o@),
            DatasetConn::Parquet(s) => DatasetConnV::Parquet(s@),
            DatasetConn::NdJson(o) => DatasetConnV::NdJson(o@),
        }
    }
}

/// Why a connection string was rejected before any command was built.
#[derive(Debug, Clone, PartialEq)]
pub enum ConnError {
    /// The string is not `postgres://...` and has no file-type suffix.
    Invalid(String),
    /// The file-type suffix is none of the recognized ones.
    UnsupportedExtension(String),
}

/// The mathematical content of a [`ConnError`].
pub enum ConnErrorV {
    Invalid(Seq<char>),
    UnsupportedExtension(Seq<char>),
}

impl View for ConnError {
    type V = ConnErrorV;

    open spec fn view(&self) -> ConnErrorV {
        match self {
            ConnError::Invalid(s) => ConnErrorV::Invalid(s@),
            ConnError::UnsupportedExtension(s) => ConnErrorV::UnsupportedExtension(s@),
        }
    }
}

impl ConnError {
    /// The usage message shown to the user for a rejected connection string.
    pub fn message(&self) -> (r: String)
        ensures
            r@ == spec_conn_error_message(self@),
    {
        match self {
            ConnError::Invalid(s) => {
                let mut m = String::from_str("invalid connection string: ");
                m.append(s.as_str());
                m
            },
            ConnError::UnsupportedExtension(s) => {
                let mut m = String::from_str("unsupported file extension: ");
                m.append(s.as_str());
                m
            },
        }
    }
}

pub open spec fn spec_conn_error_message(e: ConnErrorV) -> Seq<char> {
    match e {
        ConnErrorV::Invalid(s) => "invalid connection string: "@ + s,
        ConnErrorV::UnsupportedExtension(s) => "unsupported file extension: "@ + s,
    }
}

/// The index of the rightmost `.` in `s`, if any.
pub open spec fn rfind_dot(s: Seq<char>) -> Option<int>
    decreases s.len(),
{
    if s.len() == 0 {
        None
    } else if s[s.len() - 1] == '.' {
        Some(s.len() - 1)
    } else {
        rfind_dot(s.take(s.len() - 1))
    }
}

/// `rfind_dot` finds a dot exactly when one exists, and the one it finds
/// is the rightmost.
pub proof fn lemma_rfind_dot(s: Seq<char>)
    ensures
        match rfind_dot(s) {
            Some(i) => 0 <= i < s.len() && s[i] == '.' && (forall|j: int|
                i < j < s.len() ==> s[j] != '.'),
            None => forall|j: int| 0 <= j < s.len() ==> s[j] != '.',
        },
    decreases s.len(),
{
    if s.len() == 0 {
    } else if s[s.len() - 1] == '.' {
    } else {
        let p = s.take(s.len() - 1);
        lemma_rfind_dot(p);
        assert(forall|j: int| 0 <= j < p.len() ==> p[j] == s[j]);
    }
}

/// Appending dot-free text does not move the rightmost dot.
pub proof fn lemma_rfind_dot_append(a: Seq<char>, b: Seq<char>)
    requires
        forall|j: int| 0 <= j < b.len() ==> b[j] != '.',
    ensures
        rfind_dot(a + b) == rfind_dot(a),
    decreases b.len(),
{
    if b.len() == 0 {
        assert(a + b =~= a);
    } else {
        let s = a + b;
        assert(s[s.len() - 1] == b[b.len() - 1]);
        assert(s.take(s.len() - 1) =~= a + b.take(b.len() - 1));
        lemma_rfind_dot_append(a, b.take(b.len() - 1));
    }
}

/// The compression named by a suffix, if it names one.
pub open spec fn spec_compression_of(s: Seq<char>) -> Option<FileCompression> {
    if s == "gz"@ {
        Some(FileCompression::Gzip)
    } else if s == "bz2"@ {
        Some(FileCompression::Bzip2)
    } else if s == "xz"@ {
        Some(FileCompression::Xz)
    } else if s == "zstd"@ {
        Some(FileCompression::Zstd)
    } else {
        None
    }
}

fn compression_of(s: &str) -> (r: Option<FileCompression>)
    ensures
        r == spec_compression_of(s@),
{
    if str_eq(s, "gz") {
        Some(FileCompression::Gzip)
    } else if str_eq(s, "bz2") {
        Some(FileCompression::Bzip2)
    } else if str_eq(s, "xz") {
        Some(FileCompression::Xz)
    } else if str_eq(s, "zstd") {
        Some(FileCompression::Zstd)
    } else {
        None
    }
}

/// What `get_file_opt` returns: the suffix grammar, read from the right.
pub open spec fn spec_parse_file(s: Seq<char>) -> Option<FileOptsV> {
    match rfind_dot(s) {
        None => None,
        Some(i) => {
            let last = s.subrange(i + 1, s.len() as int);
            match spec_compression_of(last) {
                None => Some(
                    FileOptsV {
                        filename: s,
                        ext: last,
                        compression: FileCompression::Uncompressed,
                    },
                ),
                Some(c) => match rfind_dot(s.subrange(0, i)) {
                    None => None,
                    Some(j) => Some(
                        FileOptsV { filename: s, ext: s.subrange(j + 1, i), compression: c },
                    ),
                },
            }
        },
    }
}

fn rfind_dot_exec(s: &str) -> (r: Option<usize>)
    ensures
        match r {
            Some(i) => rfind_dot(s@) == Some(i as int),
            None => rfind_dot(s@) == None::<int>,
        },
{
    let n = s.unicode_len();
    proof {
        assert(s@.take(n as int) =~= s@);
    }
    let mut i = n;
    while i > 0
        invariant
            i <= n,
            n == s@.len(),
            rfind_dot(s@) == rfind_dot(s@.take(i as int)),
        decreases i,
    {
        let c = s.get_char(i - 1);
        if c == '.' {
            proof {
                assert(s@.take(i as int)[i - 1] == '.');
            }
            return Some(i - 1);
        }
        proof {
            assert(s@.take(i as int).take(i - 1 as int) =~= s@.take(i - 1 as int));
            assert(s@.take(i as int)[i - 1] != '.');
        }
        i = i - 1;
    }
    proof {
        assert(s@.take(0) =~= Seq::<char>::empty());
    }
    None
}

/// Reads a file connection string into its parts. Returns nothing when
/// the string has no dot, or when a compression suffix is not preceded by
/// a type suffix.
pub fn get_file_opt(conn_str: &str) -> (r: Option<FileOpts>)
    ensures
        match r {
            Some(o) => spec_parse_file(conn_str@) == Some(o@),
            None => spec_parse_file(conn_str@) == None::<FileOptsV>,
        },
{
    let n = conn_str.unicode_len();
    let i = match rfind_dot_exec(conn_str) {
        None => {
            return None;
        },
        Some(i) => i,
    };
    proof {
        lemma_rfind_dot(conn_str@);
    }
    let last = conn_str.substring_char(i + 1, n);
    match compression_of(last) {
        None => Some(FileOpts::new(conn_str, last, FileCompression::Uncompressed)),
        Some(c) => {
            let head = conn_str.substring_char(0, i);
            match rfind_dot_exec(head) {
                None => None,
                Some(j) => {
                    proof {
                        lemma_rfind_dot(head@);
                    }
                    let ext = conn_str.substring_char(j + 1, i);
                    Some(FileOpts::new(conn_str, ext, c))
                },
            }
        },
    }
}

/// What `verify_conn_str` returns for a given connection string.
pub open spec fn spec_verify_conn(s: Seq<char>) -> Result<DatasetConnV, ConnErrorV> {
    if s.len() >= "postgres://"@.len() && s.subrange(0, "postgres://"@.len() as int)
        == "postgres://"@ {
        Ok(DatasetConnV::Postgres(s))
    } else {
        match spec_parse_file(s) {
            None => Err(ConnErrorV::Invalid(s)),
            Some(o) => {
                if o.ext == "csv"@ {
                    Ok(DatasetConnV::Csv(o))
                } else if o.ext == "json"@ || o.ext == "jsonl"@ || o.ext == "ndjson"@ {
                    Ok(DatasetConnV::NdJson(o))
                } else if o.ext == "parquet"@ {
                    Ok(DatasetConnV::Parquet(s))
                } else {
                    Err(ConnErrorV::UnsupportedExtension(o.ext))
                }
            },
        }
    }
}

/// Validates a connection string before any command is built: either a
/// `postgres://` connection, or a file whose type suffix is `csv`,
/// `json`/`jsonl`/`ndjson`, or `parquet`.
pub fn verify_conn_str(s: &str) -> (r: Result<DatasetConn, ConnError>)
    ensures
        match r {
            Ok(c) => spec_verify_conn(s@) == Ok::<DatasetConnV, ConnErrorV>(c@),
            Err(e) => spec_verify_conn(s@) == Err::<DatasetConnV, ConnErrorV>(e@),
        },
{
    proof {
        reveal_strlit("postgres://");
    }
    let n = s.unicode_len();
    if n >= 11 {
        let prefix = s.substring_char(0, 11);
        if str_eq(prefix, "postgres://") {
            return Ok(DatasetConn::Postgres(String::from_str(s)));
        }
    }
    match get_file_opt(s) {
        None => Err(ConnError::Invalid(String::from_str(s))),
        Some(opt) => {
            if str_eq(opt.ext.as_str(), "csv") {
                Ok(DatasetConn::Csv(opt))
            } else if str_eq(opt.ext.as_str(), "json") || str_eq(opt.ext.as_str(), "jsonl")
                || str_eq(opt.ext.as_str(), "ndjson") {
                Ok(DatasetConn::NdJson(opt))
            } else if str_eq(opt.ext.as_str(), "parquet") {
                Ok(DatasetConn::Parquet(String::from_str(s)))
            } else {
                Err(ConnError::UnsupportedExtension(opt.ext))
            }
        },
    }
}

/// For any input of the form `name.ext` whose last suffix is not a
/// compression suffix, the parsed file type is exactly `ext` and the
/// compression is none.
pub proof fn lemma_parse_plain(name: Seq<char>, ext: Seq<char>)
    requires
        forall|j: int| 0 <= j < ext.len() ==> ext[j] != '.',
        spec_compression_of(ext) is None,
    ensures
        spec_parse_file(name + seq!['.'] + ext) == Some(
            FileOptsV {
                filename: name + seq!['.'] + ext,
                ext: ext,
                compression: FileCompression::Uncompressed,
            },
        ),
{
    let s = name + seq!['.'] + ext;
    lemma_rfind_dot_append(name + seq!['.'], ext);
    let nd = name + seq!['.'];
    assert(nd[nd.len() - 1] == '.');
    assert(rfind_dot(nd) == Some(name.len() as int));
    assert(s.subrange(name.len() as int + 1, s.len() as int) =~= ext);
}

/// For any input of the form `name.ext.c` where `c` is a compression
/// suffix and `ext` is dot-free, the parsed file type is exactly `ext`
/// and the compression matches `c`.
pub proof fn lemma_parse_compressed(name: Seq<char>, ext: Seq<char>, cs: Seq<char>)
    requires
        forall|j: int| 0 <= j < ext.len() ==> ext[j] != '.',
        spec_compression_of(cs) is Some,
    ensures
        spec_parse_file(name + seq!['.'] + ext + seq!['.'] + cs) == Some(
            FileOptsV {
                filename: name + seq!['.'] + ext + seq!['.'] + cs,
                ext: ext,
                compression: spec_compression_of(cs)->Some_0,
            },
        ),
{
    let s = name + seq!['.'] + ext + seq!['.'] + cs;
    reveal_strlit("gz");
    reveal_strlit("bz2");
    reveal_strlit("xz");
    reveal_strlit("zstd");
    assert(forall|j: int| 0 <= j < cs.len() ==> cs[j] != '.');
    lemma_rfind_dot_append(name + seq!['.'] + ext + seq!['.'], cs);
    let pre = name + seq!['.'] + ext + seq!['.'];
    assert(pre[pre.len() - 1] == '.');
    let i = pre.len() - 1;
    assert(rfind_dot(s) == Some(i as int));
    assert(s.subrange(i + 1, s.len() as int) =~= cs);
    assert(s.subrange(0, i as int) =~= name + seq!['.'] + ext);
    lemma_rfind_dot_append(name + seq!['.'], ext);
    let nd = name + seq!['.'];
    assert(nd[nd.len() - 1] == '.');
    assert(rfind_dot(nd) == Some(name.len() as int));
    assert(s.subrange(name.len() as int + 1, i as int) =~= ext);
}

/// An input without a dot yields no parse result.
pub proof fn lemma_parse_no_dot(s: Seq<char>)
    requires
        forall|j: int| 0 <= j < s.len() ==> s[j] != '.',
    ensures
        spec_parse_file(s) == None::<FileOptsV>,
{
    lemma_rfind_dot_append(Seq::<char>::empty(), s);
    assert(Seq::<char>::empty() + s =~= s);
}

} // verus!
