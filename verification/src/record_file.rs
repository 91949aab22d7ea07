//! Parser for `... .dist-info/RECORD` file-integrity manifests.
//!
//! The manifest is a headerless comma-separated table, one row per archive
//! member, with exactly three columns: path, digest and size.  The digest and
//! size columns may each be empty independently.  Rows are decoded by an
//! outside tabular decoder (which handles the `"` quoting convention); the
//! per-row validation — path normalization, digest sub-parsing and size
//! parsing — is done and verified here.  Row order is preserved.

use vstd::prelude::*;

use crate::text::{
    all_digits, chars_of, digits_value, parse_usize, string_of, subvec,
};

verus! {

/// What the outside tabular decoder yields on a text: the rows it decodes
/// before any failure, and whether it then failed.
pub uninterp spec fn csv_decode(s: Seq<char>) -> (Seq<Seq<Seq<char>>>, bool);

/// Relies on `csv::Reader` (headerless): comma-separated rows with the
/// standard `"` quoting convention.  The decoded rows and whether decoding
/// fails depend on the input text alone.
#[verifier::external_body]
fn read_rows(s: &str) -> (r: (Vec<Vec<String>>, Option<String>))
    ensures
        r.0.deep_view() == csv_decode(s@).0,
        r.1 is Some <==> csv_decode(s@).1,
{
    let mut reader = csv::ReaderBuilder::new().has_headers(false).from_reader(s.as_bytes());
    let mut rows: Vec<Vec<String>> = Vec::new();
    for record in reader.records() {
        match record {
            Ok(rec) => rows.push(rec.iter().map(|f| f.to_string()).collect()),
            Err(e) => {
                return (rows, Some(e.to_string()));
            },
        }
    }
    (rows, None)
}

/// Why an integrity manifest failed to parse.
#[derive(Debug, Clone, PartialEq, Eq)]
pub enum RecordFileParseError {
    /// The tabular decoding failed, or a row does not have exactly three
    /// columns; the payload is the decoder's message.
    CSVError(String),
    /// A non-empty digest column holds no `=` separator.
    MalformedDigest,
    /// A non-empty size column is not a plain decimal number.
    MalformedFileSize,
}

/// The kind of an integrity-manifest parse error, at the specification
/// level.
pub ghost enum RecordErrKind {
    /// A row does not have exactly three columns.
    Columns,
    /// The tabular decoder itself failed.
    Decode,
    BadDigest,
    BadSize,
}

/// An algorithm-labelled encoded hash, as `{algorithm}={encoded value}`.
#[derive(Debug, PartialEq, Eq)]
pub struct Digest {
    pub method: String,
    pub b64_digest: String,
}

/// The mathematical content of a digest.
pub ghost struct DigestView {
    pub method: Seq<char>,
    pub b64_digest: Seq<char>,
}

impl View for Digest {
    type V = DigestView;

    open spec fn view(&self) -> DigestView {
        DigestView { method: self.method@, b64_digest: self.b64_digest@ }
    }
}

/// The index of the first `=` in `s`, or `s.len()` if there is none.
pub open spec fn eq_index(s: Seq<char>) -> int
    decreases s.len(),
{
    if s.len() == 0 {
        0
    } else if s[0] == '=' {
        0
    } else {
        1 + eq_index(s.drop_first())
    }
}

/// The first-`=` index lies within the string, or just past its end.
pub proof fn lemma_eq_index_bounds(s: Seq<char>)
    ensures
        0 <= eq_index(s) <= s.len(),
    decreases s.len(),
{
    if s.len() > 0 && s[0] != '=' {
        lemma_eq_index_bounds(s.drop_first());
    }
}

/// `eq_index` is the unique cut: no `=` before it, and one right at it
/// unless the string has none at all.
pub proof fn lemma_eq_index(s: Seq<char>, i: int)
    requires
        0 <= i <= s.len(),
        forall|j: int| 0 <= j < i ==> s[j] != '=',
        i == s.len() || s[i] == '=',
    ensures
        eq_index(s) == i,
    decreases i,
{
    if i > 0 {
        lemma_eq_index(s.drop_first(), i - 1);
    }
}

impl Digest {
    /// Parses a digest column: the text before the first `=` is the
    /// algorithm, everything after it (which may itself contain `=`) is the
    /// encoded value.  A column without `=` is malformed.
    pub fn from_str(s: &str) -> (r: Result<Digest, RecordFileParseError>)
        ensures
            r is Ok <==> eq_index(s@) < s@.len(),
            r matches Ok(d) ==> {
                &&& d.method@ == s@.take(eq_index(s@))
                &&& d.b64_digest@ == s@.skip(eq_index(s@) + 1)
            },
            r is Err ==> r == Err::<Digest, RecordFileParseError>(
                RecordFileParseError::MalformedDigest,
            ),
    {
        let v = chars_of(s);
        let mut k: usize = 0;
        while k < v.len() && v[k] != '='
            invariant
                k <= v.len(),
                forall|j: int| 0 <= j < k ==> v@[j] != '=',
            decreases v.len() - k,
        {
            k = k + 1;
        }
        proof {
            lemma_eq_index(v@, k as int);
        }
        if k == v.len() {
            return Err(RecordFileParseError::MalformedDigest);
        }
        let method = string_of(&subvec(&v, 0, k));
        let b64_digest = string_of(&subvec(&v, k + 1, v.len()));
        proof {
            assert(v@.subrange(0, k as int) =~= s@.take(k as int));
            assert(v@.subrange(k + 1, v@.len() as int) =~= s@.skip(k + 1));
        }
        Ok(Digest { method, b64_digest })
    }
}

/// One row of the integrity manifest.
#[derive(Debug, PartialEq, Eq)]
pub struct Record {
    /// The member path, with one leading path separator stripped.
    pub filename: String,
    /// The member's digest, absent when the digest column is empty.
    pub digest: Option<Digest>,
    /// The member's size in bytes, absent when the size column is empty.
    pub file_size: Option<usize>,
}

/// The mathematical content of a record.
pub ghost struct RecordView {
    pub filename: Seq<char>,
    pub digest: Option<DigestView>,
    pub file_size: Option<usize>,
}

impl View for Record {
    type V = RecordView;

    open spec fn view(&self) -> RecordView {
        RecordView {
            filename: self.filename@,
            digest: match self.digest {
                Some(d) => Some(d@),
                None => None,
            },
            file_size: self.file_size,
        }
    }
}

impl DeepView for Record {
    type V = RecordView;

    open spec fn deep_view(&self) -> RecordView {
        self.view()
    }
}

/// A path with one leading separator stripped; any other path, embedded
/// separators included, stands unchanged.
pub open spec fn normalize_path(p: Seq<char>) -> Seq<char> {
    if p.len() > 0 && p[0] == '/' {
        p.skip(1)
    } else {
        p
    }
}

/// A size column value: empty means absent, otherwise a plain decimal
/// number fitting `usize`.
pub open spec fn spec_parse_size(v: Seq<char>) -> Option<usize> {
    if v.len() > 0 && all_digits(v) && digits_value(v) <= usize::MAX {
        Some(digits_value(v) as usize)
    } else {
        None
    }
}

/// What one decoded row yields: a record, or the first of its faults (the
/// column count, then the digest, then the size).
pub open spec fn spec_record(row: Seq<Seq<char>>) -> Result<RecordView, RecordErrKind> {
    if row.len() != 3 {
        Err(RecordErrKind::Columns)
    } else if row[1].len() > 0 && eq_index(row[1]) == row[1].len() {
        Err(RecordErrKind::BadDigest)
    } else if row[2].len() > 0 && spec_parse_size(row[2]) is None {
        Err(RecordErrKind::BadSize)
    } else {
        Ok(
            RecordView {
                filename: normalize_path(row[0]),
                digest: if row[1].len() == 0 {
                    None
                } else {
                    Some(
                        DigestView {
                            method: row[1].take(eq_index(row[1])),
                            b64_digest: row[1].skip(eq_index(row[1]) + 1),
                        },
                    )
                },
                file_size: if row[2].len() == 0 {
                    None
                } else {
                    spec_parse_size(row[2])
                },
            },
        )
    }
}

impl Record {
    /// Validates one decoded row, as `spec_record` describes: the path is
    /// normalized, a non-empty digest column is split at its first `=`, and
    /// a non-empty size column must be a plain decimal number.
    pub fn from_fields(fields: &Vec<String>) -> (r: Result<Record, RecordFileParseError>)
        ensures
            r is Ok <==> spec_record(fields.deep_view()) is Ok,
            spec_record(fields.deep_view()) matches Ok(rv) ==> {
                &&& r matches Ok(rec)
                &&& rec@ == rv
            },
            spec_record(fields.deep_view()) == Err::<RecordView, RecordErrKind>(
                RecordErrKind::Columns,
            ) ==> r matches Err(RecordFileParseError::CSVError(_)),
            spec_record(fields.deep_view()) == Err::<RecordView, RecordErrKind>(
                RecordErrKind::BadDigest,
            ) ==> r == Err::<Record, RecordFileParseError>(RecordFileParseError::MalformedDigest),
            spec_record(fields.deep_view()) == Err::<RecordView, RecordErrKind>(
                RecordErrKind::BadSize,
            ) ==> r == Err::<Record, RecordFileParseError>(
                RecordFileParseError::MalformedFileSize,
            ),
    {
        if fields.len() != 3 {
            return Err(
                RecordFileParseError::CSVError(
                    String::from_str("a row does not have exactly 3 columns"),
                ),
            );
        }
        proof {
            assert(fields.deep_view().len() == 3);
            assert(fields.deep_view()[0] == fields@[0]@);
            assert(fields.deep_view()[1] == fields@[1]@);
            assert(fields.deep_view()[2] == fields@[2]@);
        }
        let pathv = chars_of(fields[0].as_str());
        let filename = if pathv.len() > 0 && pathv[0] == '/' {
            let stripped = subvec(&pathv, 1, pathv.len());
            proof {
                assert(stripped@ =~= normalize_path(fields.deep_view()[0]));
            }
            string_of(&stripped)
        } else {
            string_of(&pathv)
        };
        let digest = if fields[1].as_str().is_empty() {
            None
        } else {
            match Digest::from_str(fields[1].as_str()) {
                Ok(d) => Some(d),
                Err(e) => {
                    proof {
                        lemma_eq_index_bounds(fields.deep_view()[1]);
                    }
                    return Err(e);
                },
            }
        };
        let sizev = chars_of(fields[2].as_str());
        let file_size = if sizev.len() == 0 {
            None
        } else {
            match parse_usize(&sizev) {
                Some(n) => Some(n),
                None => {
                    return Err(RecordFileParseError::MalformedFileSize);
                },
            }
        };
        Ok(Record { filename, digest, file_size })
    }
}

/// An ordered sequence of integrity-manifest rows.
#[derive(Debug, PartialEq, Eq)]
pub struct RecordFile {
    pub records: Vec<Record>,
}

impl View for RecordFile {
    type V = Seq<RecordView>;

    open spec fn view(&self) -> Seq<RecordView> {
        self.records.deep_view()
    }
}

/// What validating the rows from index `i` on yields: their records in
/// order, or the first row fault.
pub open spec fn spec_scan_rows(rows: Seq<Seq<Seq<char>>>, i: int) -> Result<
    Seq<RecordView>,
    RecordErrKind,
>
    decreases rows.len() - i,
{
    if i < 0 || i >= rows.len() {
        Ok(Seq::empty())
    } else {
        match spec_record(rows[i]) {
            Ok(rv) => match spec_scan_rows(rows, i + 1) {
                Ok(rest) => Ok(seq![rv] + rest),
                Err(e) => Err(e),
            },
            Err(e) => Err(e),
        }
    }
}

/// When every row from `i` on is well-formed, the scan yields exactly their
/// records.
proof fn lemma_scan_rows_ok(rows: Seq<Seq<Seq<char>>>, i: int)
    requires
        0 <= i <= rows.len(),
        forall|j: int| i <= j < rows.len() ==> spec_record(#[trigger] rows[j]) is Ok,
    ensures
        spec_scan_rows(rows, i) is Ok,
        spec_scan_rows(rows, i)->Ok_0.len() == rows.len() - i,
        forall|j: int|
            i <= j < rows.len() ==> spec_scan_rows(rows, i)->Ok_0[j - i] == spec_record(
                #[trigger] rows[j],
            )->Ok_0,
    decreases rows.len() - i,
{
    if i < rows.len() {
        lemma_scan_rows_ok(rows, i + 1);
        let cur = spec_scan_rows(rows, i)->Ok_0;
        let rest = spec_scan_rows(rows, i + 1)->Ok_0;
        assert(cur == seq![spec_record(rows[i])->Ok_0] + rest);
        assert forall|j: int|
            i <= j < rows.len() implies cur[j - i] == spec_record(#[trigger] rows[j])->Ok_0 by {
            if j > i {
                assert(cur[j - i] == rest[j - i - 1]);
            }
        }
    }
}

/// The scan stops at the first malformed row and hands back its fault.
proof fn lemma_scan_rows_err(rows: Seq<Seq<Seq<char>>>, i: int, k: int)
    requires
        0 <= i <= k < rows.len(),
        spec_record(rows[k]) is Err,
        forall|j: int| i <= j < k ==> spec_record(#[trigger] rows[j]) is Ok,
    ensures
        spec_scan_rows(rows, i) == Err::<Seq<RecordView>, RecordErrKind>(
            spec_record(rows[k])->Err_0,
        ),
    decreases rows.len() - i,
{
    if i < k {
        lemma_scan_rows_err(rows, i + 1, k);
    }
}

/// What parsing an integrity manifest yields: the records of the decoded
/// rows in input order, or the first fault — a row fault, or the decoder's
/// own failure once every decoded row has been validated.
pub open spec fn spec_parse_record_file(s: Seq<char>) -> Result<Seq<RecordView>, RecordErrKind> {
    match spec_scan_rows(csv_decode(s).0, 0) {
        Ok(rs) => if csv_decode(s).1 {
            Err(RecordErrKind::Decode)
        } else {
            Ok(rs)
        },
        Err(e) => Err(e),
    }
}

impl RecordFile {
    /// Parses an integrity manifest, row by row, exactly as
    /// `spec_parse_record_file` describes.
    pub fn from_str(s: &str) -> (r: Result<RecordFile, RecordFileParseError>)
        ensures
            r is Ok <==> spec_parse_record_file(s@) is Ok,
            spec_parse_record_file(s@) matches Ok(rs) ==> {
                &&& r matches Ok(rf)
                &&& rf@ == rs
            },
            spec_parse_record_file(s@) == Err::<Seq<RecordView>, RecordErrKind>(
                RecordErrKind::Columns,
            ) || spec_parse_record_file(s@) == Err::<Seq<RecordView>, RecordErrKind>(
                RecordErrKind::Decode,
            ) ==> r matches Err(RecordFileParseError::CSVError(_)),
            spec_parse_record_file(s@) == Err::<Seq<RecordView>, RecordErrKind>(
                RecordErrKind::BadDigest,
            ) ==> r == Err::<RecordFile, RecordFileParseError>(
                RecordFileParseError::MalformedDigest,
            ),
            spec_parse_record_file(s@) == Err::<Seq<RecordView>, RecordErrKind>(
                RecordErrKind::BadSize,
            ) ==> r == Err::<RecordFile, RecordFileParseError>(
                RecordFileParseError::MalformedFileSize,
            ),
    {
        let (rows, decode_err) = read_rows(s);
        let ghost rowsv = csv_decode(s@).0;
        let mut records: Vec<Record> = Vec::new();
        let mut i: usize = 0;
        while i < rows.len()
            invariant
                i <= rows.len(),
                records@.len() == i,
                forall|j: int| 0 <= j < i ==> spec_record(#[trigger] rowsv[j]) is Ok,
                forall|j: int|
                    0 <= j < i ==> #[trigger] records@[j]@ == spec_record(rowsv[j])->Ok_0,
            decreases rows.len() - i,
        {
            proof {
                assert(rows.deep_view()[i as int] == rowsv[i as int]);
            }
            match Record::from_fields(&rows[i]) {
                Ok(rec) => {
                    records.push(rec);
                },
                Err(e) => {
                    proof {
                        lemma_scan_rows_err(rowsv, 0, i as int);
                    }
                    return Err(e);
                },
            }
            i = i + 1;
        }
        proof {
            lemma_scan_rows_ok(rowsv, 0);
        }
        match decode_err {
            Some(msg) => Err(RecordFileParseError::CSVError(msg)),
            None => {
                let rf = RecordFile { records };
                proof {
                    assert forall|j: int| 0 <= j < rf@.len() implies rf@[j] == spec_scan_rows(
                        rowsv,
                        0,
                    )->Ok_0[j] by {
                        assert(rf@[j] == records@[j]@);
                    }
                    assert(rf@ =~= spec_scan_rows(rowsv, 0)->Ok_0);
                }
                Ok(rf)
            },
        }
    }
}

} // verus!
