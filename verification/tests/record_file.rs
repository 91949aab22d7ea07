use wheel_parsing::{Digest, Record, RecordFile, RecordFileParseError};

#[test]
fn test_packaging_example_record() -> Result<(), RecordFileParseError> {
    let record_file_text = "file.py,sha256=AVTFPZpEKzuHr7OvQZmhaU3LvwKz06AJw8mT\\_pNh2yI,3144\ndistribution-1.0.dist-info/RECORD,,\n";
    let record_file = RecordFile::from_str(record_file_text)?;

    assert_eq!(
        record_file,
        RecordFile {
            records: vec![
                Record {
                    filename: "file.py".to_string(),
                    digest: Some(Digest {
                        method: "sha256".to_string(),
                        b64_digest: "AVTFPZpEKzuHr7OvQZmhaU3LvwKz06AJw8mT\\_pNh2yI".to_string(),
                    }),
                    file_size: Some(3144),
                },
                Record {
                    filename: "distribution-1.0.dist-info/RECORD".to_string(),
                    digest: None,
                    file_size: None,
                },
            ],
        },
    );

    Ok(())
}

#[test]
fn test_record_short_digest_and_size() -> Result<(), RecordFileParseError> {
    let record_file = RecordFile::from_str("file.py,sha256=AAA,3144\ndist-1.0.dist-info/RECORD,,\n")?;
    assert_eq!(record_file.records.len(), 2);
    assert_eq!(
        record_file.records[0],
        Record {
            filename: "file.py".to_string(),
            digest: Some(Digest {
                method: "sha256".to_string(),
                b64_digest: "AAA".to_string(),
            }),
            file_size: Some(3144),
        },
    );
    assert_eq!(
        record_file.records[1],
        Record {
            filename: "dist-1.0.dist-info/RECORD".to_string(),
            digest: None,
            file_size: None,
        },
    );
    Ok(())
}

#[test]
fn test_record_path_normalization() -> Result<(), RecordFileParseError> {
    let record_file = RecordFile::from_str("/pkg/__init__.py,sha256=X,5\npkg/sub/__init__.py,sha256=Y,6\n")?;
    assert_eq!(record_file.records[0].filename, "pkg/__init__.py".to_string());
    assert_eq!(
        record_file.records[1].filename,
        "pkg/sub/__init__.py".to_string(),
    );
    Ok(())
}

#[test]
fn test_record_malformed_digest() {
    let parsed = RecordFile::from_str("file.py,sha256AAA,3144\n");
    assert_eq!(parsed, Err(RecordFileParseError::MalformedDigest));
}

#[test]
fn test_record_digest_value_keeps_padding() -> Result<(), RecordFileParseError> {
    let record_file = RecordFile::from_str("file.py,sha256=aGk=,3\n")?;
    assert_eq!(
        record_file.records[0].digest,
        Some(Digest {
            method: "sha256".to_string(),
            b64_digest: "aGk=".to_string(),
        }),
    );
    Ok(())
}

#[test]
fn test_record_malformed_size() {
    let parsed = RecordFile::from_str("file.py,sha256=AAA,31x4\n");
    assert_eq!(parsed, Err(RecordFileParseError::MalformedFileSize));
}

#[test]
fn test_record_quoted_path_with_comma() -> Result<(), RecordFileParseError> {
    let record_file = RecordFile::from_str("\"odd, path.py\",sha256=AAA,7\n")?;
    assert_eq!(record_file.records[0].filename, "odd, path.py".to_string());
    Ok(())
}

#[test]
fn test_record_wrong_column_count() {
    let parsed = RecordFile::from_str("file.py,sha256=AAA\nother.py,\n");
    assert!(matches!(parsed, Err(RecordFileParseError::CSVError(_))));
}

#[test]
fn test_record_empty_input() -> Result<(), RecordFileParseError> {
    let record_file = RecordFile::from_str("")?;
    assert_eq!(record_file.records.len(), 0);
    Ok(())
}

#[test]
fn test_digest_from_str() -> Result<(), RecordFileParseError> {
    let digest = Digest::from_str("sha256=mnop=qrs=")?;
    assert_eq!(
        digest,
        Digest {
            method: "sha256".to_string(),
            b64_digest: "mnop=qrs=".to_string(),
        },
    );
    let bad = Digest::from_str("sha256");
    assert_eq!(bad, Err(RecordFileParseError::MalformedDigest));
    Ok(())
}

#[test]
fn test_record_unequal_row_lengths() {
    let parsed = RecordFile::from_str("a.py,sha256=AAA,1\nb.py,sha256=BBB\n");
    assert!(matches!(parsed, Err(RecordFileParseError::CSVError(_))));
}
