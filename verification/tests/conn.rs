use taotie::conn::ConnError;
use taotie::conn::DatasetConn;
use taotie::conn::FileCompression;
use taotie::conn::FileOpts;
use taotie::conn::get_file_opt;
use taotie::conn::verify_conn_str;

#[test]
fn test_verify_conn_str() {
    let opt = get_file_opt("foo.csv.bz2").unwrap();
    assert_eq!(opt, FileOpts::new("foo.csv.bz2", "csv", FileCompression::Bzip2));
    let opt = get_file_opt("foo.csv").unwrap();
    assert_eq!(opt, FileOpts::new("foo.csv", "csv", FileCompression::Uncompressed));
    let opt = get_file_opt("foo.bar").unwrap();
    assert_eq!(opt, FileOpts::new("foo.bar", "bar", FileCompression::Uncompressed));
    let opt = get_file_opt("foobar");
    assert!(opt.is_none());
}

#[test]
fn compression_suffixes() {
    let opt = get_file_opt("dir.v2/data.json.gz").unwrap();
    assert_eq!(opt, FileOpts::new("dir.v2/data.json.gz", "json", FileCompression::Gzip));
    let opt = get_file_opt("a.b.xz").unwrap();
    assert_eq!(opt, FileOpts::new("a.b.xz", "b", FileCompression::Xz));
    let opt = get_file_opt("a.b.zstd").unwrap();
    assert_eq!(opt, FileOpts::new("a.b.zstd", "b", FileCompression::Zstd));
}

#[test]
fn compression_without_type_suffix_is_invalid() {
    assert!(get_file_opt("foo.bz2").is_none());
    assert!(get_file_opt("foo.gz").is_none());
    assert!(get_file_opt("foo.xz").is_none());
    assert!(get_file_opt("foo.zstd").is_none());
}

#[test]
fn verify_postgres_prefix() {
    let conn = verify_conn_str("postgres://localhost/db").unwrap();
    assert_eq!(conn, DatasetConn::Postgres("postgres://localhost/db".to_string()));
}

#[test]
fn verify_csv_and_parquet() {
    let conn = verify_conn_str("data.csv").unwrap();
    assert_eq!(
        conn,
        DatasetConn::Csv(FileOpts::new("data.csv", "csv", FileCompression::Uncompressed))
    );
    let conn = verify_conn_str("data.parquet").unwrap();
    assert_eq!(conn, DatasetConn::Parquet("data.parquet".to_string()));
}

#[test]
fn verify_json_spellings() {
    for name in ["d.json", "d.jsonl", "d.ndjson"] {
        match verify_conn_str(name).unwrap() {
            DatasetConn::NdJson(_) => {}
            other => panic!("expected NdJson for {}, got {:?}", name, other),
        }
    }
}

#[test]
fn verify_rejects_unknown_extension() {
    let err = verify_conn_str("data.xls").unwrap_err();
    assert_eq!(err, ConnError::UnsupportedExtension("xls".to_string()));
    assert_eq!(err.message(), "unsupported file extension: xls");
}

#[test]
fn verify_rejects_dotless_name() {
    let err = verify_conn_str("foobar").unwrap_err();
    assert_eq!(err, ConnError::Invalid("foobar".to_string()));
    assert_eq!(err.message(), "invalid connection string: foobar");
}
