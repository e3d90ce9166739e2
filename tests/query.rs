use polars::prelude::{
    DataFrame, DataType, Expr, IntoLazy, NamedFrom, ParquetWriter, Series, TimeUnit,
};
use tempfile::NamedTempFile;
use wdapty::{
    execute, select_projection, DateField, DateTimeError, Processor,
    filter_columns, get_index_expr_if_needed, is_cloud_path, resolve_source, CredentialSources,
    CredentialsError, EnvCredentials, ParqProcessor, Processors, Projection, QueryError, Source,
};

fn no_sources() -> CredentialSources {
    CredentialSources {
        file: None,
        env: EnvCredentials {
            access_key_id: None,
            secret_access_key: None,
            session_token: None,
            region: None,
        },
    }
}

fn abc_frame() -> DataFrame {
    DataFrame::new(vec![
        Series::new("A", &[1, 2, 3]),
        Series::new("B", &[4, 5, 6]),
        Series::new("C", &[7, 8, 9]),
    ])
    .unwrap()
}

fn write_test_file(test_name: &str, mut df: DataFrame) -> (NamedTempFile, String) {
    let mut file = tempfile::Builder::new()
        .prefix(&format!("test_{}", test_name))
        .suffix(".parq")
        .tempfile()
        .expect("should be able to create test file");
    ParquetWriter::new(file.as_file_mut())
        .finish(&mut df)
        .expect("should be able to write test file");
    let path = file.path().to_string_lossy().into_owned();
    (file, path)
}

fn numbered_frame(num_cols: usize) -> DataFrame {
    let series = (0..num_cols)
        .map(|i| Series::new(&format!("col{}", i), (0..10u32).collect::<Vec<u32>>()))
        .collect::<Vec<_>>();
    DataFrame::new(series).unwrap()
}

// Microseconds since the epoch of 2024-02-01 17:02:00.
const MATCHING_MICROS: i64 = 1_706_806_920_000_000;

fn timestamp_frame(stamps: &[i64]) -> DataFrame {
    let t = Series::new("t", stamps)
        .cast(&DataType::Datetime(TimeUnit::Microseconds, None))
        .unwrap();
    let v = Series::new("v", (0..stamps.len() as i32).collect::<Vec<i32>>());
    DataFrame::new(vec![t, v]).unwrap()
}

#[test]
fn test_get_index_expr_if_needed_success() {
    let index_name = "random_datetime_column";
    let index_value = "2024-02-01 17:02:00";

    let result = get_index_expr_if_needed(index_name, index_value);

    match result {
        Ok(Expr::BinaryExpr { .. }) => assert!(true),
        _ => assert!(false, "Expected an Expr"),
    }
}

#[test]
fn test_get_index_expr_if_needed_failure_if_value_wrong() {
    let index_name = "random_datetime_column";
    let index_value = "2024-02- 17:02:00";

    let result = get_index_expr_if_needed(index_name, index_value);

    assert!(result.is_err(), "Expected None");
}

#[test]
fn test_filter_columns() {
    let lazy_df = abc_frame().lazy();
    let df = abc_frame();

    let columns = Projection::Columns(vec!["A".to_string(), "C".to_string()]);
    let filtered_df = filter_columns(lazy_df.clone(), &columns);
    let expected_df = DataFrame::new(vec![
        Series::new("A", &[1, 2, 3]),
        Series::new("C", &[7, 8, 9]),
    ])
    .unwrap();
    assert_eq!(filtered_df.collect().unwrap(), expected_df);

    let columns = Projection::All;
    let filtered_df = filter_columns(lazy_df.clone(), &columns).collect().unwrap();
    assert_eq!(filtered_df, df);
}

#[test]
fn test_scan() {
    let (_file, test_file_path) = write_test_file("parq_processor_scan", numbered_frame(10));
    let processor = ParqProcessor::new(None, None, None, test_file_path, None, None);
    let result = processor.scan(&no_sources());
    assert!(result.is_ok());
    let lazy_frame = result.unwrap();
    assert_eq!(lazy_frame.schema().unwrap().iter_fields().len(), 10);
}

#[test]
fn test_run() {
    let (_file, test_file_path) = write_test_file("parq_processor_run", numbered_frame(10));
    let processor = ParqProcessor::new(None, None, None, test_file_path, None, None);
    let result = processor.run(&no_sources());
    assert!(result.is_ok());
    let frame = result.unwrap();
    assert_eq!(frame.schema().iter_fields().len(), 10);
}

#[test]
fn run_with_one_index_argument_fails_before_reading() {
    let processor = ParqProcessor::new(
        Some("t".to_string()),
        None,
        None,
        "does/not/exist.parq".to_string(),
        None,
        None,
    );
    assert!(matches!(
        processor.run(&no_sources()),
        Err(QueryError::MissingIndexArgument)
    ));
    let processor = ParqProcessor::new(
        None,
        Some("2024-02-01 17:02:00".to_string()),
        None,
        "does/not/exist.parq".to_string(),
        None,
        None,
    );
    let error = processor.run(&no_sources()).unwrap_err();
    assert_eq!(
        error.message(),
        "Search failed. Either index-name or index-value is missing"
    );
}

#[test]
fn run_without_index_returns_every_row_and_column() {
    let (_file, path) = write_test_file("run_without_index", abc_frame());
    let processor = ParqProcessor::new(None, None, None, path, None, None);
    let frame = processor.run(&no_sources()).unwrap();
    assert_eq!(frame, abc_frame());
}

#[test]
fn run_with_bad_index_value_names_the_stage() {
    let processor = ParqProcessor::new(
        Some("t".to_string()),
        Some("testinvalidindexvalue".to_string()),
        None,
        "does/not/exist.parq".to_string(),
        None,
        None,
    );
    let error = processor.run(&no_sources()).unwrap_err();
    assert!(error.message().starts_with("Failed to format index-value"));
}

#[test]
fn run_on_missing_local_file_is_source_not_found() {
    let processor = ParqProcessor::new(
        None,
        None,
        None,
        "test/file/doesnt/exist".to_string(),
        None,
        None,
    );
    let error = processor.run(&no_sources()).unwrap_err();
    assert!(matches!(error, QueryError::SourceNotFound(false, _)));
    assert!(error.message().starts_with("File does not exist"));
}

#[test]
fn projection_keeps_the_requested_columns() {
    let (_file, path) = write_test_file("projection", abc_frame());
    let processor = ParqProcessor::new(
        None,
        None,
        Some(vec!["A".to_string(), "C".to_string()]),
        path.clone(),
        None,
        None,
    );
    let frame = Processors::Parq(processor).run(&no_sources()).unwrap();
    assert_eq!(frame.width(), 2);
    assert_eq!(frame.height(), 3);
    assert_eq!(frame.get_column_names(), vec!["A", "C"]);

    let processor = ParqProcessor::new(None, None, None, path, None, None);
    let frame = processor.run(&no_sources()).unwrap();
    assert_eq!(frame.width(), 3);
    assert_eq!(frame.height(), 3);
}

#[test]
fn index_filter_keeps_the_matching_row() {
    let (_file, path) = write_test_file(
        "index_filter",
        timestamp_frame(&[MATCHING_MICROS - 60_000_000, MATCHING_MICROS, MATCHING_MICROS + 1]),
    );
    let processor = ParqProcessor::new(
        Some("t".to_string()),
        Some("2024-02-01 17:02:00".to_string()),
        None,
        path.clone(),
        None,
        None,
    );
    let frame = processor.run(&no_sources()).unwrap();
    assert_eq!(frame.height(), 1);
    assert_eq!(frame.column("v").unwrap().i32().unwrap().get(0), Some(1));

    let processor = ParqProcessor::new(
        Some("t".to_string()),
        Some("2023-02-01 17:02:00".to_string()),
        None,
        path,
        None,
        None,
    );
    let frame = processor.run(&no_sources()).unwrap();
    assert_eq!(frame.height(), 0);
}

#[test]
fn cloud_paths_resolve_credentials_first() {
    assert!(is_cloud_path("s3://bucket/key.parq"));
    assert!(!is_cloud_path("/s3://bucket"));
    let processor = ParqProcessor::new(
        None,
        None,
        None,
        "s3://bucket/key.parq".to_string(),
        None,
        None,
    );
    let error = processor.run(&no_sources()).unwrap_err();
    assert!(matches!(
        error,
        QueryError::Credentials(CredentialsError::FileNotFound)
    ));
}

#[test]
fn cloud_source_splits_bucket_and_key() {
    let sources = CredentialSources {
        file: Some("[p]\naws_access_key_id=a\naws_secret_access_key=b\naws_session_token=c\nregion=d\n".to_string()),
        env: no_sources().env,
    };
    let source = resolve_source("s3://bucket/dir/key.parq", Some("p"), &sources).unwrap();
    match &source {
        Source::Cloud(object) => {
            assert_eq!(object.bucket, "bucket");
            assert_eq!(object.key, "dir/key.parq");
            assert_eq!(object.credentials.region, "d");
        }
        Source::Local(_) => panic!("expected a cloud source"),
    }
    assert_eq!(source.location(), "s3://bucket/dir/key.parq");
    let local = resolve_source("data/x.parq", None, &no_sources()).unwrap();
    assert_eq!(local.location(), "data/x.parq");
}

#[test]
fn home_marker_is_expanded() {
    let processor = ParqProcessor::new(None, None, None, "~/x.parq".to_string(), None, None);
    assert!(!processor.file_name.starts_with('~'));
    assert!(processor.file_name.ends_with("/x.parq"));
    let processor = ParqProcessor::new(None, None, None, "~x.parq".to_string(), None, None);
    assert_eq!(processor.file_name, "~x.parq");
}

fn settings(file_name: &str) -> Processor {
    Processor {
        index_name: None,
        index_value: None,
        cols: None,
        file_name: file_name.to_string(),
        output_file: Some("out.csv".to_string()),
    }
}

#[test]
fn processor_kind_is_chosen_by_name() {
    assert!(Processors::new("csv", settings("f.parq"), None).is_none());
    match Processors::new("parq", settings("f.parq"), Some("p".to_string())) {
        Some(Processors::Parq(p)) => {
            assert_eq!(p.file_name, "f.parq");
            assert_eq!(p.profile.as_deref(), Some("p"));
            assert_eq!(p.output_file.as_deref(), Some("out.csv"));
        }
        None => panic!("expected a parquet processor"),
    }
}

#[test]
fn execute_applies_the_plan_in_memory() {
    let processor = ParqProcessor::new(
        None,
        None,
        Some(vec!["B".to_string()]),
        "unused.parq".to_string(),
        None,
        None,
    );
    let plan = processor.plan().unwrap();
    assert!(plan.filter.is_none());
    let frame = execute(abc_frame().lazy(), &plan).unwrap();
    assert_eq!(frame.width(), 1);
    assert_eq!(frame.height(), 3);
}

#[test]
fn plan_reports_a_bad_index_value() {
    let processor = ParqProcessor::new(
        Some("t".to_string()),
        Some("2024-02- 17:02:00".to_string()),
        None,
        "unused.parq".to_string(),
        None,
        None,
    );
    assert!(matches!(
        processor.plan(),
        Err(QueryError::InvalidIndexValue(DateTimeError::FailedToParse(DateField::Day)))
    ));
    let processor = ParqProcessor::new(
        Some("t".to_string()),
        Some("2024-02-01 17:02:00".to_string()),
        None,
        "unused.parq".to_string(),
        None,
        None,
    );
    let plan = processor.plan().unwrap();
    let filter = plan.filter.unwrap();
    assert_eq!(filter.column, "t");
    assert_eq!(filter.value, wdapty::DateParts(2024, 2, 1, 17, 2, 0));
}

#[test]
fn engine_errors_surface_from_execute() {
    let processor = ParqProcessor::new(
        None,
        None,
        Some(vec!["donotexist".to_string()]),
        "unused.parq".to_string(),
        None,
        None,
    );
    let plan = processor.plan().unwrap();
    let error = execute(abc_frame().lazy(), &plan).unwrap_err();
    assert!(matches!(error, QueryError::Engine(_)));
    assert!(error.message().contains("donotexist"));
}

#[test]
fn processor_query_filters_then_projects() {
    let processor = ParqProcessor::new(
        Some("t".to_string()),
        Some("2024-02-01 17:02:00".to_string()),
        Some(vec!["v".to_string()]),
        "unused.parq".to_string(),
        None,
        None,
    );
    let frame = timestamp_frame(&[MATCHING_MICROS, MATCHING_MICROS + 1]).lazy();
    let table = processor.query(frame).unwrap().collect().unwrap();
    assert_eq!(table.width(), 1);
    assert_eq!(table.height(), 1);
    assert_eq!(table.get_column_names(), vec!["v"]);
    let plan = processor.plan().unwrap();
    let frame = timestamp_frame(&[MATCHING_MICROS + 1]).lazy();
    let table = wdapty::build_query(frame, &plan).collect().unwrap();
    assert_eq!(table.height(), 0);
}

#[test]
fn projection_drops_repeated_columns() {
    let requested = Some(vec!["C".to_string(), "A".to_string(), "C".to_string()]);
    match select_projection(&requested) {
        Projection::Columns(names) => assert_eq!(names, vec!["C", "A"]),
        Projection::All => panic!("expected named columns"),
    }
    assert!(matches!(select_projection(&None), Projection::All));
    let processor = ParqProcessor::new(None, None, requested, "unused.parq".to_string(), None, None);
    let plan = processor.plan().unwrap();
    let frame = execute(abc_frame().lazy(), &plan).unwrap();
    assert_eq!(frame.get_column_names(), vec!["C", "A"]);
    assert_eq!(frame.height(), 3);
}
