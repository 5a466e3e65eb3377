use pgimporter::config::{ConfigProperties, ConnectionParams, ImportConfig};
use pgimporter::copy::CopyImporter;
use pgimporter::db::{
    complete_where_clause, count_query, full_select_query, plan_import, select_query,
    truncate_query, ImportPath, RowRange, TableChunk,
};
use pgimporter::multi_import::TransferProgress;
use pgimporter::query::QueryImporter;
use pgimporter::single_import::{full_copy_in_query, full_copy_out_query, StreamBuffer};

fn params(host: &str, port: &str) -> ConnectionParams {
    ConnectionParams {
        user: String::from("postgres"),
        pass: String::from("postgres"),
        host: String::from(host),
        port: String::from(port),
        dbname: String::from("postgres"),
    }
}

fn properties(importer_impl: &str) -> ConfigProperties {
    ConfigProperties {
        source: params("localhost", "5432"),
        target: params("localhost", "5555"),
        max_threads: 8,
        rows_insert: 10000,
        rows_select: 50000,
        error_log: false,
        importer_impl: String::from(importer_impl),
        batch_filename: String::new(),
    }
}

fn job(where_clause: &str) -> ImportConfig {
    ImportConfig::new(
        &properties("COPY"),
        String::from("public"),
        String::from("table1"),
        String::from(where_clause),
    )
}

#[test]
fn complete_where_prefixes_only_nonempty_filters() {
    assert_eq!(complete_where_clause(""), "");
    assert_eq!(complete_where_clause("age > 30"), "WHERE age > 30");
}

#[test]
fn select_query_for_chunk_with_order_key() {
    let config = job("age > 30");
    let chunk = TableChunk::new(&config, &RowRange { offset: 2500, limit: 2500 }, "id");
    assert_eq!(
        select_query(&config, &chunk),
        "SELECT * FROM public.table1 WHERE age > 30 ORDER BY id OFFSET 2500 LIMIT 2500"
    );
}

#[test]
fn select_query_without_filter_or_key() {
    let config = job("");
    let chunk = TableChunk::new(&config, &RowRange { offset: 0, limit: 100 }, "");
    assert_eq!(
        select_query(&config, &chunk),
        "SELECT * FROM public.table1  OFFSET 0 LIMIT 100"
    );
}

#[test]
fn copy_queries_for_chunk() {
    let config = job("");
    let chunk = TableChunk::new(&config, &RowRange { offset: 10, limit: 5 }, "id");
    assert_eq!(
        CopyImporter::copy_out_query(&config, &chunk),
        "COPY (SELECT * FROM public.table1  ORDER BY id OFFSET 10 LIMIT 5) TO STDOUT"
    );
    assert_eq!(
        CopyImporter::copy_in_query(&config),
        "COPY public.table1 FROM STDIN"
    );
}

#[test]
fn fallback_queries_cover_whole_filtered_table() {
    let config = job("age > 30");
    assert_eq!(
        full_select_query(&config),
        "SELECT * FROM public.table1 WHERE age > 30"
    );
    assert_eq!(
        full_copy_out_query(&config),
        "COPY (SELECT * FROM public.table1 WHERE age > 30) TO STDOUT"
    );
    assert_eq!(
        full_copy_in_query(&config),
        "COPY public.table1 FROM STDIN"
    );
}

#[test]
fn count_query_applies_filter() {
    assert_eq!(
        count_query(&job("")),
        "SELECT count(1) FROM public.table1"
    );
    assert_eq!(
        count_query(&job("id < 7")),
        "SELECT count(1) FROM public.table1 WHERE id < 7"
    );
}

#[test]
fn truncate_query_names_target_table() {
    assert_eq!(truncate_query(&job("")), "TRUNCATE TABLE public.table1");
}

#[test]
fn row_values_are_parenthesized_and_comma_joined() {
    let values = vec![String::from("1"), String::from("'a'"), String::from("NULL")];
    assert_eq!(QueryImporter::render_row_values(&values), "(1,'a',NULL)");
    let one = vec![String::from("42")];
    assert_eq!(QueryImporter::render_row_values(&one), "(42)");
}

#[test]
fn column_list_quotes_names() {
    let names = vec![String::from("id"), String::from("some_text")];
    assert_eq!(
        QueryImporter::column_list(&names),
        "(\"id\", \"some_text\")"
    );
    assert_eq!(QueryImporter::column_list(&vec![]), "()");
}

#[test]
fn insert_query_joins_all_parts() {
    let config = job("");
    let names = vec![String::from("id"), String::from("name")];
    assert_eq!(
        QueryImporter::insert_query(&config, &names, "(1,'a'),(2,'b')"),
        "INSERT INTO public.table1 (\"id\", \"name\") VALUES (1,'a'),(2,'b')"
    );
}

#[test]
fn rows_accumulate_comma_joined() {
    let mut values = String::new();
    QueryImporter::append_row_values(&mut values, "(1,'a')");
    assert_eq!(values, "(1,'a')");
    QueryImporter::append_row_values(&mut values, "(2,'b')");
    assert_eq!(values, "(1,'a'),(2,'b')");
}

#[test]
fn batch_flushes_on_threshold_and_on_chunk_end() {
    assert!(QueryImporter::should_flush(10000, 10000, 12000, 50000));
    assert!(QueryImporter::should_flush(3, 10000, 50000, 50000));
    assert!(!QueryImporter::should_flush(3, 10000, 12000, 50000));
}

#[test]
fn partial_tail_batch_is_still_pending() {
    // When the rows run out before the chunk's limit, the mid-stream rule
    // alone does not fire; the pending tail still owes one flush.
    assert!(!QueryImporter::should_flush(2, 10000, 2, 5));
    assert!(QueryImporter::has_pending_rows("(1,'a'),(2,'b')"));
    assert!(!QueryImporter::has_pending_rows(""));
}

#[test]
fn plan_import_decides_path() {
    // An empty filtered source is a no-op, not an error.
    assert!(matches!(plan_import(8, 0, None), ImportPath::NoOp));
    // One worker forces the fallback.
    assert!(matches!(
        plan_import(1, 500, Some(String::from("id"))),
        ImportPath::SingleThread
    ));
    // No uniqueness constraint forces the fallback even with many workers.
    assert!(matches!(plan_import(8, 500, None), ImportPath::SingleThread));
    // Many workers and a stable key take the parallel path.
    match plan_import(8, 500, Some(String::from("id"))) {
        ImportPath::MultiThread { order_by } => assert_eq!(order_by, "id"),
        _ => panic!("expected the parallel path"),
    }
}

#[test]
fn stream_buffer_flushes_every_batch_and_keeps_all_bytes() {
    let mut buffer = StreamBuffer::new();
    let mut flushed: Vec<u8> = Vec::new();
    for chunk in [&b"one\n"[..], &b"two\n"[..], &b"three\n"[..]] {
        buffer.push_read(chunk);
        if buffer.should_flush(2) {
            flushed.extend_from_slice(&buffer.take_buffer());
        }
    }
    // Two reads crossed the batch size; the third still waits.
    assert_eq!(flushed, b"one\ntwo\n");
    assert!(!buffer.is_empty());
    // The final flush drains the remainder: no byte is lost.
    flushed.extend_from_slice(&buffer.take_buffer());
    assert!(buffer.is_empty());
    assert_eq!(flushed, b"one\ntwo\nthree\n");
}

#[test]
fn progress_only_grows() {
    let mut progress = TransferProgress::new();
    assert_eq!(progress.rows_moved(), 0);
    progress.advance(2500);
    progress.advance(0);
    progress.advance(500);
    assert_eq!(progress.rows_moved(), 3000);
}
