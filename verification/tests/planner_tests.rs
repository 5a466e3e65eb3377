use pgimporter::db::RowRange;
use pgimporter::multi_import::{plan_chunks, plan_partitions};

#[test]
fn partition_plan_even_split() {
    let plan = plan_partitions(10000, 4);
    assert_eq!(
        plan,
        vec![
            RowRange { offset: 0, limit: 2500 },
            RowRange { offset: 2500, limit: 2500 },
            RowRange { offset: 5000, limit: 2500 },
            RowRange { offset: 7500, limit: 2500 },
        ]
    );
}

#[test]
fn partition_plan_last_worker_absorbs_remainder() {
    let plan = plan_partitions(10, 3);
    assert_eq!(
        plan,
        vec![
            RowRange { offset: 0, limit: 3 },
            RowRange { offset: 3, limit: 3 },
            RowRange { offset: 6, limit: 4 },
        ]
    );
    let total: i64 = plan.iter().map(|r| r.limit).sum();
    assert_eq!(total, 10);
}

#[test]
fn partition_plan_empty_table_yields_no_workers() {
    assert_eq!(plan_partitions(0, 8), vec![]);
}

#[test]
fn partition_plan_single_worker_takes_all() {
    assert_eq!(plan_partitions(7, 1), vec![RowRange { offset: 0, limit: 7 }]);
}

#[test]
fn partition_plan_more_workers_than_rows() {
    let plan = plan_partitions(2, 4);
    assert_eq!(
        plan,
        vec![
            RowRange { offset: 0, limit: 0 },
            RowRange { offset: 0, limit: 0 },
            RowRange { offset: 0, limit: 0 },
            RowRange { offset: 0, limit: 2 },
        ]
    );
    let total: i64 = plan.iter().map(|r| r.limit).sum();
    assert_eq!(total, 2);
}

#[test]
fn chunk_plan_caps_each_fetch() {
    let chunks = plan_chunks(&RowRange { offset: 100, limit: 10 }, 3);
    assert_eq!(
        chunks,
        vec![
            RowRange { offset: 100, limit: 3 },
            RowRange { offset: 103, limit: 3 },
            RowRange { offset: 106, limit: 3 },
            RowRange { offset: 109, limit: 1 },
        ]
    );
}

#[test]
fn chunk_plan_exact_division_has_no_partial_chunk() {
    let chunks = plan_chunks(&RowRange { offset: 0, limit: 6 }, 3);
    assert_eq!(
        chunks,
        vec![RowRange { offset: 0, limit: 3 }, RowRange { offset: 3, limit: 3 }]
    );
}

#[test]
fn chunk_plan_small_range_is_one_chunk() {
    let chunks = plan_chunks(&RowRange { offset: 5, limit: 2 }, 50000);
    assert_eq!(chunks, vec![RowRange { offset: 5, limit: 2 }]);
}

#[test]
fn chunk_plan_empty_range_yields_no_chunks() {
    assert_eq!(plan_chunks(&RowRange { offset: 42, limit: 0 }, 7), vec![]);
}

#[test]
fn chunk_plan_reconstructs_parent_range() {
    let parent = RowRange { offset: 17, limit: 1000 };
    let chunks = plan_chunks(&parent, 123);
    assert_eq!(chunks.first().unwrap().offset, 17);
    let mut expected_offset = 17i64;
    let mut total = 0i64;
    for c in &chunks {
        assert_eq!(c.offset, expected_offset);
        assert!(c.limit > 0 && c.limit <= 123);
        expected_offset += c.limit;
        total += c.limit;
    }
    assert_eq!(total, 1000);
}
