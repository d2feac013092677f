use barcode::assemble::{assemble, get_final_frame, Image};
use barcode::collect::{collect_results, column_colours, sort_by_frame_index};
use barcode::colour::{Colour, IndexedColumn};
use barcode::error::PipelineError;
use barcode::pipeline::finish_run;
use barcode::ppm::{ppm_file_bytes, ppm_header};
use barcode::reduce::get_avg_colours;
use barcode::select::{compute_stride, select, Dispatcher};

fn grey(v: u8) -> Colour {
    Colour::new(v, v, v)
}

#[test]
fn stride_is_floor_of_total_over_width() {
    assert_eq!(compute_stride(10, 4), Ok(2));
    assert_eq!(compute_stride(100, 100), Ok(1));
    assert_eq!(compute_stride(7, 2), Ok(3));
}

#[test]
fn selected_indices_are_multiples_of_stride() {
    let stride = compute_stride(10, 5).unwrap();
    assert_eq!(stride, 2);
    let kept: Vec<u64> = (0..10).filter(|&i| select(i, stride)).collect();
    assert_eq!(kept, vec![0, 2, 4, 6, 8]);
}

#[test]
fn width_zero_is_a_configuration_error() {
    assert_eq!(compute_stride(10, 0), Err(PipelineError::WidthZero));
}

#[test]
fn width_exceeding_total_is_a_configuration_error() {
    // Requesting one more column than the advisory frame count must fail
    // fast, not crash or produce an empty image.
    let total = 25;
    assert_eq!(
        compute_stride(total, total + 1),
        Err(PipelineError::WidthExceedsFrames)
    );
}

#[test]
fn dispatcher_counts_submitted_jobs() {
    let mut d = Dispatcher::new(3);
    let mut kept_indices = Vec::new();
    for _ in 0..7 {
        let (index, kept) = d.observe_frame();
        if kept {
            kept_indices.push(index);
        }
    }
    assert_eq!(kept_indices, vec![0, 3, 6]);
    assert_eq!(d.expected_results(), 3);
}

#[test]
fn uniform_rows_reduce_to_themselves() {
    // Height 4, width 3: every pixel in row i is (i, i, i).
    let height = 4u8;
    let width = 3usize;
    let mut data = Vec::new();
    for row in 0..height {
        for _ in 0..width {
            data.push(row);
            data.push(row);
            data.push(row);
        }
    }
    let column = get_avg_colours(&data, width as u32, height as u32);
    assert_eq!(column.len(), height as usize);
    for row in 0..height {
        assert_eq!(column[row as usize], grey(row));
    }
}

#[test]
fn reduction_truncates_the_mean() {
    // Width 2, red channels [0, 1]: the mean truncates to 0, not rounds to 1.
    let data = vec![0, 0, 0, 1, 2, 3];
    let column = get_avg_colours(&data, 2, 1);
    assert_eq!(column, vec![Colour::new(0, 1, 1)]);
}

#[test]
fn sort_restores_temporal_order() {
    let mut v = vec![
        IndexedColumn::new(6, vec![grey(3)]),
        IndexedColumn::new(0, vec![grey(1)]),
        IndexedColumn::new(3, vec![grey(2)]),
    ];
    sort_by_frame_index(&mut v);
    let indices: Vec<u64> = v.iter().map(|ic| ic.index).collect();
    assert_eq!(indices, vec![0, 3, 6]);
    assert_eq!(v[0].column, vec![grey(1)]);
    assert_eq!(v[1].column, vec![grey(2)]);
    assert_eq!(v[2].column, vec![grey(3)]);
}

#[test]
fn collection_is_order_independent() {
    // The same three jobs, completed in two different orders, yield the
    // identical final image bytes.
    let completion_a = vec![
        IndexedColumn::new(2, vec![grey(30), grey(31)]),
        IndexedColumn::new(0, vec![grey(10), grey(11)]),
        IndexedColumn::new(1, vec![grey(20), grey(21)]),
    ];
    let completion_b = vec![
        IndexedColumn::new(0, vec![grey(10), grey(11)]),
        IndexedColumn::new(1, vec![grey(20), grey(21)]),
        IndexedColumn::new(2, vec![grey(30), grey(31)]),
    ];
    let img_a = finish_run(completion_a, 3).unwrap();
    let img_b = finish_run(completion_b, 3).unwrap();
    assert_eq!(img_a.data, img_b.data);
    assert_eq!(ppm_file_bytes(&img_a), ppm_file_bytes(&img_b));
}

#[test]
fn short_collection_fails_closed() {
    // Only 2 of 3 expected results arrived: the run must report the
    // mismatch, not assemble a short image.
    let results = vec![
        IndexedColumn::new(0, vec![grey(1)]),
        IndexedColumn::new(2, vec![grey(2)]),
    ];
    assert!(matches!(
        finish_run(results, 3),
        Err(PipelineError::ResultCountMismatch)
    ));
}

#[test]
fn collect_checks_the_expected_count() {
    let results = vec![IndexedColumn::new(0, vec![grey(1)])];
    assert!(matches!(
        collect_results(results, 2),
        Err(PipelineError::ResultCountMismatch)
    ));
}

#[test]
fn column_colours_keeps_the_order() {
    let sorted = vec![
        IndexedColumn::new(0, vec![grey(1)]),
        IndexedColumn::new(2, vec![grey(2)]),
    ];
    let cols = column_colours(sorted);
    assert_eq!(cols, vec![vec![grey(1)], vec![grey(2)]]);
}

#[test]
fn assembly_transposes_columns_into_rows() {
    // Column 0 = [(1,1,1),(2,2,2),(3,3,3)], column 1 = [(4,4,4),(5,5,5),(6,6,6)].
    // Read back row-major at width 2, height 3:
    // row 0 = [(1,1,1),(4,4,4)], row 1 = [(2,2,2),(5,5,5)], row 2 = [(3,3,3),(6,6,6)].
    let columns = vec![
        vec![grey(1), grey(2), grey(3)],
        vec![grey(4), grey(5), grey(6)],
    ];
    let frame = get_final_frame(&columns);
    assert_eq!(
        frame,
        vec![
            1, 1, 1, 4, 4, 4, //
            2, 2, 2, 5, 5, 5, //
            3, 3, 3, 6, 6, 6,
        ]
    );
    let img = assemble(&columns).unwrap();
    assert_eq!(img.width, 2);
    assert_eq!(img.height, 3);
    assert_eq!(img.data, frame);
}

#[test]
fn assembly_rejects_an_empty_column_set() {
    let columns: Vec<Vec<Colour>> = Vec::new();
    assert!(matches!(
        assemble(&columns),
        Err(PipelineError::EmptyColumnSet)
    ));
}

#[test]
fn assembly_rejects_unequal_column_heights() {
    let columns = vec![vec![grey(1), grey(2)], vec![grey(3)]];
    assert!(matches!(
        assemble(&columns),
        Err(PipelineError::ColumnHeightMismatch)
    ));
}

#[test]
fn run_with_no_results_produces_no_image() {
    let results: Vec<IndexedColumn> = Vec::new();
    assert!(matches!(
        finish_run(results, 0),
        Err(PipelineError::EmptyColumnSet)
    ));
}

#[test]
fn header_bytes_are_exact() {
    assert_eq!(ppm_header(13, 7), b"P6\n13 7\n255\n".to_vec());
    assert_eq!(ppm_header(0, 100), b"P6\n0 100\n255\n".to_vec());
}

#[test]
fn file_bytes_are_header_then_raw_pixels() {
    let img = Image {
        data: vec![9, 8, 7, 6, 5, 4],
        width: 2,
        height: 1,
    };
    let mut expected = b"P6\n2 1\n255\n".to_vec();
    expected.extend_from_slice(&[9, 8, 7, 6, 5, 4]);
    assert_eq!(ppm_file_bytes(&img), expected);
}
