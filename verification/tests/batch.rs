//! Tests for batch assembly: input order is restored whatever the
//! completion order, and one failing item fails the whole call.

use html2pdf::batch::assemble_batch;
use html2pdf::error::PdfError;

type Tagged = (usize, Result<Vec<u8>, PdfError>);

#[test]
fn results_come_back_in_input_order() {
    // Completion order 2, 0, 1 — output order must be 0, 1, 2.
    let tagged: Vec<Tagged> = vec![
        (2, Ok(b"c".to_vec())),
        (0, Ok(b"a".to_vec())),
        (1, Ok(b"b".to_vec())),
    ];
    let out = assemble_batch(3, tagged).unwrap();
    assert_eq!(out, vec![b"a".to_vec(), b"b".to_vec(), b"c".to_vec()]);
}

#[test]
fn any_completion_order_gives_the_same_output() {
    let orders: [[usize; 3]; 3] = [[0, 1, 2], [1, 2, 0], [2, 1, 0]];
    let payload = [b"x".to_vec(), b"y".to_vec(), b"z".to_vec()];
    for order in orders {
        let tagged: Vec<Tagged> =
            order.iter().map(|&i| (i, Ok(payload[i].clone()))).collect();
        let out = assemble_batch(3, tagged).unwrap();
        assert_eq!(out, payload.to_vec());
    }
}

#[test]
fn single_item_batch() {
    let tagged: Vec<Tagged> = vec![(0, Ok(b"only".to_vec()))];
    assert_eq!(assemble_batch(1, tagged).unwrap(), vec![b"only".to_vec()]);
}

#[test]
fn empty_batch_is_ok_and_empty() {
    let tagged: Vec<Tagged> = vec![];
    assert_eq!(assemble_batch(0, tagged).unwrap(), Vec::<Vec<u8>>::new());
}

#[test]
fn one_failure_fails_the_whole_batch() {
    let tagged: Vec<Tagged> = vec![
        (0, Ok(b"a".to_vec())),
        (1, Err(PdfError::EmptyHtml)),
        (2, Ok(b"c".to_vec())),
    ];
    // No partial results: the whole call fails.
    assert!(matches!(assemble_batch(3, tagged), Err(PdfError::EmptyHtml)));
}

#[test]
fn the_smallest_failing_index_wins() {
    // Index 1 fails with EmptyHtml, index 2 with a browser error; the
    // reported failure is the one of the smallest input index, whatever
    // order the results came back in.
    let tagged: Vec<Tagged> = vec![
        (2, Err(PdfError::BrowserError("later".to_string()))),
        (1, Err(PdfError::EmptyHtml)),
        (0, Ok(b"a".to_vec())),
    ];
    assert!(matches!(assemble_batch(3, tagged), Err(PdfError::EmptyHtml)));
}
