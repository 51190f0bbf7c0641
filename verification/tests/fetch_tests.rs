use hatchery::api::LastFMError;
use hatchery::fetch::{run_script, FetchStatus, Fetcher, PageOutcome};

fn ok_page(records: Vec<i32>, total_pages: usize) -> PageOutcome<i32> {
    PageOutcome::Success { records, total_pages }
}

#[test]
fn serves_all_pages_in_order() {
    let script = vec![
        ok_page(vec![1, 2], 3),
        ok_page(vec![3, 4], 3),
        ok_page(vec![5], 3),
    ];
    assert_eq!(run_script(script), Ok(vec![1, 2, 3, 4, 5]));
}

#[test]
fn single_page_run_terminates() {
    let script = vec![ok_page(vec![7, 8, 9], 1)];
    assert_eq!(run_script(script), Ok(vec![7, 8, 9]));
}

#[test]
fn zero_total_means_done_after_first_page() {
    let script = vec![ok_page(vec![42], 0)];
    assert_eq!(run_script(script), Ok(vec![42]));
}

#[test]
fn shrinking_total_does_not_end_early() {
    // the second page reports a smaller total; the cursor keeps the
    // larger one and all three pages are consumed
    let script = vec![
        ok_page(vec![1], 3),
        ok_page(vec![2], 2),
        ok_page(vec![3], 1),
    ];
    assert_eq!(run_script(script), Ok(vec![1, 2, 3]));
}

#[test]
fn growing_total_extends_the_run() {
    let script = vec![
        ok_page(vec![1], 2),
        ok_page(vec![2], 3),
        ok_page(vec![3], 3),
    ];
    assert_eq!(run_script(script), Ok(vec![1, 2, 3]));
}

#[test]
fn three_failures_abort_with_request_error() {
    let script: Vec<PageOutcome<i32>> = vec![
        PageOutcome::Failure,
        PageOutcome::Failure,
        PageOutcome::Failure,
        ok_page(vec![1], 1),
    ];
    assert_eq!(run_script(script), Err(LastFMError::RequestError));
}

#[test]
fn two_failures_then_success_recovers() {
    let script = vec![
        PageOutcome::Failure,
        PageOutcome::Failure,
        ok_page(vec![1], 2),
        PageOutcome::Failure,
        PageOutcome::Failure,
        ok_page(vec![2], 2),
    ];
    assert_eq!(run_script(script), Ok(vec![1, 2]));
}

#[test]
fn exhausted_script_while_in_progress_is_an_error() {
    let script = vec![ok_page(vec![1], 5)];
    assert_eq!(run_script(script), Err(LastFMError::RequestError));
}

#[test]
fn aborted_run_discards_partial_results() {
    let script = vec![
        ok_page(vec![1, 2], 9),
        PageOutcome::Failure,
        PageOutcome::Failure,
        PageOutcome::Failure,
    ];
    assert_eq!(run_script(script), Err(LastFMError::RequestError));
}

#[test]
fn stepwise_state_machine() {
    let mut fetcher: Fetcher<i32> = Fetcher::new();
    assert_eq!(fetcher.next_page(), 1);
    assert!(fetcher.is_in_progress());

    fetcher.step(PageOutcome::Failure);
    assert!(fetcher.is_in_progress());
    assert_eq!(fetcher.next_page(), 1);
    assert_eq!(fetcher.failures, 1);

    fetcher.step(ok_page(vec![10], 2));
    assert!(fetcher.is_in_progress());
    assert_eq!(fetcher.failures, 0);
    assert_eq!(fetcher.next_page(), 2);
    assert_eq!(fetcher.cursor.total, 2);

    fetcher.step(ok_page(vec![20], 2));
    assert!(!fetcher.is_in_progress());
    assert_eq!(fetcher.status, FetchStatus::Done);
    assert_eq!(fetcher.into_result(), Ok(vec![10, 20]));
}
