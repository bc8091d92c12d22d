use splitrail::tui::UploadStatus;
use splitrail::upload::{accepted_answer, chunk_bounds, failed_answer, next_progress_count, progress_status, CHUNK_SIZE};

#[test]
fn uploads_go_in_chunks_of_forty_five_hundred() {
    assert!(chunk_bounds(0).is_empty());
    assert_eq!(chunk_bounds(10), vec![(0, 10)]);
    assert_eq!(chunk_bounds(9001), vec![(0, 4500), (4500, 9000), (9000, 9001)]);
    assert_eq!(chunk_bounds(2 * CHUNK_SIZE).len(), 2);
}

#[test]
fn progress_counter_runs_toward_its_target() {
    assert_eq!(next_progress_count(0, 10), 1);
    assert_eq!(next_progress_count(0, 1000), 20);
    assert_eq!(next_progress_count(0, 100_000), 100);
    assert_eq!(next_progress_count(9, 10), 10);
    assert_eq!(next_progress_count(10, 10), 10);
}

#[test]
fn progress_keeps_the_animation() {
    let s = progress_status(&UploadStatus::Uploading { current: 0, total: 5, dots: 2 }, 3, 5);
    assert!(matches!(s, UploadStatus::Uploading { current: 3, total: 5, dots: 2 }));
    let s = progress_status(&UploadStatus::Failed("x".to_string()), 1, 5);
    assert!(matches!(s, UploadStatus::Uploading { current: 1, total: 5, dots: 0 }));
}

#[test]
fn server_answers_become_results() {
    assert_eq!(accepted_answer(true, None), Ok(()));
    assert_eq!(accepted_answer(true, Some("ignored".to_string())), Ok(()));
    assert_eq!(accepted_answer(false, Some("quota exceeded".to_string())), Err("Server returned error: quota exceeded".to_string()));
    assert_eq!(accepted_answer(false, None), Err("Server returned error: Unknown error".to_string()));
    assert_eq!(failed_answer(Some("bad token".to_string()), "{\"error\":\"bad token\"}".to_string()), "bad token");
    assert_eq!(failed_answer(None, "502 Bad Gateway".to_string()), "502 Bad Gateway");
}
