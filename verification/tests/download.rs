use image_search::batch::gather;
use image_search::pool::Pool;
use image_search::reserve::Reservation;
use image_search::task::{name_file, Phase, Task};
use image_search::DownloadError;

const PNG: [u8; 8] = [0x89, 0x50, 0x4e, 0x47, 0x0d, 0x0a, 0x1a, 0x0a];
const GIF: [u8; 6] = [0x47, 0x49, 0x46, 0x38, 0x39, 0x61];
const ZIP: [u8; 8] = [0x50, 0x4b, 0x03, 0x04, 0x14, 0x00, 0x00, 0x00];

fn strings(items: &[&str]) -> Vec<String> {
    items.iter().map(|item| item.to_string()).collect()
}

fn fetch(url: &str) -> Option<Vec<u8>> {
    if url.ends_with(".png") {
        Some(PNG.to_vec())
    } else if url.ends_with(".gif") {
        Some(GIF.to_vec())
    } else if url.ends_with(".zip") {
        Some(ZIP.to_vec())
    } else if url.ends_with(".svg") {
        Some(b"<svg></svg>".to_vec())
    } else {
        None
    }
}

fn advance(task: &mut Task, pool: &mut Pool) -> Option<String> {
    let url = match task.phase() {
        Phase::Waiting => {
            task.acquire(pool);
            return None;
        }
        Phase::Fetching(url) => url.clone(),
        Phase::Writing(_) => {
            task.written();
            return None;
        }
        Phase::Done(_) | Phase::Exhausted => return None,
    };
    match fetch(&url) {
        Some(bytes) => task.fetched(&bytes),
        None => task.fetch_failed(),
    }
    Some(url)
}

fn run(urls: &[&str], stems: &[&str], order: &[usize]) -> (Vec<Task>, Pool, Vec<String>) {
    let mut pool = Pool::new(strings(urls));
    let mut tasks: Vec<Task> = stems.iter().map(|stem| Task::new(stem.to_string())).collect();
    let mut fetched = Vec::new();
    let mut turn = 0;
    while tasks.iter().any(|task| !task.is_over()) {
        let index = order[turn % order.len()] % tasks.len();
        turn += 1;
        if let Some(url) = advance(&mut tasks[index], &mut pool) {
            fetched.push(url);
        }
    }
    (tasks, pool, fetched)
}

#[test]
fn pool_hands_out_its_candidates_from_the_front() {
    let mut pool = Pool::new(strings(&["a", "b", "c"]));
    assert_eq!(pool.len(), 3);
    assert!(!pool.is_empty());
    assert_eq!(pool.take(), Some("a".to_string()));
    assert_eq!(pool.len(), 2);
    assert_eq!(pool.take(), Some("b".to_string()));
    assert_eq!(pool.take(), Some("c".to_string()));
    assert!(pool.is_empty());
    assert_eq!(pool.take(), None);
    assert_eq!(pool.take(), None);
    assert_eq!(pool.len(), 0);
}

#[test]
fn empty_pool_hands_out_nothing() {
    let mut pool = Pool::new(Vec::new());
    assert!(pool.is_empty());
    assert_eq!(pool.len(), 0);
    assert_eq!(pool.take(), None);
}

#[test]
fn file_name_is_stem_dot_extension() {
    assert_eq!(name_file("cat0", "png"), "cat0.png");
    assert_eq!(name_file("big cat.v20", "jpg"), "big cat.v20.jpg");
    assert_eq!(name_file("", "svg"), ".svg");
    assert_eq!(name_file("cat", ""), "cat.");
}

#[test]
fn task_goes_from_candidate_to_file() {
    let mut pool = Pool::new(strings(&["http://x/a.png", "http://x/b.png"]));
    let mut task = Task::new("cat0".to_string());
    assert_eq!(task.stem(), "cat0");
    assert!(matches!(task.phase(), Phase::Waiting));
    assert!(!task.is_over());
    assert!(task.result().is_none());
    task.acquire(&mut pool);
    assert!(matches!(task.phase(), Phase::Fetching(url) if url == "http://x/a.png"));
    assert_eq!(pool.len(), 1);
    task.fetched(&PNG);
    assert!(matches!(task.phase(), Phase::Writing(name) if name == "cat0.png"));
    assert!(!task.is_over());
    task.written();
    assert!(matches!(task.phase(), Phase::Done(name) if name == "cat0.png"));
    assert!(task.is_over());
    assert!(matches!(task.result(), Some(Ok(name)) if name == "cat0.png"));
    assert_eq!(pool.len(), 1);
}

#[test]
fn failed_attempt_drops_the_candidate_and_takes_the_next() {
    let mut pool = Pool::new(strings(&["bad", "worse", "worst", "good"]));
    let mut task = Task::new("cat0".to_string());
    task.acquire(&mut pool);
    task.fetch_failed();
    assert!(matches!(task.phase(), Phase::Waiting));
    assert_eq!(pool.len(), 3);
    task.acquire(&mut pool);
    assert!(matches!(task.phase(), Phase::Fetching(url) if url == "worse"));
    task.fetched(&ZIP);
    assert!(matches!(task.phase(), Phase::Waiting));
    task.acquire(&mut pool);
    assert!(matches!(task.phase(), Phase::Fetching(url) if url == "worst"));
    task.fetched(&GIF);
    assert!(matches!(task.phase(), Phase::Writing(name) if name == "cat0.gif"));
    task.write_failed();
    assert!(matches!(task.phase(), Phase::Waiting));
    task.acquire(&mut pool);
    assert!(matches!(task.phase(), Phase::Fetching(url) if url == "good"));
    task.fetched(b"<svg/>");
    task.written();
    assert!(matches!(task.result(), Some(Ok(name)) if name == "cat0.svg"));
    assert!(pool.is_empty());
}

#[test]
fn task_is_exhausted_when_the_pool_is_empty() {
    let mut pool = Pool::new(strings(&["bad"]));
    let mut task = Task::new("cat0".to_string());
    task.acquire(&mut pool);
    task.fetch_failed();
    task.acquire(&mut pool);
    assert!(matches!(task.phase(), Phase::Exhausted));
    assert!(task.is_over());
    assert!(matches!(task.result(), Some(Err(DownloadError::Overflow))));
}

#[test]
fn report_that_answers_no_question_changes_nothing() {
    let mut pool = Pool::new(strings(&["a", "b"]));
    let mut task = Task::new("cat0".to_string());
    task.fetched(&PNG);
    task.fetch_failed();
    task.written();
    task.write_failed();
    task.settle(Ok("png".to_string()));
    assert!(matches!(task.phase(), Phase::Waiting));
    task.acquire(&mut pool);
    task.acquire(&mut pool);
    task.offer(Some("c".to_string()));
    task.offer(None);
    task.written();
    task.write_failed();
    assert!(matches!(task.phase(), Phase::Fetching(url) if url == "a"));
    assert_eq!(pool.len(), 1);
    task.settle(Ok("png".to_string()));
    task.acquire(&mut pool);
    task.fetch_failed();
    task.fetched(&ZIP);
    task.settle(Err(DownloadError::Extension));
    assert!(matches!(task.phase(), Phase::Writing(name) if name == "cat0.png"));
    assert_eq!(pool.len(), 1);
    task.written();
    task.acquire(&mut pool);
    task.write_failed();
    task.fetch_failed();
    task.offer(None);
    assert!(matches!(task.phase(), Phase::Done(name) if name == "cat0.png"));
    assert_eq!(pool.len(), 1);
    let mut spent = Task::new("cat1".to_string());
    spent.offer(None);
    spent.acquire(&mut pool);
    spent.offer(Some("a".to_string()));
    assert!(matches!(spent.phase(), Phase::Exhausted));
    assert_eq!(pool.len(), 1);
}

#[test]
fn settle_takes_any_verdict() {
    let mut task = Task::new("cat0".to_string());
    task.offer(Some("a".to_string()));
    task.settle(Err(DownloadError::Network("timed out".to_string())));
    assert!(matches!(task.phase(), Phase::Waiting));
    task.offer(Some("b".to_string()));
    task.settle(Err(DownloadError::Fs("disk full".to_string())));
    assert!(matches!(task.phase(), Phase::Waiting));
    task.offer(Some("c".to_string()));
    task.settle(Ok("webp".to_string()));
    assert!(matches!(task.phase(), Phase::Writing(name) if name == "cat0.webp"));
}

#[test]
fn enough_valid_candidates_fill_every_slot() {
    let urls = ["1.png", "2.gif", "3.svg", "4.png", "5.png"];
    let stems = ["cat0", "cat1", "cat2"];
    for order in [vec![0, 1, 2], vec![2, 1, 0], vec![0, 0, 0, 1, 1, 1, 2, 2, 2], vec![0, 2, 2, 1, 0]] {
        let (tasks, pool, fetched) = run(&urls, &stems, &order);
        let names = gather(&tasks);
        assert_eq!(names.len(), 3);
        assert!(names[0].starts_with("cat0."));
        assert!(names[1].starts_with("cat1."));
        assert!(names[2].starts_with("cat2."));
        assert_ne!(names[0], names[1]);
        assert_ne!(names[0], names[2]);
        assert_ne!(names[1], names[2]);
        assert_eq!(pool.len(), 2);
        let mut seen = fetched.clone();
        seen.sort();
        assert_eq!(seen, vec!["1.png", "2.gif", "3.svg"]);
    }
}

#[test]
fn as_many_candidates_as_slots_are_all_used() {
    let (tasks, pool, fetched) = run(&["1.png", "2.png"], &["a0", "a1"], &[0, 1]);
    assert_eq!(gather(&tasks), vec!["a0.png", "a1.png"]);
    assert!(pool.is_empty());
    assert_eq!(fetched.len(), 2);
}

#[test]
fn too_few_valid_candidates_leave_slots_without_a_file() {
    let urls = ["1.zip", "2.png", "gone", "4.zip", "5.gif", "6.txt"];
    let stems = ["cat0", "cat1", "cat2", "cat3"];
    for order in [vec![0, 1, 2, 3], vec![3, 2, 1, 0], vec![1, 1, 1, 1, 0, 2, 3]] {
        let (tasks, pool, fetched) = run(&urls, &stems, &order);
        let names = gather(&tasks);
        assert_eq!(names.len(), 2);
        assert!(pool.is_empty());
        let mut seen = fetched.clone();
        seen.sort();
        assert_eq!(seen, vec!["1.zip", "2.png", "4.zip", "5.gif", "6.txt", "gone"]);
        let done = tasks.iter().filter(|task| matches!(task.phase(), Phase::Done(_))).count();
        let spent = tasks.iter().filter(|task| matches!(task.phase(), Phase::Exhausted)).count();
        assert_eq!(done, 2);
        assert_eq!(spent, 2);
    }
}

#[test]
fn no_candidates_leave_every_slot_without_a_file() {
    let (tasks, pool, fetched) = run(&[], &["a0", "a1"], &[0, 1]);
    assert!(gather(&tasks).is_empty());
    assert!(pool.is_empty());
    assert!(fetched.is_empty());
    assert!(tasks.iter().all(|task| matches!(task.result(), Some(Err(DownloadError::Overflow)))));
}

#[test]
fn no_slots_take_no_candidates() {
    let (tasks, pool, _) = run(&["1.png"], &[], &[0]);
    assert!(tasks.is_empty());
    assert!(gather(&tasks).is_empty());
    assert_eq!(pool.len(), 1);
}

#[test]
fn gather_keeps_the_order_of_the_tasks() {
    let mut pool = Pool::new(strings(&["a", "b", "c"]));
    let mut tasks = vec![
        Task::new("x0".to_string()),
        Task::new("x1".to_string()),
        Task::new("x2".to_string()),
        Task::new("x3".to_string()),
    ];
    tasks[2].acquire(&mut pool);
    tasks[2].settle(Ok("png".to_string()));
    tasks[2].written();
    tasks[0].acquire(&mut pool);
    tasks[0].settle(Ok("gif".to_string()));
    tasks[0].written();
    tasks[1].acquire(&mut pool);
    tasks[1].settle(Ok("jpg".to_string()));
    tasks[3].acquire(&mut pool);
    assert_eq!(gather(&tasks), vec!["x0.gif", "x2.png"]);
}

#[test]
fn reserved_stems_give_different_files() {
    let mut reservation = Reservation::new("cat.1", 3);
    while !reservation.is_complete() {
        let stem = reservation.candidate();
        reservation.report(stem == "cat.11");
    }
    let stems = reservation.into_stems();
    assert_eq!(stems, vec!["cat.10", "cat.12", "cat.13"]);
    let mut pool = Pool::new(strings(&["1.png", "2.png", "3.png"]));
    let mut tasks: Vec<Task> = stems.into_iter().map(Task::new).collect();
    for task in tasks.iter_mut() {
        task.acquire(&mut pool);
        task.fetched(&PNG);
        task.written();
    }
    assert_eq!(gather(&tasks), vec!["cat.10.png", "cat.12.png", "cat.13.png"]);
}
