use dgx_pixels_tui::image_cache::ImageCache;
use dgx_pixels_tui::input::{
    handle_gallery_input, handle_generation_input, handle_keyboard_input, handle_navigation,
    handle_queue_input, handle_text_input, queue_order, GalleryEvent,
};
use dgx_pixels_tui::input_buffer::InputBuffer;
use dgx_pixels_tui::keys::{KeyCode, KeyEvent, KeyModifiers};
use dgx_pixels_tui::messages::{GenerationStage, Response};
use dgx_pixels_tui::order::stable_order;
use dgx_pixels_tui::paths::gallery_path;
use dgx_pixels_tui::screen::Screen;
use dgx_pixels_tui::state::{AppState, GalleryState, Job, JobStatus, JobTracker, QueueState};
use dgx_pixels_tui::zmq::{
    handle_zmq_responses, handle_zmq_updates, poll_zmq, GenerationComplete, JobProgressUpdate,
};

fn k(code: KeyCode) -> KeyEvent {
    KeyEvent::from_code(code)
}

fn queue_with(total: usize) -> QueueState {
    let mut q = QueueState::new();
    q.update_total(total);
    q
}

#[test]
fn test_navigation_up_down() {
    let mut q = queue_with(5);
    let mut app = AppState::new();
    handle_queue_input(&vec![k(KeyCode::Down)], Screen::Queue, &mut q, &mut app, &vec![]);
    assert_eq!(q.selected, 1);
    handle_queue_input(&vec![k(KeyCode::Up)], Screen::Queue, &mut q, &mut app, &vec![]);
    assert_eq!(q.selected, 0);
}

#[test]
fn test_vi_style_navigation() {
    let mut q = queue_with(5);
    let mut app = AppState::new();
    handle_queue_input(&vec![k(KeyCode::Char('j'))], Screen::Queue, &mut q, &mut app, &vec![]);
    assert_eq!(q.selected, 1);
    handle_queue_input(&vec![k(KeyCode::Char('k'))], Screen::Queue, &mut q, &mut app, &vec![]);
    assert_eq!(q.selected, 0);
}

#[test]
fn test_home_end_navigation() {
    let mut q = queue_with(10);
    q.selected = 5;
    let mut app = AppState::new();
    handle_queue_input(&vec![k(KeyCode::End)], Screen::Queue, &mut q, &mut app, &vec![]);
    assert_eq!(q.selected, 9);
    handle_queue_input(&vec![k(KeyCode::Home)], Screen::Queue, &mut q, &mut app, &vec![]);
    assert_eq!(q.selected, 0);
}

#[test]
fn test_cancel_job_event() {
    let mut q = queue_with(1);
    let mut app = AppState::new();
    let jobs = vec![Job::new("job-001".to_string(), "test prompt".to_string(), 0)];
    let cancels =
        handle_queue_input(&vec![k(KeyCode::Char('c'))], Screen::Queue, &mut q, &mut app, &jobs);
    assert_eq!(cancels.len(), 1);
    assert_eq!(cancels[0].job_id, "job-001");
}

#[test]
fn test_no_cancel_for_completed_job() {
    let mut q = queue_with(1);
    let mut app = AppState::new();
    let mut job = Job::new("job-001".to_string(), "test prompt".to_string(), 0);
    job.status = JobStatus::Complete { image_path: "/test.png".to_string(), duration_ms: 3500 };
    let cancels = handle_queue_input(
        &vec![k(KeyCode::Char('c'))],
        Screen::Queue,
        &mut q,
        &mut app,
        &vec![job],
    );
    assert_eq!(cancels.len(), 0);
}

#[test]
fn test_no_input_on_other_screens() {
    let mut q = queue_with(5);
    let mut app = AppState::new();
    handle_queue_input(&vec![k(KeyCode::Down)], Screen::Generation, &mut q, &mut app, &vec![]);
    assert_eq!(q.selected, 0);
}

#[test]
fn cancel_follows_submission_order() {
    let mut q = queue_with(3);
    q.selected = 1;
    let mut app = AppState::new();
    let jobs = vec![
        Job::new("late".to_string(), "p".to_string(), 30),
        Job::new("early".to_string(), "p".to_string(), 10),
        Job::new("middle".to_string(), "p".to_string(), 20),
    ];
    assert_eq!(queue_order(&jobs), vec![1, 2, 0]);
    let cancels =
        handle_queue_input(&vec![k(KeyCode::Char('C'))], Screen::Queue, &mut q, &mut app, &jobs);
    assert_eq!(cancels[0].job_id, "middle");
}

#[test]
fn stable_order_keeps_ties_in_place() {
    assert_eq!(stable_order(&vec![5, 1, 5, 0, 1]), vec![3, 1, 4, 0, 2]);
    assert_eq!(stable_order(&vec![]), Vec::<usize>::new());
}

fn gallery_of(n: usize) -> GalleryState {
    let mut g = GalleryState::new();
    for i in 0..n {
        g.add_image(format!("/test/img{}.png", i));
    }
    g
}

#[test]
fn test_gallery_navigation_events() {
    let g = gallery_of(2);
    let events = handle_gallery_input(&vec![k(KeyCode::Down)], Screen::Gallery, &g);
    assert_eq!(events, vec![GalleryEvent::SelectNextImage]);
}

#[test]
fn test_delete_event() {
    let mut g = GalleryState::new();
    g.add_image("/test/img1.png".to_string());
    let events = handle_gallery_input(&vec![k(KeyCode::Char('d'))], Screen::Gallery, &g);
    assert_eq!(events.len(), 1);
    assert_eq!(events[0], GalleryEvent::DeleteImage { image_path: "/test/img1.png".to_string() });
}

#[test]
fn test_no_events_on_other_screens() {
    let g = gallery_of(2);
    let events = handle_gallery_input(&vec![k(KeyCode::Down)], Screen::Generation, &g);
    assert!(events.is_empty());
}

#[test]
fn test_page_navigation() {
    let g = gallery_of(20);
    let events = handle_gallery_input(&vec![k(KeyCode::PageDown)], Screen::Gallery, &g);
    assert_eq!(events.iter().filter(|e| **e == GalleryEvent::SelectNextImage).count(), 5);
}

#[test]
fn gallery_home_and_end_move_to_the_ends() {
    let mut g = gallery_of(10);
    g.selected = 3;
    let home = handle_gallery_input(&vec![k(KeyCode::Home)], Screen::Gallery, &g);
    assert_eq!(home, vec![GalleryEvent::SelectPreviousImage; 3]);
    let end = handle_gallery_input(&vec![k(KeyCode::End)], Screen::Gallery, &g);
    assert_eq!(end, vec![GalleryEvent::SelectNextImage; 6]);
    let mut g = gallery_of(3);
    g.select_previous();
    assert_eq!(g.selected, 2);
    g.select_next();
    assert_eq!(g.selected, 0);
}

#[test]
fn test_enter_submits_job() {
    let mut input = InputBuffer::new();
    for c in "test prompt".chars() {
        input.insert(c);
    }
    let mut app = AppState::new();
    let submitted =
        handle_generation_input(&vec![k(KeyCode::Enter)], Screen::Generation, &mut input, &mut app);
    assert_eq!(submitted.len(), 1);
    assert_eq!(submitted[0].prompt, "test prompt");
    assert!(input.is_empty());
}

#[test]
fn test_esc_clears_input() {
    let mut input = InputBuffer::new();
    for c in "test prompt".chars() {
        input.insert(c);
    }
    let mut app = AppState::new();
    handle_generation_input(&vec![k(KeyCode::Esc)], Screen::Generation, &mut input, &mut app);
    assert_eq!(input.text_string(), "");
}

#[test]
fn test_empty_input_does_not_submit() {
    let mut input = InputBuffer::new();
    let mut app = AppState::new();
    let submitted =
        handle_generation_input(&vec![k(KeyCode::Enter)], Screen::Generation, &mut input, &mut app);
    assert!(submitted.is_empty());
}

#[test]
fn text_input_edits_at_the_cursor() {
    let mut input = InputBuffer::new();
    let mut app = AppState::new();
    let mut keys: Vec<KeyEvent> = "hello world".chars().map(|c| k(KeyCode::Char(c))).collect();
    keys.push(k(KeyCode::Home));
    keys.push(k(KeyCode::Delete));
    keys.push(k(KeyCode::Char('J')));
    keys.push(k(KeyCode::End));
    keys.push(KeyEvent::new(KeyCode::Char('w'), KeyModifiers::control()));
    handle_text_input(&keys, Screen::Generation, &mut input, &mut app);
    assert_eq!(input.text_string(), "Jello ");
    assert_eq!(input.cursor(), 6);
    handle_text_input(
        &vec![k(KeyCode::Left), KeyEvent::new(KeyCode::Char('u'), KeyModifiers::control())],
        Screen::Generation,
        &mut input,
        &mut app,
    );
    assert_eq!(input.text_string(), " ");
    assert_eq!(input.cursor(), 0);
    handle_text_input(&vec![k(KeyCode::Char('x'))], Screen::Queue, &mut input, &mut app);
    assert_eq!(input.text_string(), " ");
}

#[test]
fn navigation_keys_choose_screens() {
    let mut screen = Screen::Generation;
    let mut app = AppState::new();
    handle_navigation(&vec![k(KeyCode::Char('4'))], &mut screen, &mut app);
    assert_eq!(screen, Screen::Gallery);
    handle_navigation(&vec![k(KeyCode::Tab), k(KeyCode::Tab)], &mut screen, &mut app);
    assert_eq!(screen, Screen::Monitor);
    handle_navigation(&vec![k(KeyCode::BackTab)], &mut screen, &mut app);
    assert_eq!(screen, Screen::Models);
    handle_navigation(&vec![k(KeyCode::Esc)], &mut screen, &mut app);
    assert_eq!(screen, Screen::Generation);
    app.mark_rendered();
    handle_navigation(&vec![k(KeyCode::Char('z'))], &mut screen, &mut app);
    assert!(!app.needs_redraw);
}

#[test]
fn global_keys_quit_and_switch_tabs() {
    let mut app = AppState::new();
    handle_keyboard_input(&vec![k(KeyCode::Char('q'))], Screen::Generation, &mut app, false);
    assert!(!app.should_quit);
    app.debug_mode = true;
    handle_keyboard_input(&vec![k(KeyCode::Char('t'))], Screen::Queue, &mut app, false);
    assert_eq!(app.preview_tab, 1);
    handle_keyboard_input(
        &vec![KeyEvent::new(KeyCode::Char('t'), KeyModifiers::control())],
        Screen::Queue,
        &mut app,
        true,
    );
    assert_eq!(app.current_preview, Some("outputs/test_sprite.png".to_string()));
    handle_keyboard_input(&vec![k(KeyCode::Char('Q'))], Screen::Queue, &mut app, false);
    assert!(app.should_quit);
}

#[test]
fn test_update_handler() {
    let mut jobs = vec![Job::new("test-123".to_string(), "test prompt".to_string(), 0)];
    let mut app = AppState::new();
    handle_zmq_updates(&vec!["test-123".to_string()], &vec![], &mut jobs, &mut app);
    assert_eq!(jobs[0].status, JobStatus::Queued);
}

#[test]
fn test_progress_update() {
    let mut jobs = vec![Job::new("test-123".to_string(), "test prompt".to_string(), 0)];
    let mut app = AppState::new();
    let update = JobProgressUpdate {
        job_id: "test-123".to_string(),
        stage: GenerationStage::Sampling,
        step: 15,
        total_steps: 30,
        percent: 0.5f32.to_bits(),
        eta_s: 12.0f32.to_bits(),
    };
    handle_zmq_updates(&vec![], &vec![update], &mut jobs, &mut app);
    match &jobs[0].status {
        JobStatus::Generating { stage, progress, eta_s } => {
            assert!(stage.contains("Sampling"));
            assert_eq!(f32::from_bits(*progress), 0.5);
            assert_eq!(f32::from_bits(*eta_s), 12.0);
        }
        _ => panic!("Expected Generating status"),
    }
}

#[test]
fn test_unknown_job_handling() {
    let mut jobs: Vec<Job> = vec![];
    let mut app = AppState::new();
    app.mark_rendered();
    let update = JobProgressUpdate {
        job_id: "unknown-job".to_string(),
        stage: GenerationStage::Sampling,
        step: 10,
        total_steps: 30,
        percent: 0.3f32.to_bits(),
        eta_s: 10.0f32.to_bits(),
    };
    handle_zmq_updates(&vec!["unknown-job".to_string()], &vec![update], &mut jobs, &mut app);
    assert!(jobs.is_empty());
    assert!(!app.needs_redraw);
}

#[test]
fn started_only_moves_pending_jobs() {
    let mut job = Job::new("a".to_string(), "p".to_string(), 0);
    job.status = JobStatus::Cancelled;
    let mut jobs = vec![job];
    let mut app = AppState::new();
    app.mark_rendered();
    handle_zmq_updates(&vec!["a".to_string()], &vec![], &mut jobs, &mut app);
    assert_eq!(jobs[0].status, JobStatus::Cancelled);
    assert!(!app.needs_redraw);
}

#[test]
fn test_response_handler() {
    let mut jobs = vec![Job::new("test-123".to_string(), "test prompt".to_string(), 1_000)];
    let mut gallery = GalleryState::new();
    let mut tracker = JobTracker::new();
    let mut app = AppState::new();
    let events = vec![GenerationComplete {
        job_id: "test-123".to_string(),
        image_path: "/tmp/test.png".to_string(),
    }];
    handle_zmq_responses(&events, &mut jobs, &mut gallery, &mut tracker, &mut app, 4_500);
    assert_eq!(jobs.len(), 1);
    assert_eq!(
        jobs[0].status,
        JobStatus::Complete { image_path: "../outputs/test.png".to_string(), duration_ms: 3_500 }
    );
    assert_eq!(gallery.images, vec!["../outputs/test.png".to_string()]);
    assert_eq!(tracker.total_completed, 1);
    assert_eq!(tracker.active_jobs(), 0);
}

#[test]
fn completion_for_unknown_job_is_ignored() {
    let mut jobs = vec![Job::new("a".to_string(), "p".to_string(), 0)];
    let mut gallery = GalleryState::new();
    let mut tracker = JobTracker::new();
    let mut app = AppState::new();
    let events =
        vec![GenerationComplete { job_id: "b".to_string(), image_path: "x.png".to_string() }];
    handle_zmq_responses(&events, &mut jobs, &mut gallery, &mut tracker, &mut app, 10);
    assert_eq!(jobs[0].status, JobStatus::Pending);
    assert!(gallery.is_empty());
    assert_eq!(tracker.total_completed, 0);
}

#[test]
fn gallery_paths() {
    assert_eq!(gallery_path("/tmp/out/a.png"), "../outputs/a.png");
    assert_eq!(gallery_path("outputs/a.png"), "outputs/a.png");
    assert_eq!(gallery_path("/"), "/");
}

#[test]
fn test_poll_without_zmq_client() {
    assert!(poll_zmq(vec![]).is_empty());
}

#[test]
fn poll_turns_completions_into_events() {
    let responses = vec![
        Response::JobAccepted { job_id: "a".to_string(), estimated_time_s: 1.0f32.to_bits() },
        Response::JobComplete {
            job_id: "a".to_string(),
            image_path: "/o/a.png".to_string(),
            duration_s: 2.0f32.to_bits(),
        },
        Response::Pong,
    ];
    let events = poll_zmq(responses);
    assert_eq!(
        events,
        vec![GenerationComplete { job_id: "a".to_string(), image_path: "/o/a.png".to_string() }]
    );
}

#[test]
fn job_tracker_counts() {
    let mut t = JobTracker::default();
    t.submit_job();
    t.submit_job();
    t.submit_job();
    t.complete_job();
    t.fail_job();
    assert_eq!(t.active_jobs(), 1);
}

#[test]
fn cache_test_cache_creation() {
    let cache = ImageCache::new(10);
    assert_eq!(cache.len(), 0);
    assert!(cache.is_empty());
    assert_eq!(cache.stats().max_size, 10);
}

#[test]
fn cache_test_cache_insert_and_get() {
    let mut cache = ImageCache::new(10);
    cache.insert("test.png".to_string(), 7, 0);
    assert_eq!(cache.len(), 1);
    assert_eq!(cache.get("test.png", 1), Some(7));
}

#[test]
fn test_cache_eviction() {
    let mut cache = ImageCache::new(3);
    for i in 0..4u64 {
        cache.insert(format!("test{}.png", i), i, i);
    }
    assert_eq!(cache.len(), 3);
}

#[test]
fn test_cache_lru_order() {
    let mut cache = ImageCache::new(3);
    cache.insert("test1.png".to_string(), 1, 0);
    cache.insert("test2.png".to_string(), 2, 1);
    cache.insert("test3.png".to_string(), 3, 2);
    cache.get("test1.png", 3);
    cache.insert("test4.png".to_string(), 4, 4);
    assert!(cache.contains("test1.png"));
    assert!(!cache.contains("test2.png"));
    assert!(cache.contains("test3.png"));
    assert!(cache.contains("test4.png"));
}

#[test]
fn cache_test_cache_stats() {
    let cache = ImageCache::new(10);
    let stats = cache.stats();
    assert_eq!(stats.entries, 0);
    assert_eq!(stats.max_size, 10);
}

#[test]
fn cache_drops_old_entries() {
    let mut cache = ImageCache::new(10);
    cache.insert("a.png".to_string(), 1, 0);
    cache.insert("b.png".to_string(), 2, 200_000);
    cache.evict_old(400_000);
    assert!(!cache.contains("a.png"));
    assert!(cache.contains("b.png"));
    cache.clear();
    assert!(cache.is_empty());
}

#[test]
fn typing_then_backspace_restores_the_prompt() {
    let mut input = InputBuffer::new();
    for c in "abc".chars() {
        input.insert(c);
    }
    input.move_left();
    input.insert('x');
    assert_eq!(input.text_string(), "abxc");
    input.backspace();
    assert_eq!(input.text_string(), "abc");
    assert_eq!(input.cursor(), 2);
}

#[test]
fn stage_name_of_generating_jobs() {
    let s = JobStatus::Generating { stage: "Sampling (Step 1/2)".to_string(), progress: 0, eta_s: 0 };
    assert_eq!(s.stage_name(), Some(&"Sampling (Step 1/2)".to_string()));
    assert_eq!(JobStatus::Queued.stage_name(), None);
}
