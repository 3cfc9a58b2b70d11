use dgx_pixels_tui::classic::{
    generation_request, App, EventHandler, GenerationOutcome, JobStatus,
};
use dgx_pixels_tui::keys::{is_ctrl_c, key_match, AppEvent, KeyCode, KeyEvent, KeyModifiers};
use dgx_pixels_tui::messages::{GenerationStage, ProgressUpdate, Request, Response};
use dgx_pixels_tui::screen::Screen;

fn key(code: KeyCode) -> AppEvent {
    AppEvent::Key(KeyEvent::from_code(code))
}

#[test]
fn test_key_match() {
    let event = KeyEvent::from_code(KeyCode::Char('q'));
    assert!(key_match(&event, KeyCode::Char('q')));
    assert!(!key_match(&event, KeyCode::Char('w')));
}

#[test]
fn test_ctrl_c() {
    let event = KeyEvent::new(KeyCode::Char('c'), KeyModifiers::control());
    assert!(is_ctrl_c(&event));
    let event = KeyEvent::from_code(KeyCode::Char('c'));
    assert!(!is_ctrl_c(&event));
}

#[test]
fn test_quit_on_q() {
    let mut app = App::new();
    EventHandler::handle(&mut app, key(KeyCode::Char('q')));
    assert!(app.should_quit);
}

#[test]
fn test_quit_on_ctrl_c() {
    let mut app = App::new();
    let event = AppEvent::Key(KeyEvent::new(KeyCode::Char('c'), KeyModifiers::control()));
    EventHandler::handle(&mut app, event);
    assert!(app.should_quit);
}

#[test]
fn test_navigate_back() {
    let mut app = App::new();
    EventHandler::handle(&mut app, key(KeyCode::Char('2')));
    EventHandler::handle(&mut app, key(KeyCode::Esc));
    assert_eq!(app.current_screen, Screen::Generation);
}

#[test]
fn test_help_screen() {
    let mut app = App::new();
    EventHandler::handle(&mut app, key(KeyCode::Char('?')));
    assert_eq!(app.current_screen, Screen::Help);
}

#[test]
fn digits_navigate_off_the_prompt_screens() {
    let mut app = App::new();
    app.navigate_to(Screen::Queue);
    EventHandler::handle(&mut app, key(KeyCode::Char('3')));
    assert_eq!(app.current_screen, Screen::Gallery);
    EventHandler::handle(&mut app, key(KeyCode::Char('6')));
    assert_eq!(app.current_screen, Screen::Settings);
    EventHandler::handle(&mut app, key(KeyCode::Esc));
    assert_eq!(app.current_screen, Screen::Gallery);
    EventHandler::handle(&mut app, key(KeyCode::Esc));
    assert_eq!(app.current_screen, Screen::Queue);
}

#[test]
fn global_keys_act_even_while_typing() {
    let mut app = App::new();
    EventHandler::handle(&mut app, key(KeyCode::Char('h')));
    assert_eq!(app.current_screen, Screen::Help);
    assert_eq!(app.input.text_string(), "");
}

#[test]
fn digits_are_typed_on_the_prompt_screen() {
    let mut app = App::new();
    EventHandler::handle(&mut app, key(KeyCode::Char('2')));
    assert_eq!(app.current_screen, Screen::Generation);
    assert_eq!(app.input.text_string(), "2");
    EventHandler::handle(&mut app, key(KeyCode::Backspace));
    assert_eq!(app.input.text_string(), "");
}

#[test]
fn enter_with_blank_prompt_sends_nothing() {
    let mut app = App::new();
    app.backend_connected = true;
    EventHandler::handle(&mut app, key(KeyCode::Char(' ')));
    let out = EventHandler::handle(&mut app, key(KeyCode::Enter));
    assert_eq!(out, Some(GenerationOutcome::EmptyPrompt));
    assert!(app.jobs.is_empty());
}

#[test]
fn enter_without_backend_sends_nothing() {
    let mut app = App::new();
    for c in "pixel sprite".chars() {
        EventHandler::handle(&mut app, key(KeyCode::Char(c)));
    }
    let out = EventHandler::handle(&mut app, key(KeyCode::Enter));
    assert_eq!(out, Some(GenerationOutcome::NotConnected));
}

#[test]
fn enter_prepares_a_request_with_trimmed_prompt() {
    let mut app = App::new();
    app.backend_connected = true;
    for c in "  pixel sprite ".chars() {
        EventHandler::handle(&mut app, key(KeyCode::Char(c)));
    }
    let out = EventHandler::handle(&mut app, key(KeyCode::Enter)).unwrap();
    match out {
        GenerationOutcome::Ready { job_id, prompt } => {
            assert!(job_id.starts_with("job-"));
            assert!(job_id[4..].chars().all(|c| c.is_ascii_digit()));
            assert_eq!(prompt, "pixel sprite");
            let req = generation_request(&job_id, &prompt);
            match req {
                Request::Generate { id, prompt: p, model, lora, size, steps, cfg_scale } => {
                    assert_eq!(id, job_id);
                    assert_eq!(p, "pixel sprite");
                    assert_eq!(model, "sd_xl_base_1.0");
                    assert_eq!(lora, None);
                    assert_eq!(size, (1024, 1024));
                    assert_eq!(steps, 30);
                    assert_eq!(f32::from_bits(cfg_scale), 7.5);
                }
                _ => panic!("expected a generate request"),
            }
            app.confirm_generation(job_id.clone(), prompt);
            assert_eq!(app.jobs.len(), 1);
            assert_eq!(app.jobs[0].status, JobStatus::Queued);
            assert_eq!(app.input.text_string(), "");
        }
        other => panic!("unexpected outcome {:?}", other),
    }
}

#[test]
fn responses_and_updates_change_jobs() {
    let mut app = App::new();
    app.add_job("job-1".to_string(), "knight".to_string());
    app.apply_update(ProgressUpdate::Progress {
        job_id: "job-1".to_string(),
        stage: GenerationStage::Sampling,
        step: 15,
        total_steps: 30,
        percent: 50.0f32.to_bits(),
        eta_s: 2.0f32.to_bits(),
    });
    match &app.jobs[0].status {
        JobStatus::Running { stage, percent, .. } => {
            assert_eq!(stage, "Sampling");
            assert_eq!(f32::from_bits(*percent), 50.0);
        }
        other => panic!("unexpected status {:?}", other),
    }
    app.apply_response(Response::JobComplete {
        job_id: "job-1".to_string(),
        image_path: "/out/a.png".to_string(),
        duration_s: 3.0f32.to_bits(),
    });
    assert_eq!(app.gallery, vec!["/out/a.png".to_string()]);
    assert_eq!(app.current_preview, Some("/out/a.png".to_string()));
    assert_eq!(
        app.jobs[0].status,
        JobStatus::Complete { image_path: "/out/a.png".to_string(), duration_s: 3.0f32.to_bits() }
    );
    app.apply_response(Response::Pong);
    assert_eq!(app.gallery.len(), 1);
}

#[test]
fn unknown_job_update_changes_no_job() {
    let mut app = App::new();
    app.add_job("job-1".to_string(), "knight".to_string());
    app.update_job_status("job-9", JobStatus::Failed { error: "x".to_string() });
    assert_eq!(app.jobs[0].status, JobStatus::Queued);
}

#[test]
fn gallery_selection_wraps() {
    let mut app = App::new();
    app.add_to_gallery("a.png".to_string());
    app.add_to_gallery("b.png".to_string());
    app.add_to_gallery("c.png".to_string());
    app.navigate_to(Screen::Gallery);
    EventHandler::handle(&mut app, key(KeyCode::Left));
    assert_eq!(app.selected_gallery, 2);
    EventHandler::handle(&mut app, key(KeyCode::Right));
    assert_eq!(app.selected_gallery, 0);
    EventHandler::handle(&mut app, key(KeyCode::Right));
    assert_eq!(app.selected_gallery, 1);
}

#[test]
fn backend_log_keeps_last_lines() {
    let mut app = App::new();
    for i in 0..510 {
        app.push_backend_log(format!("line {}", i));
    }
    assert_eq!(app.backend_logs.len(), 500);
    assert_eq!(app.backend_logs[0], "line 10");
    assert_eq!(app.backend_logs[499], "line 509");
}

#[test]
fn resize_asks_for_redraw() {
    let mut app = App::new();
    app.mark_rendered();
    assert!(!app.needs_redraw);
    let out = EventHandler::handle(&mut app, AppEvent::Resize(80, 24));
    assert!(out.is_none());
    assert!(app.needs_redraw);
}
