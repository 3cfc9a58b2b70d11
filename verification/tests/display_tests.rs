use dgx_pixels_tui::models_table::{active_text, models_summary, status_text, ModelStatus};
use dgx_pixels_tui::comparison_input::{
    comparison_command, ComparisonCommand, ComparisonFlags, ComparisonMode,
};
use dgx_pixels_tui::sixel::{resize_bounds, sixel_stub, RenderOptions};
use dgx_pixels_tui::display::{active_jobs, log_level, recent_names, visible_log_start, LogLevel,
    
    byte_prefix, elapsed_text, first_active_job, job_row, main_preview, render_image_placeholder,
    shorten, status_label, thumbnail_lines, thumbnail_window, AssetState, MainPreview,
};
use dgx_pixels_tui::terminal_text::{clear_sixel_area_text, render_sixel_to_area_text, CLEAR_ALL_SIXEL};
use dgx_pixels_tui::gallery_scan::{
    missing_previews, is_image_extension, is_image_path, preview_to_load, register_found_images, GalleryScanState,
};
use dgx_pixels_tui::keys::{KeyCode, KeyEvent, KeyModifiers};
use dgx_pixels_tui::layout::{centered_rect, top_and_rest, two_columns, Area};
use dgx_pixels_tui::models_input::{models_commands, ModelsCommand};
use dgx_pixels_tui::render::{
    brightness_to_ascii, brightness_to_block, image_lines, sample_pixel_brightness,
};
use dgx_pixels_tui::state::{GalleryState, Job, JobStatus};

fn gallery_of(n: usize) -> GalleryState {
    let mut g = GalleryState::new();
    for i in 0..n {
        g.add_image(format!("/test/img{}.png", i));
    }
    g
}

#[test]
fn test_empty_gallery_render() {
    let gallery = GalleryState::new();
    assert!(gallery.is_empty());
}

#[test]
fn test_gallery_with_images() {
    let g = gallery_of(2);
    assert_eq!(g.len(), 2);
    assert!(!g.is_empty());
    assert_eq!(g.selected, 0);
}

#[test]
fn test_thumbnail_window_calculation() {
    let (start, end) = thumbnail_window(10, 20);
    assert_eq!(start, 5);
    assert_eq!(end, 15);
    assert_eq!(end - start, 10);
}

#[test]
fn test_thumbnail_window_at_start() {
    assert_eq!(thumbnail_window(0, 20), (0, 5));
}

#[test]
fn test_thumbnail_window_at_end() {
    assert_eq!(thumbnail_window(19, 20), (14, 20));
}

#[test]
fn thumbnail_lines_mark_selection_and_shorten() {
    let mut g = gallery_of(3);
    g.selected = 1;
    let lines = thumbnail_lines(&g, 40);
    assert_eq!(lines.len(), 3);
    assert_eq!(lines[0].text, "  img0.png");
    assert!(lines[1].selected);
    assert_eq!(lines[1].text, "> img1.png");
    let narrow = thumbnail_lines(&g, 9);
    assert_eq!(narrow[0].text, "  img...");
}

#[test]
fn test_brightness_to_ascii() {
    assert_eq!(brightness_to_ascii(0), ' ');
    assert_eq!(brightness_to_ascii(255), '@');
    assert_eq!(brightness_to_ascii(127), '+');
}

#[test]
fn test_brightness_to_block() {
    assert_eq!(brightness_to_block(0), ' ');
    assert_eq!(brightness_to_block(255), '\u{2588}');
}

#[test]
fn test_sample_pixel_brightness() {
    let white = [255u8, 255, 255, 255];
    assert_eq!(sample_pixel_brightness(&white, 0, 0, 1), 255);
    let black = [0u8, 0, 0, 255];
    assert_eq!(sample_pixel_brightness(&black, 0, 0, 1), 0);
    assert_eq!(sample_pixel_brightness(&white, 5, 5, 1), 0);
}

#[test]
fn image_lines_sample_each_cell() {
    let data = vec![255u8, 255, 255, 255, 0, 0, 0, 255];
    let lines = image_lines(&data, 2, &vec![0, 1, 0], &vec![0], false);
    assert_eq!(lines, vec!["@ @".to_string()]);
    let blocks = image_lines(&data, 2, &vec![1, 0], &vec![0, 0], true);
    assert_eq!(blocks, vec![" \u{2588}".to_string(), " \u{2588}".to_string()]);
}

#[test]
fn placeholder_lines() {
    let lines = render_image_placeholder("/a/b/pic.png", Some("boom"));
    assert_eq!(lines, vec!["", "[Image Preview]", "", "pic.png", "", "Error: boom"]);
    let loading = render_image_placeholder("/", None);
    assert_eq!(loading[3], "unknown");
    assert_eq!(loading[5], "Loading...");
}

#[test]
fn texts_are_shortened_by_bytes() {
    assert_eq!(shorten("short", 50, 47), "short");
    let long = "x".repeat(60);
    assert_eq!(shorten(&long, 50, 47), format!("{}...", "x".repeat(47)));
    assert_eq!(byte_prefix("job-1234567890", 8), "job-1234");
    assert_eq!(byte_prefix("job-1", 8), "job-1");
}

#[test]
fn ages_are_written_in_units() {
    assert_eq!(elapsed_text(0), "0s ago");
    assert_eq!(elapsed_text(59), "59s ago");
    assert_eq!(elapsed_text(61), "1m ago");
    assert_eq!(elapsed_text(7200), "2h ago");
}

#[test]
fn job_rows_and_labels() {
    let mut job = Job::new("job-1700000000000".to_string(), "a knight".to_string(), 1_000);
    let row = job_row(&job, 121_000);
    assert_eq!(row.icon, "⏳");
    assert_eq!(row.id, "job-1700");
    assert_eq!(row.prompt, "a knight");
    assert_eq!(row.status, Some("Pending".to_string()));
    assert_eq!(row.elapsed, "2m ago");
    job.status = JobStatus::Failed { error: "CUDA out of memory error".to_string() };
    assert_eq!(status_label(&job.status), Some("CUDA out of memor...".to_string()));
    job.status = JobStatus::Generating { stage: "Sampling".to_string(), progress: 0, eta_s: 0 };
    assert_eq!(status_label(&job.status), None);
}

#[test]
fn first_active_job_skips_finished() {
    let mut a = Job::new("a".to_string(), "p".to_string(), 0);
    a.status = JobStatus::Cancelled;
    let mut b = Job::new("b".to_string(), "p".to_string(), 0);
    b.status = JobStatus::Queued;
    assert_eq!(first_active_job(&vec![a.clone(), b]), Some(1));
    assert_eq!(first_active_job(&vec![a]), None);
}

#[test]
fn main_preview_choices() {
    let g = gallery_of(2);
    assert_eq!(main_preview(&GalleryState::new(), AssetState::Loaded), MainPreview::NoSelection);
    assert_eq!(main_preview(&g, AssetState::Loaded), MainPreview::Image { path: "/test/img0.png".to_string() });
    assert_eq!(
        main_preview(&g, AssetState::NoHandle),
        MainPreview::Placeholder { path: "/test/img0.png".to_string(), error: Some("No asset handle".to_string()) }
    );
    assert_eq!(
        main_preview(&g, AssetState::Loading),
        MainPreview::Placeholder { path: "/test/img0.png".to_string(), error: None }
    );
}

#[test]
fn test_scan_state_default() {
    let s = GalleryScanState::default();
    assert_eq!(s.gallery_dir, "../outputs");
    assert!(s.should_scan(10_000));
}

#[test]
fn test_scan_state_custom_directory() {
    let s = GalleryScanState::default().with_directory("/custom/path".to_string());
    assert_eq!(s.gallery_dir, "/custom/path");
}

#[test]
fn test_scan_state_interval() {
    let mut s = GalleryScanState::default();
    s.mark_scanned(100_000);
    assert!(!s.should_scan(100_100));
    assert!(s.should_scan(102_000));
    assert!(s.should_scan(50));
}

#[test]
fn image_files_by_extension() {
    assert!(is_image_extension("png"));
    assert!(is_image_extension("JPG"));
    assert!(is_image_extension("Jpeg"));
    assert!(is_image_extension("webp"));
    assert!(!is_image_extension("gif"));
    assert!(is_image_path("/out/a.PNG"));
    assert!(!is_image_path("/out/readme"));
    assert!(!is_image_path("/out/notes.txt"));
}

#[test]
fn found_images_join_the_gallery_once() {
    let mut g = GalleryState::new();
    g.add_image("/o/a.png".to_string());
    let found = vec!["/o/a.png".to_string(), "/o/b.png".to_string(), "/o/c.png".to_string(), "/o/b.png".to_string()];
    let previews = vec!["/o/c.png".to_string()];
    let added = register_found_images(&found, &mut g, &previews);
    assert_eq!(added, vec!["/o/b.png".to_string()]);
    assert_eq!(g.images, vec!["/o/a.png".to_string(), "/o/b.png".to_string()]);
}

#[test]
fn completed_jobs_have_previews_to_load() {
    let mut job = Job::new("j".to_string(), "p".to_string(), 0);
    assert_eq!(preview_to_load(&job), None);
    job.status = JobStatus::Complete { image_path: "test_image.png".to_string(), duration_ms: 3 };
    assert_eq!(preview_to_load(&job), Some("test_image.png".to_string()));
}

fn flags(mode: ComparisonMode) -> ComparisonFlags {
    ComparisonFlags {
        browsing_models: false,
        mode,
        has_available_models: true,
        can_run: true,
        is_running: false,
        prompt_empty: false,
        models_len: 2,
    }
}

#[test]
fn comparison_keys() {
    let k = |c| KeyEvent::from_code(c);
    let dual = flags(ComparisonMode::Dual);
    assert_eq!(comparison_command(&dual, &k(KeyCode::Tab)), ComparisonCommand::TogglePane);
    assert_eq!(comparison_command(&dual, &k(KeyCode::Char('m'))), ComparisonCommand::OpenBrowser);
    assert_eq!(comparison_command(&dual, &k(KeyCode::Enter)), ComparisonCommand::StartDual);
    assert_eq!(comparison_command(&dual, &k(KeyCode::Esc)), ComparisonCommand::Nothing);
    let multi = flags(ComparisonMode::Multi);
    assert_eq!(
        comparison_command(&multi, &k(KeyCode::Char('a'))),
        ComparisonCommand::AddModel("model-3".to_string())
    );
    assert_eq!(comparison_command(&multi, &k(KeyCode::Char('c'))), ComparisonCommand::ClearModels);
    let mut browsing = dual;
    browsing.browsing_models = true;
    assert_eq!(comparison_command(&browsing, &k(KeyCode::Esc)), ComparisonCommand::CloseBrowser);
    assert_eq!(comparison_command(&browsing, &k(KeyCode::Tab)), ComparisonCommand::Nothing);
}

#[test]
fn models_keys() {
    assert_eq!(models_commands(&KeyEvent::from_code(KeyCode::Char('j'))), vec![ModelsCommand::Next]);
    assert_eq!(models_commands(&KeyEvent::from_code(KeyCode::PageUp)), vec![ModelsCommand::Previous; 10]);
    assert!(models_commands(&KeyEvent::from_code(KeyCode::Delete)).is_empty());
    assert_eq!(
        models_commands(&KeyEvent::new(KeyCode::Delete, KeyModifiers::shift())),
        vec![ModelsCommand::Delete]
    );
}

#[test]
fn test_centered_rect() {
    let area = Area { x: 0, y: 0, width: 100, height: 100 };
    let c = centered_rect(50, 50, area);
    assert!(c.x > 0 && c.x < 100);
    assert!(c.y > 0 && c.y < 100);
    assert!(c.width > 0 && c.width <= 50);
    assert!(c.height > 0 && c.height <= 50);
}

#[test]
fn test_two_columns() {
    let columns = two_columns(30, Area { x: 0, y: 0, width: 100, height: 50 });
    assert_eq!(columns.len(), 2);
    assert!(columns[0].width >= 29 && columns[0].width <= 31);
    assert!(columns[1].width >= 69 && columns[1].width <= 71);
}

#[test]
fn test_top_and_rest() {
    let split = top_and_rest(10, Area { x: 0, y: 0, width: 100, height: 100 });
    assert_eq!(split.len(), 2);
    assert_eq!(split[0].height, 10);
    assert_eq!(split[1].height, 90);
}

#[test]
fn log_lines_by_level_and_window() {
    assert_eq!(log_level("2024 ERROR boom"), LogLevel::Error);
    assert_eq!(log_level("Warning: low memory"), LogLevel::Warn);
    assert_eq!(log_level("INFO ready"), LogLevel::Info);
    assert_eq!(log_level("plain text"), LogLevel::Plain);
    assert_eq!(visible_log_start(100, 12), 90);
    assert_eq!(visible_log_start(5, 12), 0);
    assert_eq!(visible_log_start(5, 1), 5);
}

#[test]
fn monitor_and_recent_lists() {
    let mut jobs = Vec::new();
    for i in 0..8 {
        let mut j = Job::new(format!("j{}", i), "p".to_string(), 0);
        if i % 4 == 0 {
            j.status = JobStatus::Cancelled;
        }
        jobs.push(j);
    }
    assert_eq!(active_jobs(&jobs), vec![1, 2, 3, 5, 6]);
    let images = vec!["/o/a.png".to_string(), "/o/b.png".to_string(), "/o/c.png".to_string(), "/o/d.png".to_string()];
    assert_eq!(recent_names(&images), vec!["d.png".to_string(), "c.png".to_string(), "b.png".to_string()]);
    assert!(recent_names(&vec![]).is_empty());
}

#[test]
fn sixel_sizes_and_stub() {
    let opts = RenderOptions::default();
    assert_eq!(resize_bounds(100, 100, &opts), None);
    assert_eq!(resize_bounds(1000, 100, &opts), Some((320, 320)));
    assert_eq!(sixel_stub(2, 3), "\x1bP0;1;0q\"1;1;2;3\n#0;2;0;0;0\x1b\\");
}

#[test]
fn sixel_area_texts() {
    let area = Area { x: 1, y: 2, width: 3, height: 2 };
    assert_eq!(
        clear_sixel_area_text(area),
        "\x1b[3;2H   \x1b[4;2H   \x1b[?2J"
    );
    assert_eq!(
        render_sixel_to_area_text(Area { x: 0, y: 0, width: 1, height: 1 }, "DATA"),
        "\x1b[1;1H \x1b[?2J\x1b[1;1HDATA"
    );
    assert_eq!(CLEAR_ALL_SIXEL, "\x1b[?2J\x1b[2J\x1b[H");
}

#[test]
fn previews_missing_for_gallery_images() {
    let images = vec!["/a.png".to_string(), "/b.png".to_string(), "/c.png".to_string()];
    let previews = vec!["/b.png".to_string()];
    assert_eq!(missing_previews(&images, &previews), vec!["/a.png".to_string(), "/c.png".to_string()]);
}

fn default_comparison_flags() -> ComparisonFlags {
    ComparisonFlags {
        browsing_models: false,
        mode: ComparisonMode::Dual,
        has_available_models: false,
        can_run: false,
        is_running: false,
        prompt_empty: true,
        models_len: 0,
    }
}

#[test]
fn test_dual_mode_toggle_pane() {
    let f = default_comparison_flags();
    assert_eq!(comparison_command(&f, &KeyEvent::from_code(KeyCode::Tab)), ComparisonCommand::TogglePane);
}

#[test]
fn test_dual_mode_open_model_browser() {
    let f = default_comparison_flags();
    assert!(!f.browsing_models);
    assert_eq!(comparison_command(&f, &KeyEvent::from_code(KeyCode::Char('m'))), ComparisonCommand::OpenBrowser);
}

#[test]
fn test_dual_mode_reset() {
    let mut f = default_comparison_flags();
    f.is_running = true;
    assert_eq!(comparison_command(&f, &KeyEvent::from_code(KeyCode::Char('r'))), ComparisonCommand::ResetResults);
}

#[test]
fn test_model_browser_navigation() {
    let mut f = default_comparison_flags();
    f.browsing_models = true;
    f.has_available_models = true;
    assert_eq!(comparison_command(&f, &KeyEvent::from_code(KeyCode::Down)), ComparisonCommand::NextAvailable);
}

#[test]
fn test_model_browser_select() {
    let mut f = default_comparison_flags();
    f.browsing_models = true;
    f.has_available_models = true;
    assert_eq!(comparison_command(&f, &KeyEvent::from_code(KeyCode::Enter)), ComparisonCommand::SelectCurrent);
}

#[test]
fn test_render_sixel_to_area_returns_ok() {
    let area = Area { x: 0, y: 0, width: 10, height: 10 };
    let text = render_sixel_to_area_text(area, "test");
    assert!(text.ends_with("test"));
}

#[test]
fn models_table_texts() {
    assert_eq!(status_text(ModelStatus::Downloaded), "\u{2705}");
    assert_eq!(status_text(ModelStatus::Available), "\u{23f3}");
    assert_eq!(status_text(ModelStatus::Downloading(42)), "\u{1f4ca} 42%");
    assert_eq!(status_text(ModelStatus::Failed), "\u{274c}");
    assert_eq!(active_text(&Some("sdxl".to_string()), "sdxl"), "\u{2713}");
    assert_eq!(active_text(&Some("sdxl".to_string()), "other"), "");
    assert_eq!(active_text(&None, "sdxl"), "");
    let statuses = vec![ModelStatus::Downloaded, ModelStatus::Available, ModelStatus::Downloaded];
    assert_eq!(models_summary(&statuses), "2/3 | ");
}

#[test]
fn layouts_are_exact() {
    let area = Area { x: 2, y: 3, width: 33, height: 7 };
    let cols = two_columns(30, area);
    assert_eq!(cols[0], Area { x: 2, y: 3, width: 10, height: 7 });
    assert_eq!(cols[1], Area { x: 12, y: 3, width: 23, height: 7 });
    let rows = top_and_rest(10, area);
    assert_eq!(rows[0], Area { x: 2, y: 3, width: 33, height: 7 });
    assert_eq!(rows[1].height, 0);
    let c = centered_rect(50, 50, Area { x: 0, y: 0, width: 100, height: 100 });
    assert_eq!(c, Area { x: 25, y: 25, width: 50, height: 50 });
}

#[test]
fn layouts_follow_rounded_shares() {
    let share = |p: u32, len: u32| (p * len + 50) / 100;
    for w in [0u16, 1, 7, 33, 59, 80, 101, 250] {
        for p in [0u16, 1, 13, 30, 33, 50, 51, 67, 99, 100] {
            let area = Area { x: 4, y: 1, width: w, height: 9 };
            let cols = two_columns(p, area);
            let left = share(p as u32, w as u32) as u16;
            assert_eq!(cols[0], Area { x: 4, y: 1, width: left, height: 9 });
            assert_eq!(cols[1], Area { x: 4 + left, y: 1, width: w - left, height: 9 });
            let c = centered_rect(p, p, Area { x: 3, y: 5, width: w, height: w });
            let m = ((100 - p) / 2) as u32;
            let off = share(m, w as u32);
            let len = share(m + p as u32, w as u32) - off;
            assert_eq!(c, Area { x: 3 + off as u16, y: 5 + off as u16, width: len as u16, height: len as u16 });
        }
        for t in [0u16, 1, 5, 40, 300] {
            let rows = top_and_rest(t, Area { x: 0, y: 2, width: 8, height: w });
            let top = t.min(w);
            assert_eq!(rows[0], Area { x: 0, y: 2, width: 8, height: top });
            assert_eq!(rows[1], Area { x: 0, y: 2 + top, width: 8, height: w - top });
        }
    }
}
