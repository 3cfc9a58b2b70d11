use dgx_pixels_tui::clock::UtcTime;
use dgx_pixels_tui::comparison::{
    ComparisonResult, GenerationParams, ModelConfig, ModelResult, ModelResultStatus,
};
use dgx_pixels_tui::reports::{
    csv_row, escape_csv, generate_training_validation_report, ComparisonExport, ModelExport,
    ReportBuilder,
};

fn create_test_comparison(winner_idx: Option<usize>) -> ComparisonResult {
    ComparisonResult {
        comparison_id: "test-001".to_string(),
        params: GenerationParams {
            prompt: "16-bit knight sprite".to_string(),
            negative_prompt: None,
            seed: 42,
            width: 1024,
            height: 1024,
            steps: 30,
            cfg_scale: 7.5f32.to_bits(),
        },
        results: vec![
            ModelResult {
                model: ModelConfig {
                    name: "Base SDXL".to_string(),
                    base: "sdxl_base.safetensors".to_string(),
                    lora: None,
                    lora_strength: 1.0f32.to_bits(),
                },
                job_id: "job-1".to_string(),
                image_path: Some("/tmp/img1.png".into()),
                duration_s: Some(3.5f32.to_bits()),
                status: ModelResultStatus::Complete,
                error: None,
            },
            ModelResult {
                model: ModelConfig {
                    name: "Pixel Art LoRA".to_string(),
                    base: "sdxl_base.safetensors".to_string(),
                    lora: Some("pixel_art.safetensors".to_string()),
                    lora_strength: 0.8f32.to_bits(),
                },
                job_id: "job-2".to_string(),
                image_path: Some("/tmp/img2.png".into()),
                duration_s: Some(3.8f32.to_bits()),
                status: ModelResultStatus::Complete,
                error: None,
            },
        ],
        user_preference: winner_idx,
        notes: Some("LoRA version has better pixel art style".to_string()),
        completed_at: UtcTime { secs: 1_700_000_000, nanos: 0 },
    }
}

#[test]
fn test_report_builder() {
    let mut builder = ReportBuilder::new();
    builder.add_comparison(create_test_comparison(Some(1)));
    builder.add_comparison(create_test_comparison(Some(1)));
    builder.add_comparison(create_test_comparison(None));
    let report = builder.build();
    assert_eq!(report.comparisons.len(), 3);
    assert_eq!(report.statistics.total_comparisons, 3);
    assert_eq!(report.statistics.comparisons_with_preference, 2);
}

#[test]
fn test_statistics_calculation() {
    let mut builder = ReportBuilder::new();
    builder.add_comparison(create_test_comparison(Some(1)));
    builder.add_comparison(create_test_comparison(Some(1)));
    builder.add_comparison(create_test_comparison(Some(0)));
    let report = builder.build();
    let stats = &report.statistics;
    assert_eq!(stats.comparisons_with_preference, 3);
    assert_eq!(stats.model_wins.len(), 2);
    let pixel_art_wins =
        stats.model_wins.iter().find(|m| m.model_name == "Pixel Art LoRA").unwrap();
    assert_eq!(pixel_art_wins.wins, 2);
    let win_rate =
        (pixel_art_wins.wins as f32 / stats.comparisons_with_preference as f32) * 100.0;
    assert!((win_rate - 66.67).abs() < 0.1);
}

#[test]
fn test_training_validation_report() {
    let comparisons = vec![
        create_test_comparison(Some(1)),
        create_test_comparison(Some(1)),
        create_test_comparison(Some(0)),
    ];
    let validation =
        generate_training_validation_report(&comparisons, "Base SDXL", "Pixel Art LoRA");
    assert_eq!(validation.lora_wins, 2);
    assert_eq!(validation.base_wins, 1);
    let lora_win_rate =
        (validation.lora_wins as f32 / validation.total_comparisons as f32) * 100.0;
    assert!((lora_win_rate - 66.67).abs() < 0.1);
}

#[test]
fn report_keeps_comparison_order_and_times() {
    let mut builder = ReportBuilder::new();
    builder.add_comparisons(vec![create_test_comparison(Some(0)), create_test_comparison(None)]);
    let report = builder.build();
    assert_eq!(report.metadata.version, "1.0.0");
    assert_eq!(report.metadata.total_comparisons, 2);
    assert_eq!(report.comparisons[0].winner, Some("Base SDXL".to_string()));
    assert_eq!(report.comparisons[1].winner, None);
    assert_eq!(report.comparisons[0].seed, 42);
    assert_eq!(report.statistics.generation_times_s.len(), 4);
    assert_eq!(report.statistics.generation_times_s[1], 3.8f32.to_bits());
}

#[test]
fn csv_escaping_doubles_quotes() {
    assert_eq!(escape_csv("plain"), "plain");
    assert_eq!(escape_csv("say \"hi\""), "say \"\"hi\"\"");
    assert_eq!(escape_csv(""), "");
}

#[test]
fn validation_counts_no_preference() {
    let comparisons = vec![create_test_comparison(None), create_test_comparison(Some(1))];
    let v = generate_training_validation_report(&comparisons, "Base SDXL", "Pixel Art LoRA");
    assert_eq!(v.no_preference, 1);
    assert_eq!(v.lora_wins, 1);
    assert_eq!(v.base_wins, 0);
    assert_eq!(v.total_comparisons, 2);
}

#[test]
fn csv_rows_escape_every_quoted_field() {
    let m = ModelExport {
        name: "M".to_string(),
        base_model: "b".to_string(),
        lora: Some("l\"x".to_string()),
        lora_strength: 1.0f32.to_bits(),
        generation_time_s: None,
        image_path: None,
    };
    let c = ComparisonExport {
        comparison_id: "c\"1".to_string(),
        prompt: "p".to_string(),
        seed: 7,
        models: vec![m.clone()],
        winner: Some("M".to_string()),
        notes: Some("x\"y".to_string()),
        completed_at: "t".to_string(),
    };
    let row = csv_row(&c, &m, "1", "0");
    assert_eq!(row, "\"c\"\"1\",\"p\",7,\"M\",\"b\",\"l\"\"x\",1,0,1,\"x\"\"y\",\"t\"");
}

#[test]
fn escaping_reads_back() {
    let s = "a \"quoted\" word";
    let e = escape_csv(s);
    assert_eq!(e.replace("\"\"", "\""), s);
    assert_eq!(e.len(), s.len() + 2);
}

#[test]
fn report_is_stamped() {
    let report = ReportBuilder::new().build();
    assert!(report.metadata.generated_at.len() > 0);
}
