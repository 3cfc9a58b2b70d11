use dgx_pixels_tui::comparison::{
    ComparisonManager, ComparisonStatus, GenerationParams, ModelConfig,
};

fn model(name: &str, base: &str, lora: Option<&str>) -> ModelConfig {
    ModelConfig {
        name: name.to_string(),
        base: base.to_string(),
        lora: lora.map(|l| l.to_string()),
        lora_strength: 1.0f32.to_bits(),
    }
}

fn named(name: &str) -> ModelConfig {
    ModelConfig { name: name.to_string(), ..Default::default() }
}

#[test]
fn test_comparison_manager_create() {
    let mut manager = ComparisonManager::new();
    let params = GenerationParams::default();
    let models = vec![
        model("Base SDXL", "sdxl_base.safetensors", None),
        model("Pixel Art LoRA", "sdxl_base.safetensors", Some("pixel_art.safetensors")),
    ];
    let comparison_id = manager.create_comparison(params, models);
    assert!(manager.get_active(&comparison_id).is_some());
}

#[test]
fn test_comparison_job_tracking() {
    let mut manager = ComparisonManager::new();
    let params = GenerationParams::default();
    let models = vec![ModelConfig::default(), ModelConfig::default()];
    let comparison_id = manager.create_comparison(params, models);
    let job_ids = vec!["job-1".to_string(), "job-2".to_string()];
    manager.register_jobs(&comparison_id, job_ids.clone());
    let job = manager.get_active(&comparison_id).unwrap();
    assert_eq!(job.job_ids, job_ids);
    assert_eq!(job.status, ComparisonStatus::Running { completed: 0, total: 2 });
}

#[test]
fn test_comparison_completion() {
    let mut manager = ComparisonManager::new();
    let params = GenerationParams::default();
    let models = vec![ModelConfig::default(), ModelConfig::default()];
    let comparison_id = manager.create_comparison(params, models);
    let job_ids = vec!["job-1".to_string(), "job-2".to_string()];
    manager.register_jobs(&comparison_id, job_ids);
    manager.complete_job("job-1", "/tmp/img1.png".to_string(), 3.5f32.to_bits());
    assert!(manager.get_active(&comparison_id).is_some());
    manager.complete_job("job-2", "/tmp/img2.png".to_string(), 3.8f32.to_bits());
    assert!(manager.get_active(&comparison_id).is_none());
    assert!(manager.get_completed(&comparison_id).is_some());
}

#[test]
fn test_user_preference() {
    let mut manager = ComparisonManager::new();
    let params = GenerationParams::default();
    let models = vec![named("Model A"), named("Model B")];
    let comparison_id = manager.create_comparison(params, models);
    manager.register_jobs(&comparison_id, vec!["job-1".to_string(), "job-2".to_string()]);
    manager.complete_job("job-1", "/tmp/1.png".to_string(), 3.0f32.to_bits());
    manager.complete_job("job-2", "/tmp/2.png".to_string(), 3.0f32.to_bits());
    let success =
        manager.set_preference(&comparison_id, 1, Some("Model B looks better".to_string()));
    assert!(success);
    let result = manager.get_completed(&comparison_id).unwrap();
    assert_eq!(result.user_preference, Some(1));
    assert_eq!(result.winner().unwrap().name, "Model B");
}

#[test]
fn test_statistics() {
    let mut manager = ComparisonManager::new();
    let params = GenerationParams::default();
    let models = vec![named("Model A"), named("Model B")];
    let cmp1 = manager.create_comparison(params.clone(), models.clone());
    manager.register_jobs(&cmp1, vec!["j1".to_string(), "j2".to_string()]);
    manager.complete_job("j1", "/tmp/1.png".to_string(), 3.0f32.to_bits());
    manager.complete_job("j2", "/tmp/2.png".to_string(), 3.0f32.to_bits());
    manager.set_preference(&cmp1, 1, None);
    let cmp2 = manager.create_comparison(params, models);
    manager.register_jobs(&cmp2, vec!["j3".to_string(), "j4".to_string()]);
    manager.complete_job("j3", "/tmp/3.png".to_string(), 3.0f32.to_bits());
    manager.complete_job("j4", "/tmp/4.png".to_string(), 3.0f32.to_bits());
    manager.set_preference(&cmp2, 1, None);
    let stats = manager.get_statistics();
    assert_eq!(stats.total_comparisons, 2);
    assert_eq!(stats.comparisons_with_preference, 2);
    assert_eq!(stats.model_wins.get("Model B"), Some(&2));
}

#[test]
fn comparison_id_has_prefix_and_uuid_shape() {
    let mut manager = ComparisonManager::new();
    let id = manager.create_comparison(GenerationParams::default(), vec![named("A")]);
    assert!(id.starts_with("cmp-"));
    assert_eq!(id.len(), 4 + 36);
    let mut other = ComparisonManager::new();
    let id2 = other.create_comparison(GenerationParams::default(), vec![named("A")]);
    assert_ne!(id, id2);
}

#[test]
fn failed_job_marks_comparison_and_later_completion_is_ignored() {
    let mut manager = ComparisonManager::new();
    let id = manager.create_comparison(GenerationParams::default(), vec![named("A"), named("B")]);
    manager.register_jobs(&id, vec!["a".to_string(), "b".to_string()]);
    manager.fail_job("a", "out of memory".to_string());
    assert_eq!(
        manager.get_active(&id).unwrap().status,
        ComparisonStatus::Failed { reason: "out of memory".to_string() }
    );
    manager.complete_job("b", "/tmp/b.png".to_string(), 1.0f32.to_bits());
    assert!(manager.get_active(&id).is_some());
    assert_eq!(manager.get_all_completed().len(), 0);
}

#[test]
fn preference_out_of_range_is_refused() {
    let mut manager = ComparisonManager::new();
    let id = manager.create_comparison(GenerationParams::default(), vec![named("A"), named("B")]);
    manager.register_jobs(&id, vec!["a".to_string(), "b".to_string()]);
    manager.complete_job("a", "/tmp/a.png".to_string(), 1.0f32.to_bits());
    manager.complete_job("b", "/tmp/b.png".to_string(), 1.0f32.to_bits());
    assert!(!manager.set_preference(&id, 2, None));
    assert_eq!(manager.get_completed(&id).unwrap().user_preference, None);
    assert!(!manager.set_preference("cmp-unknown", 0, None));
}

#[test]
fn a_repeated_completion_counts_once() {
    let mut manager = ComparisonManager::new();
    let models = vec![ModelConfig::default(), ModelConfig::default()];
    let comparison_id = manager.create_comparison(GenerationParams::default(), models);
    manager.register_jobs(&comparison_id, vec!["job-1".to_string(), "job-2".to_string()]);
    manager.complete_job("job-1", "/tmp/img1.png".to_string(), 3.5f32.to_bits());
    manager.complete_job("job-1", "/tmp/img1.png".to_string(), 3.5f32.to_bits());
    let job = manager.get_active(&comparison_id).unwrap();
    assert_eq!(job.status, ComparisonStatus::Running { completed: 1, total: 2 });
    assert!(manager.get_completed(&comparison_id).is_none());
    manager.complete_job("job-2", "/tmp/img2.png".to_string(), 3.8f32.to_bits());
    assert!(manager.get_active(&comparison_id).is_none());
    assert!(manager.get_completed(&comparison_id).is_some());
}
