use dgx_pixels_tui::messages::{format_stage, GenerationStage};

#[test]
fn test_format_stage() {
    assert_eq!(format_stage(GenerationStage::Sampling, 15, 30), "Sampling (Step 15/30)");
    assert_eq!(format_stage(GenerationStage::LoadingModels, 0, 0), "Loading Models");
    assert_eq!(format_stage(GenerationStage::Encoding, 0, 0), "Encoding Prompt");
}

#[test]
fn format_stage_other_names() {
    assert_eq!(format_stage(GenerationStage::Initializing, 3, 9), "Initializing");
    assert_eq!(format_stage(GenerationStage::Decoding, 1, 1), "Decoding Image");
    assert_eq!(format_stage(GenerationStage::PostProcessing, 0, 0), "Post-Processing");
    assert_eq!(format_stage(GenerationStage::Sampling, 0, 0), "Sampling (Step 0/0)");
}
