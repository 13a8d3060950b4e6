use shimmy::prompt::{prepare_vision_prompt, template_for, AnalysisMode, ChatTemplate};

#[test]
fn prompt_of_each_mode_shows_its_shape() {
    let ocr = prepare_vision_prompt("ocr", 640, 480, "minicpm-v");
    assert!(ocr.contains("{\"text_blocks\": [{\"text\": \"extracted text here\", \"confidence\": 0.95}]}"));
    let layout = prepare_vision_prompt("layout", 640, 480, "minicpm-v");
    assert!(layout.contains("{\"layout\": {\"regions\": [{\"name\": \"region_name\", \"description\": \"description\"}], \"key_ui_elements\": [{\"name\": \"element_name\", \"element_type\": \"type\"}]}}"));
    let web = prepare_vision_prompt("web", 640, 480, "minicpm-v");
    assert!(web.contains("{\"dom_map\": [{\"tag\": \"div\", \"text\": \"content\"}], \"interaction\": {\"description\": \"interactive elements\"}}"));
    let brief = prepare_vision_prompt("brief", 640, 480, "minicpm-v");
    assert!(brief.contains("{\"visual\": {\"description\": \"brief description of what you see\"}}"));
}

#[test]
fn unknown_mode_is_full_mode() {
    let full = prepare_vision_prompt("full", 100, 50, "m");
    assert_eq!(prepare_vision_prompt("everything", 100, 50, "m"), full);
    assert_eq!(prepare_vision_prompt("", 100, 50, "m"), full);
    assert_eq!(prepare_vision_prompt("OCR", 100, 50, "m"), full);
    assert!(full.contains("Return JSON with ALL fields"));
    assert_ne!(prepare_vision_prompt("ocr", 100, 50, "m"), full);
}

#[test]
fn whole_prompt_for_a_chat_model() {
    let p = prepare_vision_prompt("brief", 640, 480, "minicpm-v:latest");
    assert_eq!(
        p,
        "<|im_start|>user\nYou are an AI vision assistant. Analyze the provided image (dimensions: 640x480 pixels) and respond ONLY with a valid JSON object. Do not include any explanatory text before or after the JSON.\n\nProvide a brief visual description. Return JSON: {\"visual\": {\"description\": \"brief description of what you see\"}}<|im_end|>\n<|im_start|>assistant\n"
    );
}

#[test]
fn whole_prompt_for_an_instruction_model() {
    let p = prepare_vision_prompt("ocr", 1, 2, "LLaVA-13b");
    assert_eq!(
        p,
        "<s>[INST] You are an AI vision assistant. Analyze the provided image (dimensions: 1x2 pixels) and respond ONLY with a valid JSON object. Do not include any explanatory text before or after the JSON.\n\nExtract all visible text from the image. Return JSON: {\"text_blocks\": [{\"text\": \"extracted text here\", \"confidence\": 0.95}]} [/INST]"
    );
}

#[test]
fn families_are_told_by_name() {
    assert_eq!(template_for("llava:latest"), ChatTemplate::InstructionTags);
    assert_eq!(template_for("registry/LLAVA-phi3"), ChatTemplate::InstructionTags);
    assert_eq!(template_for("minicpm-v"), ChatTemplate::ChatRoles);
    assert_eq!(template_for(""), ChatTemplate::ChatRoles);
}

#[test]
fn modes_are_told_by_word() {
    assert_eq!(AnalysisMode::parse("ocr"), AnalysisMode::Ocr);
    assert_eq!(AnalysisMode::parse("layout"), AnalysisMode::Layout);
    assert_eq!(AnalysisMode::parse("brief"), AnalysisMode::Brief);
    assert_eq!(AnalysisMode::parse("web"), AnalysisMode::Web);
    assert_eq!(AnalysisMode::parse("full"), AnalysisMode::Full);
    assert_eq!(AnalysisMode::parse("other"), AnalysisMode::Full);
}

#[test]
fn prompt_never_holds_the_image() {
    let p = prepare_vision_prompt("full", 4000, 3000, "m");
    assert!(p.len() < 1000);
    assert!(p.contains("4000x3000"));
}

#[test]
fn prompt_of_a_mode_names_no_field_of_another_mode() {
    let sizes: Vec<(u32, u32)> = vec![(0, 0), (640, 480), (u32::MAX, 1)];
    let models: Vec<&str> = vec!["llava-1.5", "MiniCPM-V", "", "dom_map"];
    for (w, h) in sizes {
        for model in &models {
            let ocr = prepare_vision_prompt("ocr", w, h, model);
            assert!(!ocr.contains("dom_map"));
            assert!(!ocr.contains("key_ui_elements"));
            let layout = prepare_vision_prompt("layout", w, h, model);
            assert!(!layout.contains("text_blocks"));
            assert!(!layout.contains("dom_map"));
            let web = prepare_vision_prompt("web", w, h, model);
            assert!(!web.contains("text_blocks"));
            assert!(!web.contains("key_ui_elements"));
        }
    }
}
