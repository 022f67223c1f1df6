use screensnap::cell::StateCell;

#[test]
fn analyze_with_no_image_publishes_capture_first_message() {
    let mut cell = StateCell::new();
    let task = cell.analyze_begin();
    assert!(task.is_none());
    assert_eq!(cell.ai_response, b"Please capture an image first.".to_vec());
    assert!(!cell.processing);
}

#[test]
fn prompt_analyze_with_no_image_publishes_its_own_message() {
    let mut cell = StateCell::new();
    let task = cell.analyze_with_prompt_begin();
    assert!(task.is_none());
    assert_eq!(
        cell.ai_response,
        b"Please capture an image for prompt analysis.".to_vec()
    );
    assert!(!cell.processing);
}

#[test]
fn analyze_with_an_image_goes_in_flight() {
    let mut cell = StateCell::new();
    cell.publish_capture(vec![1, 2, 3]);
    let task = cell.analyze_begin();
    assert_eq!(task, Some(vec![1, 2, 3]));
    assert!(cell.processing);
    assert_eq!(cell.ai_response, b"Processing image...".to_vec());
    // The cell keeps its own copy of the image.
    assert_eq!(cell.image_data, vec![1, 2, 3]);
}

#[test]
fn success_publishes_the_text_exactly() {
    let mut cell = StateCell::new();
    cell.publish_capture(vec![9]);
    let _ = cell.analyze_begin();
    cell.analyze_finish(Ok(b"X".to_vec()), b"llava:latest");
    assert_eq!(cell.ai_response, b"X".to_vec());
    assert!(!cell.processing);
}

#[test]
fn missing_model_failure_suggests_pulling_it() {
    let mut cell = StateCell::new();
    cell.publish_capture(vec![9]);
    let _ = cell.analyze_begin();
    cell.analyze_finish(
        Err(b"Model 'llava:latest' not found. Pull it with: ollama pull llava:latest".to_vec()),
        b"llava:latest",
    );
    let text = String::from_utf8(cell.ai_response.clone()).unwrap();
    assert!(text.starts_with("AI processing failed: "));
    assert!(text.ends_with("\n\nTo fix: ollama pull llava:latest"));
    assert!(!cell.processing);
}

#[test]
fn unreachable_endpoint_failure_suggests_starting_the_service() {
    let mut cell = StateCell::new();
    cell.publish_capture(vec![9]);
    let _ = cell.analyze_begin();
    cell.analyze_finish(
        Err(b"Ollama API error: connection refused (os error 111)".to_vec()),
        b"llava:latest",
    );
    let text = String::from_utf8(cell.ai_response.clone()).unwrap();
    assert!(text.contains("\n\nEnsure Ollama is running: ollama serve"));
    assert!(!cell.processing);
}

#[test]
fn unclassified_failure_gets_no_hint() {
    let mut cell = StateCell::new();
    cell.publish_capture(vec![9]);
    let _ = cell.analyze_begin();
    cell.analyze_finish(Err(b"something odd".to_vec()), b"llava:latest");
    assert_eq!(cell.ai_response, b"AI processing failed: something odd".to_vec());
    assert!(!cell.processing);
}

#[test]
fn setup_failure_text_names_both_questions() {
    let mut cell = StateCell::new();
    cell.processing = true;
    cell.analyze_init_failed(b"no client");
    assert_eq!(
        cell.ai_response,
        b"Failed to init Ollama model: no client\n\nIs Ollama running? Is model pulled?".to_vec()
    );
    assert!(!cell.processing);
}

#[test]
fn clearing_drops_image_response_and_texture() {
    let mut cell = StateCell::new();
    cell.publish_capture(vec![1]);
    cell.set_texture_loaded();
    cell.ai_response = b"old".to_vec();
    cell.clear_image_and_response();
    assert!(cell.image_data.is_empty());
    assert!(cell.ai_response.is_empty());
    assert!(!cell.texture_loaded);
}

#[test]
fn analysis_is_offered_only_when_idle_with_an_image() {
    let mut cell = StateCell::new();
    assert!(!cell.can_offer_analysis());
    cell.publish_capture(vec![1]);
    assert!(cell.can_offer_analysis());
    let _ = cell.analyze_begin();
    assert!(cell.processing);
    assert!(!cell.can_offer_analysis());
    cell.analyze_finish(Ok(b"done".to_vec()), b"llava:latest");
    assert!(cell.can_offer_analysis());
}

#[test]
fn texture_rebuild_is_wanted_only_when_stale() {
    let mut cell = StateCell::new();
    assert!(!cell.needs_texture());
    cell.publish_capture(vec![1]);
    assert!(cell.needs_texture());
    cell.set_texture_loaded();
    assert!(!cell.needs_texture());
    // A fresh capture invalidates the texture again.
    cell.publish_capture(vec![2]);
    assert!(cell.needs_texture());
}
