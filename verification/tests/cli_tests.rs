use base64::Engine;
use screensnap::ai::local_model::{api_error_text, model_missing_text, pull_request_body,
    timeout_text, LocalModel};
use screensnap::cli::{classify_cli_failure, get_ollama_url, interpret_menu_choice,
    interpret_screenshot_choice, parse_usize, resolve_model_name, resolve_window_choice, CliHint,
    MenuChoice};

#[test]
fn url_argument_wins_over_environment() {
    let r = get_ollama_url(Some("http://a:1".to_string()), Some("http://b:2".to_string()));
    assert_eq!(r, "http://a:1");
    let r = get_ollama_url(None, Some("http://b:2".to_string()));
    assert_eq!(r, "http://b:2");
    let r = get_ollama_url(None, None);
    assert_eq!(r, "http://localhost:11434");
}

#[test]
fn model_defaults_to_llava() {
    assert_eq!(resolve_model_name(None), "llava:latest");
    assert_eq!(resolve_model_name(Some("x".to_string())), "x");
}

#[test]
fn failure_hints_follow_the_description() {
    assert_eq!(classify_cli_failure(b"model 'x' not found"), CliHint::PullModel);
    assert_eq!(classify_cli_failure(b"service not available"), CliHint::StartService);
    assert_eq!(classify_cli_failure(b"timeout"), CliHint::Nothing);
    // A missing model takes precedence.
    assert_eq!(
        classify_cli_failure(b"not found and not available"),
        CliHint::PullModel
    );
}

#[test]
fn unsigned_numbers_parse_like_std() {
    assert_eq!(parse_usize(b"0"), Some(0));
    assert_eq!(parse_usize(b"42"), Some(42));
    assert_eq!(parse_usize(b"+7"), Some(7));
    assert_eq!(parse_usize(b""), None);
    assert_eq!(parse_usize(b"+"), None);
    assert_eq!(parse_usize(b"4x"), None);
    assert_eq!(parse_usize(b"-3"), None);
    assert_eq!(parse_usize(b"18446744073709551615"), Some(usize::MAX));
    assert_eq!(parse_usize(b"18446744073709551616"), None);
    assert_eq!(parse_usize(b"99999999999999999999999"), None);
}

#[test]
fn menu_choices_are_numbered() {
    assert_eq!(interpret_menu_choice(b" 1\n"), MenuChoice::CaptureFullScreen);
    assert_eq!(interpret_menu_choice(b"2"), MenuChoice::CaptureWindow);
    assert_eq!(interpret_menu_choice(b"3"), MenuChoice::ListModels);
    assert_eq!(interpret_menu_choice(b"4"), MenuChoice::Exit);
    assert_eq!(interpret_menu_choice(b"5"), MenuChoice::Invalid);
    assert_eq!(interpret_menu_choice(b""), MenuChoice::Invalid);
}

#[test]
fn screenshot_choices_select_analyze_and_save() {
    assert_eq!(interpret_screenshot_choice(b"1\n"), (true, false));
    assert_eq!(interpret_screenshot_choice(b"2"), (false, true));
    assert_eq!(interpret_screenshot_choice(b"3"), (true, true));
    assert_eq!(interpret_screenshot_choice(b"4"), (false, false));
}

#[test]
fn window_choice_by_number_or_name() {
    let windows = vec![b"One".to_vec(), b"Two".to_vec()];
    assert_eq!(resolve_window_choice(b"1", &windows), Some(b"One".to_vec()));
    assert_eq!(resolve_window_choice(b"2", &windows), Some(b"Two".to_vec()));
    assert_eq!(resolve_window_choice(b"3", &windows), None);
    assert_eq!(resolve_window_choice(b"0", &windows), None);
    assert_eq!(
        resolve_window_choice(b"Editor", &windows),
        Some(b"Editor".to_vec())
    );
}

#[test]
fn connector_starts_with_defaults() {
    let m = LocalModel::new("llava:latest", None);
    assert_eq!(m.ollama_url, b"http://localhost:11434".to_vec());
    assert_eq!(m.model_name, b"llava:latest".to_vec());
    let with_host = LocalModel::new("llava:7b", Some("http://other:11434"));
    assert_eq!(with_host.ollama_url, b"http://other:11434".to_vec());
}

#[test]
fn prompts_can_be_set_and_reset() {
    let mut m = LocalModel::new("llava:latest", None);
    let default_prompt = m.prompt.clone();
    m.set_prompt("What text is visible?");
    assert_eq!(m.prompt, b"What text is visible?".to_vec());
    m.reset_prompt();
    assert_eq!(m.prompt, default_prompt);
}

#[test]
fn endpoint_urls_are_joined() {
    let m = LocalModel::new("llava:latest", Some("http://h:1"));
    assert_eq!(m.tags_url(), b"http://h:1/api/tags".to_vec());
    assert_eq!(m.generate_url(), b"http://h:1/api/generate".to_vec());
}

#[test]
fn generation_body_carries_the_base64_image() {
    let mut m = LocalModel::new("llava:latest", None);
    m.set_prompt("say \"hi\"");
    let image = [1u8, 2, 3, 254];
    let body = m.generate_request_body(&image);
    let b64 = base64::engine::general_purpose::STANDARD.encode(image);
    let expected = format!(
        "{{\"model\":\"llava:latest\",\"prompt\":\"say \\\"hi\\\"\",\"images\":[\"{}\"],\"stream\":false}}",
        b64
    );
    assert_eq!(String::from_utf8(body).unwrap(), expected);
}

#[test]
fn pull_body_is_framed() {
    assert_eq!(
        pull_request_body(b"llava:latest"),
        b"{\"name\":\"llava:latest\",\"stream\":true}".to_vec()
    );
}

#[test]
fn availability_follows_the_tag_listing() {
    let m = LocalModel::new("llava:latest", None);
    let tags = br#"{"models":[{"name":"llava:latest","size":1}]}"#;
    assert_eq!(m.model_available(true, tags), Ok(true));
    assert_eq!(m.model_available(true, br#"{"models":[]}"#), Ok(false));
    assert_eq!(m.model_available(false, tags), Ok(false));
    assert!(m.model_available(true, b"junk").is_err());
}

#[test]
fn failure_texts_carry_their_cues() {
    let missing = String::from_utf8(model_missing_text(b"llava:latest")).unwrap();
    assert_eq!(
        missing,
        "Model 'llava:latest' not found. Pull it with: ollama pull llava:latest"
    );
    assert!(String::from_utf8(timeout_text()).unwrap().contains("timed out"));
    assert_eq!(
        String::from_utf8(api_error_text(b"boom")).unwrap(),
        "Ollama API error: boom"
    );
}
