use screensnap::capture::{settle_full_capture, ScreenshotManager};
use screensnap::cell::StateCell;
use screensnap::gui::{ScreenSnapApp, UserAction};
use screensnap::json::extract_response;

#[test]
fn fresh_app_uses_the_default_model() {
    let app = ScreenSnapApp::new();
    assert_eq!(app.model_name, b"llava:latest".to_vec());
    assert!(!app.panel.is_open);
    assert_eq!(app.panel.current_x, 0);
    assert_eq!(app.panel.target_x, 0);
    assert_eq!(app.panel.animation_start_x, 0);
    assert_eq!(app.panel.animation_start_time, None);
    assert_eq!(app.panel.animation_duration_ms, 300);
    assert!(app.window_list.is_empty());
    assert!(app.selected_window.is_none());
    assert!(app.chat_history.is_empty());
}

#[test]
fn capture_command_requests_a_capture() {
    let mut app = ScreenSnapApp::new();
    let mut cell = StateCell::new();
    let action = app.handle_user_input(&mut cell, b"/capture");
    assert!(matches!(action, UserAction::CaptureFullScreen));
}

#[test]
fn commands_match_case_insensitively() {
    let mut app = ScreenSnapApp::new();
    let mut cell = StateCell::new();
    let action = app.handle_user_input(&mut cell, b"/CAPTURE");
    assert!(matches!(action, UserAction::CaptureFullScreen));
}

#[test]
fn model_command_sets_the_model() {
    let mut app = ScreenSnapApp::new();
    let mut cell = StateCell::new();
    let action = app.handle_user_input(&mut cell, b"/model llava:13b");
    assert!(matches!(action, UserAction::Idle));
    assert_eq!(app.model_name, b"llava:13b".to_vec());
    assert_eq!(cell.ai_response, b"Model set to: llava:13b".to_vec());
}

#[test]
fn model_command_without_argument_reports_usage() {
    let mut app = ScreenSnapApp::new();
    let mut cell = StateCell::new();
    let _ = app.handle_user_input(&mut cell, b"/model");
    assert_eq!(
        cell.ai_response,
        b"Current model: llava:latest. Usage: /model <model_name>".to_vec()
    );
}

#[test]
fn window_command_without_argument_reports_usage() {
    let mut app = ScreenSnapApp::new();
    let mut cell = StateCell::new();
    let _ = app.handle_user_input(&mut cell, b"/window");
    assert_eq!(
        cell.ai_response,
        b"Please specify a window name or part of it after /window (e.g., /window firefox)"
            .to_vec()
    );
}

#[test]
fn window_command_hands_out_the_query() {
    let mut app = ScreenSnapApp::new();
    let mut cell = StateCell::new();
    let action = app.handle_user_input(&mut cell, b"/window  FireFox  ");
    match action {
        UserAction::CaptureWindowQuery(q) => assert_eq!(q, b"FireFox".to_vec()),
        _ => panic!("expected a window capture request"),
    }
}

#[test]
fn window_selection_matches_case_insensitively() {
    let mut app = ScreenSnapApp::new();
    let titles = vec![
        b"Terminal".to_vec(),
        b"Mozilla Firefox - news".to_vec(),
        b"Editor".to_vec(),
    ];
    let chosen = app.select_window_for_query(b"firefox", titles.clone());
    assert_eq!(chosen, b"Mozilla Firefox - news".to_vec());
    assert_eq!(app.selected_window, Some(chosen));
    assert_eq!(app.window_list, titles);
}

#[test]
fn unmatched_query_is_used_as_the_title_itself() {
    let mut app = ScreenSnapApp::new();
    let titles = vec![b"Terminal".to_vec()];
    let chosen = app.select_window_for_query(b"nowhere", titles);
    assert_eq!(chosen, b"nowhere".to_vec());
    assert_eq!(app.selected_window, Some(b"nowhere".to_vec()));
}

#[test]
fn refresh_selects_the_first_window_when_none_is_selected() {
    let mut app = ScreenSnapApp::new();
    app.refresh_window_list(vec![b"One".to_vec(), b"Two".to_vec()]);
    assert_eq!(app.selected_window, Some(b"One".to_vec()));
    // A later refresh keeps an existing selection.
    app.refresh_window_list(vec![b"Three".to_vec()]);
    assert_eq!(app.selected_window, Some(b"One".to_vec()));
}

#[test]
fn analyze_command_without_image_reports_the_guard() {
    let mut app = ScreenSnapApp::new();
    let mut cell = StateCell::new();
    let action = app.handle_user_input(&mut cell, b"/analyze");
    assert!(matches!(action, UserAction::Idle));
    assert_eq!(
        cell.ai_response,
        b"Please capture an image first using /capture or /window.".to_vec()
    );
}

#[test]
fn plain_prompt_without_image_reports_the_guard() {
    let mut app = ScreenSnapApp::new();
    let mut cell = StateCell::new();
    let action = app.handle_user_input(&mut cell, b"what is on screen?");
    assert!(matches!(action, UserAction::Idle));
    assert_eq!(
        cell.ai_response,
        b"Please capture an image first before sending a prompt.".to_vec()
    );
}

#[test]
fn plain_prompt_with_image_starts_a_prompt_analysis() {
    let mut app = ScreenSnapApp::new();
    let mut cell = StateCell::new();
    cell.publish_capture(vec![1, 2]);
    let action = app.handle_user_input(&mut cell, b"describe this");
    match action {
        UserAction::Analyze(task) => {
            assert_eq!(task.image, vec![1, 2]);
            assert_eq!(task.prompt, Some(b"describe this".to_vec()));
            assert_eq!(task.model, b"llava:latest".to_vec());
        },
        _ => panic!("expected an analysis"),
    }
    assert!(cell.processing);
    assert_eq!(cell.ai_response, b"Processing with your prompt...".to_vec());
}

#[test]
fn unknown_command_is_echoed_lowercased() {
    let mut app = ScreenSnapApp::new();
    let mut cell = StateCell::new();
    let _ = app.handle_user_input(&mut cell, b"/Frobnicate now");
    assert_eq!(
        cell.ai_response,
        b"Unknown command: /frobnicate. Type /help for available commands.".to_vec()
    );
}

#[test]
fn help_lists_every_command_and_changes_nothing_else() {
    let mut app = ScreenSnapApp::new();
    let mut cell = StateCell::new();
    cell.publish_capture(vec![9]);
    let action = app.handle_user_input(&mut cell, b"/help");
    assert!(matches!(action, UserAction::Idle));
    let text = String::from_utf8(cell.ai_response.clone()).unwrap();
    for cmd in ["/capture", "/window", "/model", "/analyze", "/clear", "/help"] {
        assert!(text.contains(cmd));
    }
    assert_eq!(app.model_name, b"llava:latest".to_vec());
    assert!(app.chat_history.is_empty());
    assert_eq!(cell.image_data, vec![9]);
    assert!(!cell.processing);
}

#[test]
fn clear_drops_transcript_and_image() {
    let mut app = ScreenSnapApp::new();
    let mut cell = StateCell::new();
    cell.publish_capture(vec![1]);
    let _ = app.submit_input(&mut cell, b"hello", 10);
    assert_eq!(app.chat_history.len(), 1);
    cell.set_texture_loaded();
    let _ = app.handle_user_input(&mut cell, b"/clear");
    assert!(app.chat_history.is_empty());
    assert!(cell.image_data.is_empty());
    assert!(!cell.texture_loaded);
    assert_eq!(cell.ai_response, b"Chat history and image cleared.".to_vec());
}

#[test]
fn submitted_lines_are_trimmed_recorded_and_dispatched() {
    let mut app = ScreenSnapApp::new();
    let mut cell = StateCell::new();
    let action = app.submit_input(&mut cell, b"   \n", 5);
    assert!(matches!(action, UserAction::Idle));
    assert!(app.chat_history.is_empty());
    // A submitted command is dispatched, not merely recorded.
    let action = app.submit_input(&mut cell, b" /capture ", 5);
    assert!(matches!(action, UserAction::CaptureFullScreen));
    app.chat_history.clear();
    let _ = app.submit_input(&mut cell, b"  /model llava:7b \n", 6);
    assert_eq!(app.chat_history.len(), 1);
    assert_eq!(app.chat_history[0].text, b"/model llava:7b".to_vec());
    assert!(app.chat_history[0].is_user);
    assert_eq!(app.chat_history[0].timestamp_ms, 6);
    assert_eq!(app.model_name, b"llava:7b".to_vec());
}

#[test]
fn finished_response_moves_into_the_transcript() {
    let mut app = ScreenSnapApp::new();
    let mut cell = StateCell::new();
    cell.ai_response = b"An answer.".to_vec();
    cell.processing = true;
    // Still in flight: nothing is absorbed.
    assert!(!app.absorb_response(&mut cell, 50));
    cell.processing = false;
    assert!(app.absorb_response(&mut cell, 60));
    assert_eq!(app.chat_history.len(), 1);
    assert_eq!(app.chat_history[0].text, b"An answer.".to_vec());
    assert!(!app.chat_history[0].is_user);
    assert_eq!(app.chat_history[0].timestamp_ms, 60);
    assert!(cell.ai_response.is_empty());
    // Absorbing again with the same text does nothing.
    cell.ai_response = b"An answer.".to_vec();
    assert!(!app.absorb_response(&mut cell, 70));
}

#[test]
fn capture_then_analyze_yields_one_assistant_entry() {
    let mut app = ScreenSnapApp::new();
    let mut cell = StateCell::new();

    // The user clicks "Capture Screen": the background task captures a
    // frame, normalizes and encodes it, and publishes the PNG bytes.
    let mut mgr = ScreenshotManager::new().unwrap();
    let bgra = [200u8, 0, 0, 255, 0, 0, 200, 255];
    mgr.store_frame(2, 1, &bgra).unwrap();
    let png = mgr.get_current_image_data().unwrap();
    assert_eq!(&png[..8], &[137u8, 80, 78, 71, 13, 10, 26, 10]);
    assert!(settle_full_capture(&mut cell, Some(png)));

    // The user clicks "Analyze" with the default model.
    let task = app.analyze_image(&mut cell).expect("analysis should start");
    assert_eq!(task.model, b"llava:latest".to_vec());
    assert!(cell.processing);

    // The endpoint answers; the background task publishes the text.
    let reply = br#"{"model":"llava:latest","response":"A blue desktop.","done":true}"#;
    let text = extract_response(reply).expect("well-formed reply");
    cell.analyze_finish(Ok(text), &task.model);

    // The render loop absorbs the finished response.
    assert!(app.absorb_response(&mut cell, 1_000));
    assert_eq!(app.chat_history.len(), 1);
    assert_eq!(app.chat_history[0].text, b"A blue desktop.".to_vec());
    assert!(!app.chat_history[0].is_user);
}
