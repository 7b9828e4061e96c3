use carik_bot::miniapp::{AppState, MiniAppManager, ScrambleApp};

#[test]
fn test_scramble_word() {
    let word = "RUST";
    let scrambled = ScrambleApp::scramble_word(word);
    // Scrambled word should have same length
    assert_eq!(scrambled.len(), word.len());
}

#[test]
fn test_detect_game_commands() {
    let manager = MiniAppManager::new();
    let mut state = AppState::default();

    // Test /hint without game - should return "No active game"
    let response = manager.handle("/hint", "user1", &mut state);
    assert!(response.is_some());
    assert!(response.unwrap().contains("No active game"));

    // Test /guess without game
    let response = manager.handle("/guess", "user1", &mut state);
    assert!(response.is_some());
    assert!(response.unwrap().contains("No active game"));

    // Test /quit without game
    let response = manager.handle("/quit", "user1", &mut state);
    assert!(response.is_some());
    assert!(response.unwrap().contains("No active game"));

    // Now test /scramble - starts game
    let response = manager.handle("/scramble", "user1", &mut state);
    assert!(response.is_some());
    assert!(response.unwrap().contains("Scramble"));
}

#[test]
fn test_game_commands_with_active_game() {
    let manager = MiniAppManager::new();
    let mut state = AppState::default();

    // Start game
    let response = manager.handle("/scramble", "user1", &mut state);
    assert!(response.is_some(), "Scramble should return response");
    assert!(state.scramble.is_some(), "Game should be started");

    // Test /hint with game
    let response = manager.handle("/hint", "user1", &mut state);
    assert!(response.is_some());
    assert!(response.unwrap().contains("Hint"));

    // Test correct guess
    let word = state.scramble.as_ref().unwrap().word.clone();
    let guess_cmd = format!("/guess {}", word);
    let response = manager.handle(&guess_cmd, "user1", &mut state);
    assert!(response.is_some());
    assert!(response.unwrap().contains("Correct"));

    // Game should be over
    assert!(state.scramble.is_none());
}

#[test]
fn test_cmd_parsing() {
    // Test that cmd extraction works correctly
    let text1 = "/hint";
    let cmd1 = text1.trim_start_matches('/').split_whitespace().next().unwrap_or("");
    assert_eq!(cmd1, "hint");

    let text2 = "hint";
    let cmd2 = text2.trim_start_matches('/').split_whitespace().next().unwrap_or("");
    assert_eq!(cmd2, "hint");

    let text3 = "/scramble test";
    let cmd3 = text3.trim_start_matches('/').split_whitespace().next().unwrap_or("");
    assert_eq!(cmd3, "scramble");

    let text4 = "guess RUST";
    let cmd4 = text4.trim_start_matches('/').split_whitespace().next().unwrap_or("");
    assert_eq!(cmd4, "guess");
}

#[test]
fn test_mini_app_manager() {
    let manager = MiniAppManager::new();

    // Should not handle random text
    let state = &mut AppState::default();
    let response = manager.handle("hello world", "user1", state);
    assert!(response.is_none());

    // Should handle /scramble
    let response = manager.handle("/scramble", "user1", state);
    assert!(response.is_some());
}

#[test]
fn scramble_word_is_permutation() {
    let word = "TELEGRAM";
    let scrambled = ScrambleApp::scramble_word(word);
    let mut a: Vec<char> = word.chars().collect();
    let mut b: Vec<char> = scrambled.chars().collect();
    a.sort();
    b.sort();
    assert_eq!(a, b);
}

#[test]
fn hint_limit_is_enforced() {
    let manager = MiniAppManager::new();
    let mut state = AppState::default();
    manager.handle("/scramble", "user1", &mut state);
    manager.handle("/hint", "user1", &mut state);
    manager.handle("/hint", "user1", &mut state);
    let response = manager.handle("/hint", "user1", &mut state);
    assert!(response.unwrap().contains("No more hints"));
}

#[test]
fn quitting_ends_the_game() {
    let manager = MiniAppManager::new();
    let mut state = AppState::default();
    manager.handle("/scramble", "user1", &mut state);
    let response = manager.handle("/quit", "user1", &mut state);
    assert!(response.unwrap().contains("Game ended"));
    assert!(state.scramble.is_none());
}

#[test]
fn wrong_guess_counts_attempts() {
    let manager = MiniAppManager::new();
    let mut state = AppState::default();
    manager.handle("/scramble", "user1", &mut state);
    let response = manager.handle("/guess DEFINITELYWRONG", "user1", &mut state);
    let text = response.unwrap();
    assert!(text.contains("Wrong"));
    assert!(text.contains("Attempts: *1*"));
    assert_eq!(state.scramble.as_ref().unwrap().attempts, 1);
}
