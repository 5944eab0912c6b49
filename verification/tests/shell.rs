use dots_and_boxes::cli::is_hash;
use dots_and_boxes::cli::make_move_params;
use dots_and_boxes::cli::new_game_params;
use dots_and_boxes::cli::rpc_call_body;
use dots_and_boxes::cli::split_first_word;
use dots_and_boxes::state::digit_to_char;

#[test]
fn split_first_word_takes_command_and_args() {
    assert_eq!(split_first_word("make_move 0 1 Up"), ("make_move", "0 1 Up"));
    assert_eq!(split_first_word("  set_game   QmAbc  "), ("set_game", "QmAbc"));
    assert_eq!(split_first_word("help"), ("help", ""));
    assert_eq!(split_first_word("   "), ("", ""));
    assert_eq!(split_first_word(""), ("", ""));
    assert_eq!(split_first_word("\tmoves\tnow\t"), ("moves", "now"));
}

#[test]
fn is_hash_checks_shape() {
    assert!(is_hash("QmT4AeWE24xPpjkYWoUJuAbuGSGAAwedWKkZrqZF2ZDnM1"));
    assert!(!is_hash("QmT4AeWE24xPpjkYWoUJuAbuGSGAAwedWKkZrqZF2ZDnM1x"));
    assert!(!is_hash("QmT4AeWE24xPpjkYWoUJuAbuGSGAAwedWKkZrqZF2ZDn"));
    assert!(!is_hash("XmT4AeWE24xPpjkYWoUJuAbuGSGAAwedWKkZrqZF2ZDnM1"));
    assert!(!is_hash(""));
}

#[test]
fn rpc_call_body_frames_the_request() {
    let body = rpc_call_body("gameInstance", "main", "valid_moves", "{}");
    assert_eq!(
        body,
        "{\"jsonrpc\":\"2.0\",\"id\":0,\"method\":\"call\",\"params\":\
         {\"instance_id\":\"gameInstance\",\"zome\":\"main\",\
         \"function\":\"valid_moves\",\"params\":{}}}"
    );
}

#[test]
fn rpc_call_body_escapes_names() {
    let body = rpc_call_body("a\"b", "z\\o", "f\nn", "null");
    assert_eq!(
        body,
        "{\"jsonrpc\":\"2.0\",\"id\":0,\"method\":\"call\",\"params\":\
         {\"instance_id\":\"a\\\"b\",\"zome\":\"z\\\\o\",\
         \"function\":\"f\\nn\",\"params\":null}}"
    );
}

#[test]
fn control_characters_get_unicode_escapes() {
    let body = new_game_params("a\u{01}b");
    assert_eq!(body, "{\"opponent\":\"a\\u0001b\",\"timestamp\":0}");
    let tabbed = new_game_params("a\tb");
    assert_eq!(tabbed, "{\"opponent\":\"a\\tb\",\"timestamp\":0}");
}

#[test]
fn make_move_params_carries_game_and_text() {
    let body = make_move_params("QmGame", "0 1 Up");
    assert_eq!(
        body,
        "{\"game_move\":{\"game\":\"QmGame\",\"move_type\":\"0 1 Up\",\"timestamp\":0}}"
    );
}

#[test]
fn digit_to_char_renders_single_digits() {
    assert_eq!(digit_to_char(&0), '0');
    assert_eq!(digit_to_char(&5), '5');
    assert_eq!(digit_to_char(&9), '9');
    assert_eq!(digit_to_char(&10), ' ');
}
