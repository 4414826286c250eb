use server_128::requested_player_number;

#[test]
fn reads_player_number_from_session_path() {
    assert_eq!(requested_player_number("/game?player=12"), Some(12));
    assert_eq!(
        requested_player_number("/game?ignored=yes&player=128"),
        Some(128)
    );
}

#[test]
fn rejects_missing_or_invalid_player_number() {
    assert_eq!(requested_player_number("/game"), None);
    assert_eq!(requested_player_number("/game?player=0"), None);
    assert_eq!(requested_player_number("/game?player=abc"), None);
    assert_eq!(requested_player_number("/game?player=999999"), None);
}

#[test]
fn first_valid_player_parameter_wins() {
    assert_eq!(requested_player_number("/game?player=abc&player=7"), Some(7));
    assert_eq!(requested_player_number("/game?player=3&player=7"), Some(3));
    assert_eq!(requested_player_number("/game?player=0&player=9"), Some(9));
}

#[test]
fn round_trip_with_trailing_parameters() {
    assert_eq!(requested_player_number("/x?player=65535&mode=fast"), Some(65535));
    assert_eq!(requested_player_number("?player=1"), Some(1));
}

#[test]
fn accepts_plus_sign_and_leading_zeros_like_u16_parsing() {
    assert_eq!(requested_player_number("/game?player=+5"), Some(5));
    assert_eq!(requested_player_number("/game?player=007"), Some(7));
}

#[test]
fn rejects_malformed_values() {
    assert_eq!(requested_player_number("/game?player=65536"), None);
    assert_eq!(requested_player_number("/game?player=-1"), None);
    assert_eq!(requested_player_number("/game?player=+"), None);
    assert_eq!(requested_player_number("/game?player="), None);
    assert_eq!(requested_player_number("/game?player= 5"), None);
    assert_eq!(requested_player_number("/game?player"), None);
    assert_eq!(requested_player_number("/game?Player=5"), None);
    assert_eq!(requested_player_number("/game?xplayer=5"), None);
}

#[test]
fn splits_only_at_first_question_mark_and_equals_sign() {
    assert_eq!(requested_player_number("/game?a=b?player=4"), None);
    assert_eq!(requested_player_number("/game?q?x&player=4"), Some(4));
    assert_eq!(requested_player_number("/game?player=4=4"), None);
    assert_eq!(requested_player_number("/gäme?é=ü&player=42"), Some(42));
}
