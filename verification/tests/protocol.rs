use tic_tac_toe::protocol::{
    check_agree, check_place_command, check_play_again, check_private_message,
    classify_local_command, decode_place, encode_place, frame_line, trim_line, LocalCommand,
};

#[test]
fn test_decode_place_plain() {
    assert_eq!(decode_place(b"@(1,2)"), Some((1, 2)));
    assert_eq!(decode_place(b"@(12,34)"), Some((12, 34)));
}

#[test]
fn test_decode_place_tolerates_whitespace() {
    assert_eq!(decode_place(b"@ ( 2 , 1 )"), Some((2, 1)));
    assert_eq!(decode_place(b"@(\t3,\t3)"), Some((3, 3)));
    // The newline framing of the wire is tolerated too.
    assert_eq!(decode_place(b"@(1,1)\n"), Some((1, 1)));
    // Anything after the closing parenthesis is ignored.
    assert_eq!(decode_place(b"@(1,1) trailing words"), Some((1, 1)));
}

#[test]
fn test_decode_place_missing_digits() {
    // A group without a single digit does not decode.
    assert_eq!(decode_place(b"@( , 2)"), None);
    assert_eq!(decode_place(b"@(2, )"), None);
    assert_eq!(decode_place(b"@(,)"), None);
}

#[test]
fn test_decode_place_malformed() {
    assert_eq!(decode_place(b"@"), None);
    assert_eq!(decode_place(b"@()"), None);
    assert_eq!(decode_place(b"@(1)"), None);
    assert_eq!(decode_place(b"@(1,2"), None);
    assert_eq!(decode_place(b"@1,2)"), None);
    assert_eq!(decode_place(b"@(a,b)"), None);
    assert_eq!(decode_place(b"(1,2)"), None);
    assert_eq!(decode_place(b""), None);
    assert_eq!(decode_place(b"!hello"), None);
}

#[test]
fn test_decode_place_value_beyond_machine() {
    // Twenty-six digits name a value no machine word holds.
    assert_eq!(decode_place(b"@(11111111111111111111111111,1)"), None);
    assert_eq!(decode_place(b"@(1,11111111111111111111111111)"), None);
}

#[test]
fn test_command_recognition() {
    assert!(check_place_command(b"@(1,2)"));
    assert!(!check_place_command(b"!hi"));
    assert!(!check_place_command(b""));

    assert!(check_private_message(b"!hi"));
    assert!(!check_private_message(b"hi"));

    assert!(check_play_again(b"play-again"));
    assert!(!check_play_again(b"play-again "));
    assert!(!check_play_again(b"agree"));

    assert!(check_agree(b"agree"));
    assert!(!check_agree(b"Agree"));
    assert!(!check_agree(b"play-again"));
}

#[test]
fn test_classify_local_command() {
    assert_eq!(classify_local_command(b"help"), LocalCommand::Help);
    assert_eq!(classify_local_command(b"clear"), LocalCommand::Clear);
    assert_eq!(classify_local_command(b"play-again"), LocalCommand::PlayAgain);
    assert_eq!(classify_local_command(b"agree"), LocalCommand::Agree);
    assert_eq!(classify_local_command(b"quit"), LocalCommand::Quit);
    // The literals are case-sensitive and exact.
    assert_eq!(classify_local_command(b"Help"), LocalCommand::Forward);
    assert_eq!(classify_local_command(b"quit "), LocalCommand::Forward);
    // Anything else goes to the session: placements, messages, chatter.
    assert_eq!(classify_local_command(b"@(1,2)"), LocalCommand::Forward);
    assert_eq!(classify_local_command(b"!hello"), LocalCommand::Forward);
    assert_eq!(classify_local_command(b""), LocalCommand::Forward);
}

#[test]
fn test_trim_line() {
    assert_eq!(trim_line(b"  hello \n"), b"hello");
    assert_eq!(trim_line(b"play-again\n"), b"play-again");
    assert_eq!(trim_line(b"\t\r\n"), b"");
    assert_eq!(trim_line(b""), b"");
    assert_eq!(trim_line(b"a b"), b"a b");
}

#[test]
fn test_encode_place() {
    assert_eq!(encode_place(1, 2), b"@(1,2)\n");
    assert_eq!(encode_place(12, 3), b"@(12,3)\n");
    assert_eq!(encode_place(0, 0), b"@(0,0)\n");
}

#[test]
fn test_encode_decode_round_trip() {
    for (row, col) in [(1, 1), (1, 3), (3, 2), (10, 42), (usize::MAX, 1)] {
        let line = encode_place(row, col);
        assert_eq!(decode_place(&line), Some((row, col)));
    }
}

#[test]
fn test_frame_line() {
    assert_eq!(frame_line(b"@(1,2)"), b"@(1,2)\n");
    assert_eq!(frame_line(b""), b"\n");
}
