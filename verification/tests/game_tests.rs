use modbus_bench::game::{judge_guess, GuessReply};

#[test]
fn guesses_are_compared_with_the_secret() {
    assert_eq!(judge_guess("10\n", 42), GuessReply::TooSmall);
    assert_eq!(judge_guess("  99 ", 42), GuessReply::TooBig);
    assert_eq!(judge_guess("42\n", 42), GuessReply::Win);
    assert_eq!(judge_guess("+42", 42), GuessReply::Win);
    assert_eq!(judge_guess("0", 0), GuessReply::Win);
    assert_eq!(judge_guess("4294967295", 100), GuessReply::TooBig);
}

#[test]
fn lines_that_are_no_number_ask_again() {
    assert_eq!(judge_guess("", 42), GuessReply::Retry);
    assert_eq!(judge_guess("forty-two\n", 42), GuessReply::Retry);
    assert_eq!(judge_guess("-1", 42), GuessReply::Retry);
    assert_eq!(judge_guess("4 2", 42), GuessReply::Retry);
    assert_eq!(judge_guess("4294967296", 42), GuessReply::Retry);
}

#[test]
fn typing_the_secret_wins() {
    for secret in [0u32, 7, 42, 100, u32::MAX] {
        assert_eq!(judge_guess(&secret.to_string(), secret), GuessReply::Win);
    }
}
