//! The number-guessing game's rule: how one line typed by the player is
//! answered against the secret number.

use crate::text::{
    all_digits, dec, lemma_dec_digits, lemma_parse_dec, parse_uint, spec_parse_uint, trim, trim_end,
    trim_start, trimmed,
};
use vstd::prelude::*;

verus! {

/// How a guess is answered.
#[derive(Debug, Clone, Copy, PartialEq, Eq, Structural)]
pub enum GuessReply {
    /// The line is not a number: ask again.
    Retry,
    /// The guess is below the secret.
    TooSmall,
    /// The guess is above the secret.
    TooBig,
    /// The guess is the secret: the game is won.
    Win,
}

/// The answer to the line `line` when the secret is `secret`: the line,
/// without surrounding white space, is read as a `u32`; a line that is no
/// `u32` asks for another try.
pub open spec fn spec_judge(line: Seq<char>, secret: u32) -> GuessReply {
    match spec_parse_uint(trim(line), u32::MAX as nat) {
        None => GuessReply::Retry,
        Some(g) => if g < secret {
            GuessReply::TooSmall
        } else if g > secret {
            GuessReply::TooBig
        } else {
            GuessReply::Win
        },
    }
}

/// Answers one line typed by the player (see `spec_judge`).
pub fn judge_guess(line: &str, secret: u32) -> (r: GuessReply)
    ensures
        r == spec_judge(line@, secret),
{
    let t = trimmed(line);
    match parse_uint(t.as_str(), 0xFFFF_FFFFusize) {
        None => GuessReply::Retry,
        Some(g) => {
            if g < secret as usize {
                GuessReply::TooSmall
            } else if g > secret as usize {
                GuessReply::TooBig
            } else {
                GuessReply::Win
            }
        },
    }
}

/// Once the game is won it is over; every other answer asks for another
/// line.
pub open spec fn game_over(r: GuessReply) -> bool {
    r is Win
}

/// The game ends on a line exactly when that line reads as the secret.
pub proof fn lemma_win_only_on_secret(line: Seq<char>, secret: u32)
    ensures
        game_over(spec_judge(line, secret)) <==> spec_parse_uint(trim(line), u32::MAX as nat)
            == Some(secret as nat),
{
}

/// Typing the secret number in decimal wins the game.
pub proof fn lemma_typing_secret_wins(secret: u32)
    ensures
        spec_judge(dec(secret as nat), secret) == GuessReply::Win,
{
    let d = dec(secret as nat);
    lemma_dec_digits(secret as nat);
    lemma_parse_dec(secret as nat, u32::MAX as nat);
    assert(all_digits(d));
    assert('0' <= d[0] <= '9');
    assert('0' <= d[d.len() - 1] <= '9');
    assert(trim_start(d) == d);
    assert(trim_end(d) == d);
    assert(trim(d) == d);
}

} // verus!
