//! The typing challenge that guards the emergency disable: random strings
//! that the user has to echo until the configured time has passed.

use vstd::prelude::*;
use vstd::string::*;
use rand::Rng;
use crate::text::{chars_of, push_char, str_eq, trim, trimmed};

verus! {

/// The mistakes in a row that end the challenge.
pub const MAX_ERRORS: u32 = 3;

/// The characters that challenges are made of: the lower-case letters, then
/// the digits.
pub open spec fn alphabet() -> Seq<char> {
    "abcdefghijklmnopqrstuvwxyz0123456789"@
}

/// A number below `n`, drawn with `rand::thread_rng` and `gen_range` over
/// `0..n`. That call panics on an empty range, so `n` must not be 0. Which
/// number comes is left open.
#[verifier::external_body]
fn random_below(n: usize) -> (r: usize)
    requires
        n > 0,
    ensures
        r < n,
{
    rand::thread_rng().gen_range(0..n)
}

/// Generate a random string of specified length, over the alphabet.
pub fn generate_challenge(length: usize) -> (s: String)
    ensures
        s@.len() == length,
        forall|i: int| 0 <= i < length ==> alphabet().contains(#[trigger] s@[i]),
{
    let letters = chars_of("abcdefghijklmnopqrstuvwxyz0123456789");
    proof {
        reveal_strlit("abcdefghijklmnopqrstuvwxyz0123456789");
    }
    let mut s = String::new();
    let mut i: usize = 0;
    while i < length
        invariant
            i <= length,
            letters@ == alphabet(),
            letters@.len() == 36,
            s@.len() == i,
            forall|j: int| 0 <= j < i ==> alphabet().contains(#[trigger] s@[j]),
        decreases length - i,
    {
        let k = random_below(letters.len());
        push_char(&mut s, letters[k]);
        i += 1;
    }
    s
}

/// A length for the next challenge: 8 to 12 characters.
pub fn challenge_length() -> (n: usize)
    ensures
        8 <= n <= 12,
{
    8 + random_below(5)
}

/// What became of one round.
#[derive(Debug, Clone, Copy, PartialEq, Eq, Structural)]
pub enum Round {
    /// The string was echoed; the count of mistakes starts again.
    Correct,
    /// A mistake, which leaves the challenge running; `errors` mistakes were
    /// made in a row.
    Wrong { errors: u32 },
    /// The user gave up.
    Aborted,
    /// The third mistake in a row: the challenge has failed.
    Failed,
}

/// How a typed line is judged against the challenge, after
/// `consecutive_errors` mistakes in a row. The line counts without the
/// whitespace around it. `ABORT` or `abort` gives up, unless that is the
/// challenge itself.
pub open spec fn judged(consecutive_errors: u32, line: Seq<char>, challenge: Seq<char>) -> Round {
    let typed = trimmed(line);
    if typed == challenge {
        Round::Correct
    } else if typed == "ABORT"@ || typed == "abort"@ {
        Round::Aborted
    } else if consecutive_errors + 1 >= MAX_ERRORS {
        Round::Failed
    } else {
        Round::Wrong { errors: (consecutive_errors + 1) as u32 }
    }
}

/// Judges one typed line.
pub fn judge(consecutive_errors: u32, line: &str, challenge: &str) -> (r: Round)
    ensures
        r == judged(consecutive_errors, line@, challenge@),
{
    let typed = trim(line);
    if str_eq(typed.as_str(), challenge) {
        Round::Correct
    } else if str_eq(typed.as_str(), "ABORT") || str_eq(typed.as_str(), "abort") {
        Round::Aborted
    } else if consecutive_errors >= MAX_ERRORS - 1 {
        Round::Failed
    } else {
        Round::Wrong { errors: consecutive_errors + 1 }
    }
}

/// Where a challenge stands.
#[derive(Debug, Clone, Copy, PartialEq, Eq, Structural)]
pub enum ChallengeState {
    /// Rounds are being played; so many mistakes were made in a row.
    Running { consecutive_errors: u32 },
    /// The time was filled: the challenge is met.
    Completed,
    /// The user gave up or made too many mistakes.
    Lost,
}

/// The challenge at the start of a round: it is met once the time that has
/// passed reaches its duration.
pub open spec fn at_round_start(
    state: ChallengeState,
    elapsed_secs: u64,
    duration_secs: u32,
) -> ChallengeState {
    match state {
        ChallengeState::Running { consecutive_errors } => if elapsed_secs >= duration_secs {
            ChallengeState::Completed
        } else {
            state
        },
        _ => state,
    }
}

/// The challenge after a round.
pub open spec fn after_round(
    state: ChallengeState,
    line: Seq<char>,
    challenge: Seq<char>,
) -> ChallengeState {
    match state {
        ChallengeState::Running { consecutive_errors } => match judged(
            consecutive_errors,
            line,
            challenge,
        ) {
            Round::Correct => ChallengeState::Running { consecutive_errors: 0 },
            Round::Wrong { errors } => ChallengeState::Running { consecutive_errors: errors },
            Round::Aborted => ChallengeState::Lost,
            Round::Failed => ChallengeState::Lost,
        },
        _ => state,
    }
}

impl ChallengeState {
    /// A challenge that is about to begin.
    pub fn start() -> (s: Self)
        ensures
            s == (ChallengeState::Running { consecutive_errors: 0 }),
    {
        ChallengeState::Running { consecutive_errors: 0 }
    }

    /// Looks at the clock before a round.
    pub fn check_time(self, elapsed_secs: u64, duration_secs: u32) -> (s: Self)
        ensures
            s == at_round_start(self, elapsed_secs, duration_secs),
    {
        match self {
            ChallengeState::Running { consecutive_errors } => {
                if elapsed_secs >= duration_secs as u64 {
                    ChallengeState::Completed
                } else {
                    self
                }
            },
            _ => self,
        }
    }

    /// Takes in the line typed in answer to `challenge`.
    pub fn answer(self, line: &str, challenge: &str) -> (s: Self)
        ensures
            s == after_round(self, line@, challenge@),
    {
        match self {
            ChallengeState::Running { consecutive_errors } => match judge(
                consecutive_errors,
                line,
                challenge,
            ) {
                Round::Correct => ChallengeState::Running { consecutive_errors: 0 },
                Round::Wrong { errors } => ChallengeState::Running { consecutive_errors: errors },
                Round::Aborted => ChallengeState::Lost,
                Round::Failed => ChallengeState::Lost,
            },
            _ => self,
        }
    }

    /// Whether the challenge was met.
    pub fn passed(self) -> (r: bool)
        ensures
            r == (self == ChallengeState::Completed),
    {
        match self {
            ChallengeState::Completed => true,
            _ => false,
        }
    }
}

/// A running challenge never holds three mistakes in a row, and three
/// mistakes in a row lose it.
pub proof fn lemma_three_mistakes(state: ChallengeState, line: Seq<char>, challenge: Seq<char>)
    requires
        state matches ChallengeState::Running { consecutive_errors } && consecutive_errors
            < MAX_ERRORS,
    ensures
        after_round(state, line, challenge) matches ChallengeState::Running { consecutive_errors }
            ==> consecutive_errors < MAX_ERRORS,
        state == (ChallengeState::Running { consecutive_errors: 2 }) && trimmed(line) != challenge
            ==> after_round(state, line, challenge) == ChallengeState::Lost,
{
}

/// Whether a typed line confirms `phrase`: it is the phrase, but for the
/// whitespace around it.
pub fn simple_confirm(line: &str, phrase: &str) -> (r: bool)
    ensures
        r == (trimmed(line@) == phrase@),
{
    let typed = trim(line);
    str_eq(typed.as_str(), phrase)
}

} // verus!
