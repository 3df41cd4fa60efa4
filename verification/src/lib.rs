//! A terminal typing-practice game: each round shows a short random target
//! string, keystrokes are matched against the front of the remaining text,
//! and win/fail counters accumulate over the session.
//!
//! This crate holds the round state machine and input-matching engine.
//! Rendering and terminal input live outside it; the state machine works on
//! plain character data and classified text spans.

mod alphabet;
mod game;
mod rng;
mod span;

pub use alphabet::LETTER_COUNT;
pub use alphabet::is_lowercase_letter;
pub use alphabet::letter_at;
pub use alphabet::spec_letter;
pub use span::SpanType;
pub use span::TextSpan;
pub use game::App;
pub use game::KeyInput;
pub use game::Mode;
pub use game::advance_step;
pub use game::coalesced;
pub use game::complete_step;
pub use game::concat_texts;
pub use game::counters_unchanged;
pub use game::esc_step;
pub use game::fresh_round;
pub use game::is_hit;
pub use game::key_step;
pub use game::lemma_counters_monotonic;
pub use game::lemma_exit_latched;
pub use game::lemma_miss_idempotent;
pub use game::lemma_miss_latched_within_round;
pub use game::lemma_remainder_is_suffix;
pub use game::miss_step;
pub use game::round_unchanged;
pub use game::sat_inc;
