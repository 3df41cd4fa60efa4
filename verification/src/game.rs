//! The round state machine: the current remainder of the target, the
//! accumulated hit segments, the per-round miss flag and the session
//! counters, together with the single-keystroke transition.

use vstd::prelude::*;
use crate::alphabet::LETTER_COUNT;
use crate::alphabet::is_lowercase_letter;
use crate::alphabet::letter_at;
use crate::rng::random_below;
use crate::span::SpanType;
use crate::span::TextSpan;

verus! {

/// Target-generation mode. Only `Random` (two random lowercase letters) is
/// exercised; the other variants are declared extension points.
#[derive(Debug)]
pub enum Mode {
    Random,
    Chars(u8),
    Words(u8),
}

impl Default for Mode {
    fn default() -> (r: Self)
        ensures
            r is Random,
    {
        Mode::Random
    }
}

/// A keyboard event reduced to the three things the state machine
/// distinguishes: the exit key, a printable character, anything else.
#[derive(Debug, Clone, Copy)]
pub enum KeyInput {
    Esc,
    Char(char),
    Other,
}

/// The whole game state: one session's counters and flags, and the current
/// round's remainder and hit segments. The target the round started with is
/// kept as ghost state so that the invariant can relate the segments to it.
pub struct App {
    pub mode: Mode,
    pub wins: u8,
    pub fails: u8,
    pub remainder: TextSpan,
    pub spans: Vec<TextSpan>,
    pub exit: bool,
    pub miss_this_round: bool,
    pub target: Ghost<Seq<char>>,
}

/// The characters of a sequence of spans, in order.
pub open spec fn concat_texts(spans: Seq<TextSpan>) -> Seq<char>
    decreases spans.len(),
{
    if spans.len() == 0 {
        Seq::empty()
    } else {
        concat_texts(spans.drop_last()) + spans.last().text@
    }
}

/// `x + 1`, stopping at the top of the counter's range.
pub open spec fn sat_inc(x: u8) -> u8 {
    if x < 255 {
        (x + 1) as u8
    } else {
        255u8
    }
}

/// The two session counters are the same in both states.
pub open spec fn counters_unchanged(pre: App, post: App) -> bool {
    &&& post.wins == pre.wins
    &&& post.fails == pre.fails
}

/// The round's text state (remainder, hit segments, ghost target) is the
/// same in both states.
pub open spec fn round_unchanged(pre: App, post: App) -> bool {
    &&& post.remainder == pre.remainder
    &&& post.spans == pre.spans
    &&& post.target == pre.target
}

/// The effect of the exit key: the exit flag is set and nothing else moves.
pub open spec fn esc_step(pre: App, post: App) -> bool {
    &&& post.exit == true
    &&& post.mode == pre.mode
    &&& post.miss_this_round == pre.miss_this_round
    &&& counters_unchanged(pre, post)
    &&& round_unchanged(pre, post)
}

/// A keystroke is a hit exactly when the remainder starts with it.
pub open spec fn is_hit(pre: App, c: char) -> bool {
    pre.remainder.text@.len() > 0 && pre.remainder.text@[0] == c
}

/// The effect of a wrong keystroke: the round is marked missed and nothing
/// else moves; in particular the remainder stays as it was.
pub open spec fn miss_step(pre: App, post: App) -> bool {
    &&& post.miss_this_round == true
    &&& post.mode == pre.mode
    &&& post.exit == pre.exit
    &&& counters_unchanged(pre, post)
    &&& round_unchanged(pre, post)
}

/// The hit segments after a correct keystroke: the character is appended to
/// the last segment if there is one, else it opens the first segment.
pub open spec fn coalesced(pre: Seq<TextSpan>, post: Seq<TextSpan>, c: char) -> bool {
    if pre.len() == 0 {
        &&& post.len() == 1
        &&& post[0].span_type == SpanType::HIT
        &&& post[0].text@ == seq![c]
    } else {
        &&& post.len() == pre.len()
        &&& post.subrange(0, pre.len() - 1) == pre.subrange(0, pre.len() - 1)
        &&& post.last().span_type == SpanType::HIT
        &&& post.last().text@ == pre.last().text@.push(c)
    }
}

/// The effect of a correct keystroke that does not finish the round: the
/// remainder loses exactly its first character, the keystroke joins the hit
/// segments, and flags and counters stay as they were.
pub open spec fn advance_step(pre: App, post: App, c: char) -> bool {
    &&& post.remainder.text@ == pre.remainder.text@.subrange(1, pre.remainder.text@.len() as int)
    &&& post.remainder.span_type == SpanType::DEFAULT
    &&& coalesced(pre.spans@, post.spans@, c)
    &&& post.miss_this_round == pre.miss_this_round
    &&& post.mode == pre.mode
    &&& post.exit == pre.exit
    &&& counters_unchanged(pre, post)
    &&& post.target == pre.target
}

/// What every freshly started round looks like: a two-letter lowercase
/// remainder equal to the new target, no hit segments, miss flag cleared.
pub open spec fn fresh_round(pre: App, post: App) -> bool {
    &&& post.remainder.span_type == SpanType::DEFAULT
    &&& post.remainder.text@.len() == 2
    &&& is_lowercase_letter(post.remainder.text@[0])
    &&& is_lowercase_letter(post.remainder.text@[1])
    &&& post.spans@.len() == 0
    &&& post.miss_this_round == false
    &&& post.target@ == post.remainder.text@
    &&& post.mode == pre.mode
    &&& post.exit == pre.exit
}

/// The effect of the keystroke that completes the round: exactly one counter
/// moves up by one (saturating) — wins for a clean round, fails otherwise —
/// and a new round starts at once.
pub open spec fn complete_step(pre: App, post: App) -> bool {
    &&& fresh_round(pre, post)
    &&& (if pre.miss_this_round {
        post.fails == sat_inc(pre.fails) && post.wins == pre.wins
    } else {
        post.wins == sat_inc(pre.wins) && post.fails == pre.fails
    })
}

/// The whole transition of one keyboard event.
pub open spec fn key_step(pre: App, post: App, key: KeyInput) -> bool {
    match key {
        KeyInput::Esc => esc_step(pre, post),
        KeyInput::Char(c) => if !is_hit(pre, c) {
            miss_step(pre, post)
        } else if pre.remainder.text@.len() == 1 {
            complete_step(pre, post)
        } else {
            advance_step(pre, post, c)
        },
        KeyInput::Other => post == pre,
    }
}

impl App {
    /// The state machine's invariant, established by every round start: the
    /// remainder is classified as pending text and is non-empty, every
    /// accumulated segment is a non-empty hit, and the segments followed by
    /// the remainder spell out exactly the round's target.
    pub open spec fn inv(self) -> bool {
        &&& self.remainder.span_type == SpanType::DEFAULT
        &&& self.remainder.text@.len() > 0
        &&& (forall|i: int|
            0 <= i < self.spans@.len() ==> (#[trigger] self.spans@[i]).span_type == SpanType::HIT
                && self.spans@[i].text@.len() > 0)
        &&& concat_texts(self.spans@) + self.remainder.text@ == self.target@
    }

    /// Request the session's end; the flag is never unset.
    pub fn exit(&mut self)
        ensures
            esc_step(*old(self), *final(self)),
    {
        self.exit = true;
    }

    /// Start a new round: draw a fresh two-letter target, make it the whole
    /// remainder, clear the hit segments and the miss flag. Counters, mode
    /// and the exit flag are untouched.
    pub fn next_round(&mut self)
        ensures
            fresh_round(*old(self), *final(self)),
            counters_unchanged(*old(self), *final(self)),
            final(self).inv(),
    {
        let a = random_below(LETTER_COUNT);
        let b = random_below(LETTER_COUNT);
        let mut t = String::from_str(letter_at(a));
        t.append(letter_at(b));
        self.spans.clear();
        self.remainder = TextSpan::default_with_text(t);
        self.miss_this_round = false;
        self.target = Ghost(self.remainder.text@);
        proof {
            assert(concat_texts(self.spans@) + self.remainder.text@ =~= self.target@);
        }
    }

    /// Process one keyboard event: escape requests exit, a character key is
    /// matched against the front of the remainder (a hit advances or
    /// completes the round, a miss only flags it), and any other event is
    /// ignored. A state that satisfies the invariant still does afterwards.
    pub fn handle_key_event(&mut self, key: KeyInput)
        ensures
            key_step(*old(self), *final(self), key),
            old(self).inv() ==> final(self).inv(),
    {
        match key {
            KeyInput::Esc => self.exit(),
            KeyInput::Char(v) => {
                let rem_len = self.remainder.text.as_str().unicode_len();
                let hit = rem_len > 0 && self.remainder.text.as_str().get_char(0) == v;
                if hit {
                    if rem_len == 1 {
                        let fail = self.miss_this_round;
                        self.count(fail);
                        self.next_round();
                    } else {
                        let piece = String::from_str(
                            self.remainder.text.as_str().substring_char(0, 1),
                        );
                        let new_remainder = String::from_str(
                            self.remainder.text.as_str().substring_char(1, rem_len),
                        );
                        proof {
                            assert(piece@ =~= seq![v]);
                        }
                        if self.spans.len() == 0 {
                            self.spans.push(TextSpan::hit(piece));
                        } else {
                            let last = self.spans.pop().unwrap();
                            let merged = last.text.concat(piece.as_str());
                            proof {
                                assert(merged@ =~= old(self).spans@.last().text@.push(v));
                            }
                            self.spans.push(TextSpan::hit(merged));
                            proof {
                                assert(self.spans@.subrange(0, old(self).spans@.len() - 1) =~= old(
                                    self,
                                ).spans@.subrange(0, old(self).spans@.len() - 1));
                            }
                        }
                        self.remainder = TextSpan::default_with_text(new_remainder);
                        proof {
                            if old(self).inv() {
                                lemma_advance_preserves_inv(*old(self), *self, v);
                            }
                        }
                    }
                } else {
                    self.miss_this_round = true;
                }
            },
            KeyInput::Other => {},
        }
    }

    /// Record one completed round: a round with any miss counts as a fail,
    /// a clean round as a win. The untouched counter keeps its value.
    pub fn count(&mut self, fail: bool)
        ensures
            (if fail {
                final(self).fails == sat_inc(old(self).fails) && final(self).wins == old(
                    self,
                ).wins
            } else {
                final(self).wins == sat_inc(old(self).wins) && final(self).fails == old(
                    self,
                ).fails
            }),
            final(self).mode == old(self).mode,
            final(self).exit == old(self).exit,
            final(self).miss_this_round == old(self).miss_this_round,
            round_unchanged(*old(self), *final(self)),
    {
        if fail {
            if self.fails < 255 {
                self.fails = self.fails + 1;
            }
        } else {
            if self.wins < 255 {
                self.wins = self.wins + 1;
            }
        }
    }
}

/// Law: a wrong keystroke leaves the flag set whether or not it already was.
/// Submitting a second wrong character keeps `miss_this_round` true and
/// still changes nothing else.
pub proof fn lemma_miss_idempotent(pre: App, mid: App, post: App)
    requires
        miss_step(pre, mid),
        miss_step(mid, post),
    ensures
        post.miss_this_round == true,
        round_unchanged(pre, post),
        counters_unchanged(pre, post),
        post.exit == pre.exit,
{
}

/// Law: no keyboard event ever lowers a session counter.
pub proof fn lemma_counters_monotonic(pre: App, post: App, key: KeyInput)
    requires
        key_step(pre, post, key),
    ensures
        pre.wins <= post.wins,
        pre.fails <= post.fails,
{
}

/// Law: once the exit flag is set, no keyboard event clears it.
pub proof fn lemma_exit_latched(pre: App, post: App, key: KeyInput)
    requires
        key_step(pre, post, key),
        pre.exit,
    ensures
        post.exit,
{
}

/// Law: within a round the miss flag only moves from false to true; only
/// the keystroke that completes the round (and so starts the next one)
/// clears it.
pub proof fn lemma_miss_latched_within_round(pre: App, post: App, key: KeyInput)
    requires
        key_step(pre, post, key),
        pre.miss_this_round,
        !(exists|c: char|
            key == KeyInput::Char(c) && is_hit(pre, c) && pre.remainder.text@.len() == 1),
    ensures
        post.miss_this_round,
{
}

/// Law: in every state that satisfies the invariant, the remainder is a
/// suffix of the round's target.
pub proof fn lemma_remainder_is_suffix(app: App)
    requires
        app.inv(),
    ensures
        app.remainder.text@ == app.target@.subrange(
            app.target@.len() - app.remainder.text@.len(),
            app.target@.len() as int,
        ),
{
    assert(app.remainder.text@ =~= app.target@.subrange(
        app.target@.len() - app.remainder.text@.len(),
        app.target@.len() as int,
    ));
}

/// A correct keystroke that does not finish the round keeps the invariant:
/// the grown hit segments followed by the shortened remainder still spell
/// out the unchanged target.
proof fn lemma_advance_preserves_inv(pre: App, post: App, c: char)
    requires
        pre.inv(),
        is_hit(pre, c),
        pre.remainder.text@.len() > 1,
        advance_step(pre, post, c),
    ensures
        post.inv(),
{
    let n = pre.spans@.len() as int;
    if n == 0 {
        assert(post.spans@.drop_last() =~= Seq::<TextSpan>::empty());
        assert(concat_texts(post.spans@) == concat_texts(post.spans@.drop_last())
            + post.spans@.last().text@);
        assert(concat_texts(post.spans@) =~= concat_texts(pre.spans@) + seq![c]);
    } else {
        assert(post.spans@.drop_last() =~= pre.spans@.drop_last());
        assert(concat_texts(post.spans@) == concat_texts(pre.spans@.drop_last())
            + pre.spans@.last().text@.push(c));
        assert(concat_texts(pre.spans@) == concat_texts(pre.spans@.drop_last())
            + pre.spans@.last().text@);
        assert(concat_texts(post.spans@) =~= concat_texts(pre.spans@) + seq![c]);
    }
    assert(seq![c] + post.remainder.text@ =~= pre.remainder.text@);
    assert(concat_texts(post.spans@) + post.remainder.text@ =~= concat_texts(pre.spans@)
        + pre.remainder.text@);
    assert forall|i: int|
        0 <= i < post.spans@.len() implies (#[trigger] post.spans@[i]).span_type == SpanType::HIT
        && post.spans@[i].text@.len() > 0 by {
        if n > 0 && i < n - 1 {
            assert(post.spans@.subrange(0, n - 1)[i] == pre.spans@.subrange(0, n - 1)[i]);
            assert(post.spans@[i] == pre.spans@[i]);
        }
    }
}

impl Default for App {
    fn default() -> (r: Self)
        ensures
            r.mode is Random,
            r.wins == 0,
            r.fails == 0,
            r.remainder.span_type == SpanType::DEFAULT,
            r.remainder.text@ == Seq::<char>::empty(),
            r.spans@ == Seq::<TextSpan>::empty(),
            r.exit == false,
            r.miss_this_round == false,
            r.target@ == Seq::<char>::empty(),
    {
        App {
            mode: Mode::Random,
            wins: 0,
            fails: 0,
            remainder: TextSpan::default(),
            spans: Vec::new(),
            exit: false,
            miss_this_round: false,
            target: Ghost(Seq::empty()),
        }
    }
}

} // verus!
