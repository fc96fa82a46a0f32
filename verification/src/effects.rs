//! What a frame asks of the outside world: sounds to play, lines to log and
//! the request to leave; and the event that ends a game.

use vstd::prelude::*;
use vstd::string::StringExecFns;

verus! {

/// A sound effect.
#[derive(Clone, Copy, Debug, PartialEq, Eq, Structural)]
pub enum Sound {
    /// An enemy bounced off a wall, first variant.
    BounceOne,
    /// An enemy bounced off a wall, second variant.
    BounceTwo,
    /// The player picked up a star.
    Pickup,
    /// An enemy hit the player.
    Explosion,
}

impl Sound {
    /// Where the sound's asset lives.
    pub open spec fn path(self) -> Seq<char> {
        match self {
            Sound::BounceOne => "audio/pluck_001.ogg"@,
            Sound::BounceTwo => "audio/pluck_002.ogg"@,
            Sound::Pickup => "audio/impactPunch_medium_004.ogg"@,
            Sound::Explosion => "audio/explosionCrunch_000.ogg"@,
        }
    }

    /// Whether this is one of the two bounce sounds.
    pub open spec fn is_bounce(self) -> bool {
        self == Sound::BounceOne || self == Sound::BounceTwo
    }

    /// Computes `path`.
    pub fn asset_path(&self) -> (r: &'static str)
        ensures
            r@ == self.path(),
    {
        match self {
            Sound::BounceOne => "audio/pluck_001.ogg",
            Sound::BounceTwo => "audio/pluck_002.ogg",
            Sound::Pickup => "audio/impactPunch_medium_004.ogg",
            Sound::Explosion => "audio/explosionCrunch_000.ogg",
        }
    }
}

/// The game ended with this score.
#[derive(Clone, Copy, Debug, PartialEq, Eq, Structural)]
pub struct GameOver {
    pub score: u32,
}

/// A request to the outside world, queued during a frame.
#[derive(Debug, PartialEq, Eq)]
pub enum Effect {
    /// Play a sound, fire and forget.
    Play(Sound),
    /// Write one line to the log.
    Log(String),
    /// End the process.
    Exit,
}

/// An effect as contracts see it: a logged line is its characters.
pub enum EffectView {
    Play(Sound),
    Log(Seq<char>),
    Exit,
}

impl View for Effect {
    type V = EffectView;

    open spec fn view(&self) -> EffectView {
        match self {
            Effect::Play(sound) => EffectView::Play(*sound),
            Effect::Log(line) => EffectView::Log(line@),
            Effect::Exit => EffectView::Exit,
        }
    }
}

/// A queue of effects as contracts see it.
pub open spec fn views(effects: Seq<Effect>) -> Seq<EffectView> {
    effects.map_values(|e: Effect| e@)
}

/// `count` copies of one effect.
pub open spec fn repeated(effect: EffectView, count: nat) -> Seq<EffectView> {
    Seq::new(count, |i: int| effect)
}

/// Appends one effect to the queue.
pub fn emit(effects: &mut Vec<Effect>, effect: Effect)
    ensures
        views(final(effects)@) == views(old(effects)@).push(effect@),
{
    proof {
        old(effects)@.lemma_push_map_commute(|e: Effect| e@, effect);
    }
    effects.push(effect);
}

/// The character for a decimal digit.
pub open spec fn digit(d: nat) -> char {
    if d == 0 {
        '0'
    } else if d == 1 {
        '1'
    } else if d == 2 {
        '2'
    } else if d == 3 {
        '3'
    } else if d == 4 {
        '4'
    } else if d == 5 {
        '5'
    } else if d == 6 {
        '6'
    } else if d == 7 {
        '7'
    } else if d == 8 {
        '8'
    } else {
        '9'
    }
}

/// A number in decimal, without leading zeros.
pub open spec fn decimal(n: nat) -> Seq<char>
    decreases n,
{
    if n < 10 {
        seq![digit(n)]
    } else {
        decimal(n / 10).push(digit(n % 10))
    }
}

/// The text of one decimal digit.
fn digit_text(d: u32) -> (r: &'static str)
    requires
        d < 10,
    ensures
        r@ == seq![digit(d as nat)],
{
    proof {
        reveal_strlit("0");
        reveal_strlit("1");
        reveal_strlit("2");
        reveal_strlit("3");
        reveal_strlit("4");
        reveal_strlit("5");
        reveal_strlit("6");
        reveal_strlit("7");
        reveal_strlit("8");
        reveal_strlit("9");
    }
    if d == 0 {
        "0"
    } else if d == 1 {
        "1"
    } else if d == 2 {
        "2"
    } else if d == 3 {
        "3"
    } else if d == 4 {
        "4"
    } else if d == 5 {
        "5"
    } else if d == 6 {
        "6"
    } else if d == 7 {
        "7"
    } else if d == 8 {
        "8"
    } else {
        "9"
    }
}

/// Appends a number in decimal to a text.
pub fn append_decimal(text: &mut String, n: u32)
    ensures
        final(text)@ == old(text)@ + decimal(n as nat),
    decreases n,
{
    if n >= 10 {
        append_decimal(text, n / 10);
    }
    text.append(digit_text(n % 10));
}

/// The line that reports the score.
pub open spec fn score_line(value: u32) -> Seq<char> {
    "Score: "@ + decimal(value as nat)
}

/// The line that reports the end of a game.
pub open spec fn game_over_line() -> Seq<char> {
    "Enemy hit player!! Game Over!!"@
}

/// Computes `score_line`.
pub fn render_score(value: u32) -> (r: String)
    ensures
        r@ == score_line(value),
{
    let mut text = String::from_str("Score: ");
    append_decimal(&mut text, value);
    text
}

/// Computes `game_over_line`.
pub fn render_game_over() -> (r: String)
    ensures
        r@ == game_over_line(),
{
    String::from_str("Enemy hit player!! Game Over!!")
}

} // verus!
