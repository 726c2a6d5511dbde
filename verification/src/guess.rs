//! The guessing game: a secret number, and the reply owed to each line of input.

use crate::decimal::{
    decimal, is_digit, lemma_decimal_denotes, lemma_parse_of_decimal, parse_number, parse_u32,
    push_decimal,
};
use crate::trim::{
    all_space, lemma_trimmed_ignores_padding, lemma_trimmed_is_stretch, trim, trimmed,
};
use rand::Rng;
use vstd::prelude::*;
use vstd::string::{StrSliceExecFns, StringExecFns};

verus! {

/// The line printed once, before the first prompt.
pub const BANNER: &'static str = "Guess the number!\n";

/// The prompt before each line of input. It ends with a blank, not with a line
/// terminator.
pub const PROMPT: &'static str = "Please input your guess: ";

/// The smallest number the secret can be.
pub const LOWEST_SECRET: u32 = 1;

/// The largest number the secret can be.
pub const HIGHEST_SECRET: u32 = 100;

/// What a line of input means to the game.
#[derive(Clone, Copy, Debug, PartialEq, Eq, Structural)]
pub enum Entry {
    /// One of the two words that end the game.
    Quit,
    /// Neither such a word nor a number.
    Unreadable,
    /// A guess.
    Guess(u32),
}

/// Whether `s` is one of the two words that end the game, `q` and `quit`.
pub open spec fn is_quit_word(s: Seq<char>) -> bool {
    s == seq!['q'] || s == seq!['q', 'u', 'i', 't']
}

/// The meaning of `line`. The white space around it does not count, and the
/// words that end the game are looked for before a number is.
pub open spec fn entry_of(line: Seq<char>) -> Entry {
    let text = trimmed(line);
    if is_quit_word(text) {
        Entry::Quit
    } else {
        match parse_u32(text) {
            Some(guess) => Entry::Guess(guess),
            None => Entry::Unreadable,
        }
    }
}

/// Decides `is_quit_word`.
fn quits(text: &str) -> (yes: bool)
    ensures
        yes == is_quit_word(text@),
{
    let count: usize = text.unicode_len();
    if count == 1 {
        let yes = text.get_char(0) == 'q';
        assert(yes ==> text@ =~= seq!['q']);
        yes
    } else if count == 4 {
        let yes = text.get_char(0) == 'q' && text.get_char(1) == 'u' && text.get_char(2) == 'i'
            && text.get_char(3) == 't';
        assert(yes ==> text@ =~= seq!['q', 'u', 'i', 't']);
        yes
    } else {
        false
    }
}

/// Reads one line of input.
pub fn read_entry(line: &str) -> (entry: Entry)
    ensures
        entry == entry_of(line@),
{
    let text = trim(line);
    if quits(text) {
        Entry::Quit
    } else {
        match parse_number(text) {
            Some(guess) => Entry::Guess(guess),
            None => Entry::Unreadable,
        }
    }
}

/// What the game answers to an entry.
#[derive(Clone, Copy, Debug, PartialEq, Eq, Structural)]
pub enum Reply {
    /// The user has quit.
    Farewell,
    /// Nothing is said, and the prompt comes again.
    Silence,
    /// The guess is below the secret.
    TooSmall,
    /// The guess is above the secret.
    TooBig,
    /// The guess, which is the secret.
    Correct(u32),
}

impl Reply {
    /// What is printed for this reply, line terminator included; nothing at all
    /// for `Silence`.
    pub open spec fn output_text(self) -> Seq<char> {
        match self {
            Reply::Farewell => "Thanks for playing!\n"@,
            Reply::Silence => Seq::empty(),
            Reply::TooSmall => "Too small!\n"@,
            Reply::TooBig => "Too big!\n"@,
            Reply::Correct(guess) => decimal(guess as nat) + " is correct: congratulations!\n"@,
        }
    }

    /// The status with which the process ends after this reply, if it ends.
    pub open spec fn ending(self) -> Option<i32> {
        match self {
            Reply::Farewell | Reply::Correct(_) => Some(0),
            _ => None,
        }
    }

    /// What is to be printed, line terminator included.
    pub fn output(&self) -> (text: String)
        ensures
            text@ == self.output_text(),
    {
        match self {
            Reply::Farewell => String::from_str("Thanks for playing!\n"),
            Reply::Silence => String::new(),
            Reply::TooSmall => String::from_str("Too small!\n"),
            Reply::TooBig => String::from_str("Too big!\n"),
            Reply::Correct(guess) => {
                let mut text = String::new();
                push_decimal(&mut text, *guess);
                text.append(" is correct: congratulations!\n");
                text
            },
        }
    }

    /// The status with which the process is to end now, or `None` where the game
    /// goes on.
    pub fn exit_status(&self) -> (status: Option<i32>)
        ensures
            status == self.ending(),
    {
        match self {
            Reply::Farewell | Reply::Correct(_) => Some(0),
            _ => None,
        }
    }
}

/// The reply owed to `entry` while the secret is `secret`.
pub open spec fn reply_to(secret: u32, entry: Entry) -> Reply {
    match entry {
        Entry::Quit => Reply::Farewell,
        Entry::Unreadable => Reply::Silence,
        Entry::Guess(guess) => if guess < secret {
            Reply::TooSmall
        } else if guess > secret {
            Reply::TooBig
        } else {
            Reply::Correct(guess)
        },
    }
}

/// Where a game stands.
#[derive(Clone, Copy, Debug, PartialEq, Eq, Structural)]
pub enum Phase {
    /// Waiting for a line of input.
    Prompting,
    /// A line was read as the entry held here, and is not answered yet.
    Evaluating(Entry),
    /// Over: the secret was guessed.
    Won,
    /// Over: the user quit.
    Quit,
}

/// The phase that follows `reply`.
pub open spec fn phase_after(reply: Reply) -> Phase {
    match reply {
        Reply::Farewell => Phase::Quit,
        Reply::Correct(_) => Phase::Won,
        _ => Phase::Prompting,
    }
}

/// One run of the game.
#[derive(Debug)]
pub struct Game {
    secret: u32,
    phase: Phase,
}

/// A game as a plain value.
pub struct GameView {
    pub secret: u32,
    pub phase: Phase,
}

impl GameView {
    /// The game after `line` was read.
    pub open spec fn read(self, line: Seq<char>) -> GameView {
        GameView { secret: self.secret, phase: Phase::Evaluating(entry_of(line)) }
    }

    /// The game after `entry` was answered.
    pub open spec fn answered(self, entry: Entry) -> GameView {
        GameView { secret: self.secret, phase: phase_after(reply_to(self.secret, entry)) }
    }

    /// The game after `line` was read and answered.
    pub open spec fn played(self, line: Seq<char>) -> GameView {
        self.answered(entry_of(line))
    }

    /// The game after `lines` were read and answered in turn, as far as it went:
    /// a game that is not waiting for a line stays as it is.
    pub open spec fn run(self, lines: Seq<Seq<char>>) -> GameView
        decreases lines.len(),
    {
        if lines.len() == 0 || self.phase != Phase::Prompting {
            self
        } else {
            self.played(lines.first()).run(lines.drop_first())
        }
    }
}

impl View for Game {
    type V = GameView;

    closed spec fn view(&self) -> GameView {
        GameView { secret: self.secret, phase: self.phase }
    }
}

/// The generator that `rand::thread_rng` hands out. Nothing inside it is seen here.
#[verifier::external_type_specification]
#[verifier::external_body]
pub struct ExThreadRng(rand::rngs::ThreadRng);

/// `rand::thread_rng` hands out the generator of the running thread. Nothing is
/// claimed of it. It panics where the operating system has no entropy to seed
/// the generator with.
pub assume_specification[ rand::thread_rng ]() -> (rng: rand::rngs::ThreadRng);

/// `rand::Rng::gen_range` over the inclusive range from `low` to `high`. Its
/// contract is taken on trust: the number drawn lies in that range. Nothing else
/// is claimed of it, and two draws may differ. An empty range makes `gen_range`
/// panic, so `low` must not exceed `high`.
#[verifier::external_body]
fn draw_between(rng: &mut rand::rngs::ThreadRng, low: u32, high: u32) -> (drawn: u32)
    requires
        low <= high,
    ensures
        low <= drawn <= high,
{
    rng.gen_range(low..=high)
}

impl Game {
    #[verifier::type_invariant]
    spec fn secret_in_range(self) -> bool {
        LOWEST_SECRET <= self.secret <= HIGHEST_SECRET
    }

    /// A new game, with a secret drawn at random.
    pub fn start() -> (game: Game)
        ensures
            game@.phase == Phase::Prompting,
            LOWEST_SECRET <= game@.secret <= HIGHEST_SECRET,
    {
        let mut rng = rand::thread_rng();
        let secret: u32 = draw_between(&mut rng, LOWEST_SECRET, HIGHEST_SECRET);
        Game { secret, phase: Phase::Prompting }
    }

    /// A new game with the given secret, if that is a number a game can have.
    pub fn with_secret(secret: u32) -> (game: Option<Game>)
        ensures
            game is Some <==> LOWEST_SECRET <= secret <= HIGHEST_SECRET,
            game matches Some(g) ==> g@ == (GameView { secret, phase: Phase::Prompting }),
    {
        if LOWEST_SECRET <= secret && secret <= HIGHEST_SECRET {
            Some(Game { secret, phase: Phase::Prompting })
        } else {
            None
        }
    }

    /// The secret, which lies between `LOWEST_SECRET` and `HIGHEST_SECRET`.
    pub fn secret(&self) -> (secret: u32)
        ensures
            secret == self@.secret,
            LOWEST_SECRET <= secret <= HIGHEST_SECRET,
    {
        proof {
            use_type_invariant(self);
        }
        self.secret
    }

    /// Where the game stands.
    pub fn phase(&self) -> (phase: Phase)
        ensures
            phase == self@.phase,
    {
        self.phase
    }

    /// Takes in one line of input. The secret stays what it was.
    pub fn read(&mut self, line: &str)
        requires
            old(self)@.phase == Phase::Prompting,
        ensures
            final(self)@ == old(self)@.read(line@),
            final(self)@.secret == old(self)@.secret,
    {
        proof {
            use_type_invariant(&*self);
        }
        self.phase = Phase::Evaluating(read_entry(line));
    }

    /// Answers the entry that was read. The secret stays what it was.
    pub fn evaluate(&mut self) -> (reply: Reply)
        requires
            old(self)@.phase is Evaluating,
        ensures
            old(self)@.phase matches Phase::Evaluating(entry) && reply == reply_to(
                old(self)@.secret,
                entry,
            ) && final(self)@ == old(self)@.answered(entry),
            final(self)@.secret == old(self)@.secret,
    {
        proof {
            use_type_invariant(&*self);
        }
        let reply = match self.phase {
            Phase::Evaluating(Entry::Quit) => Reply::Farewell,
            Phase::Evaluating(Entry::Guess(guess)) => {
                if guess < self.secret {
                    Reply::TooSmall
                } else if guess > self.secret {
                    Reply::TooBig
                } else {
                    Reply::Correct(guess)
                }
            },
            _ => Reply::Silence,
        };
        self.phase = match reply {
            Reply::Farewell => Phase::Quit,
            Reply::Correct(_) => Phase::Won,
            _ => Phase::Prompting,
        };
        reply
    }

    /// Takes in one line of input and answers it. A word that ends the game ends
    /// it whatever was guessed before, and what is neither such a word nor a
    /// number leaves the game as it was, with nothing said.
    pub fn play(&mut self, line: &str) -> (reply: Reply)
        requires
            old(self)@.phase == Phase::Prompting,
        ensures
            reply == reply_to(old(self)@.secret, entry_of(line@)),
            final(self)@ == old(self)@.played(line@),
            final(self)@.secret == old(self)@.secret,
            is_quit_word(trimmed(line@)) ==> reply == Reply::Farewell && final(self)@.phase
                == Phase::Quit,
            !is_quit_word(trimmed(line@)) && parse_u32(trimmed(line@)) is None ==> reply
                == Reply::Silence && final(self)@ == old(self)@,
    {
        self.read(line);
        self.evaluate()
    }
}

/// A word that ends the game is answered with the farewell, whatever the secret:
/// the process then ends with status 0, and no verdict on a guess is printed.
pub proof fn lemma_quit_word_ends_the_game(secret: u32, line: Seq<char>)
    requires
        is_quit_word(trimmed(line)),
    ensures
        reply_to(secret, entry_of(line)) == Reply::Farewell,
        phase_after(reply_to(secret, entry_of(line))) == Phase::Quit,
        reply_to(secret, entry_of(line)).ending() == Some(0i32),
        reply_to(secret, entry_of(line)).output_text() == "Thanks for playing!\n"@,
{
}

/// What is neither a word that ends the game nor a number is answered with
/// nothing: no output, no end, and the prompt comes again.
pub proof fn lemma_unreadable_line_is_passed_over(secret: u32, line: Seq<char>)
    requires
        !is_quit_word(trimmed(line)),
        parse_u32(trimmed(line)) is None,
    ensures
        reply_to(secret, entry_of(line)) == Reply::Silence,
        phase_after(reply_to(secret, entry_of(line))) == Phase::Prompting,
        reply_to(secret, entry_of(line)).ending() is None,
        reply_to(secret, entry_of(line)).output_text() == Seq::<char>::empty(),
{
}

/// White space around an entry changes nothing in what it means.
pub proof fn lemma_entry_ignores_padding(before: Seq<char>, entry: Seq<char>, after: Seq<char>)
    requires
        all_space(before, 0, before.len() as int),
        all_space(after, 0, after.len() as int),
    ensures
        entry_of(before + entry + after) == entry_of(entry),
{
    lemma_trimmed_ignores_padding(before, entry, after);
}

/// A number written out in decimal is read as the guess of that number.
pub proof fn lemma_numeral_is_a_guess(guess: u32)
    ensures
        entry_of(decimal(guess as nat)) == Entry::Guess(guess),
{
    let numeral = decimal(guess as nat);
    lemma_decimal_denotes(guess as nat);
    lemma_parse_of_decimal(guess);
    assert(is_digit(numeral.first()) && is_digit(numeral.last()));
    lemma_trimmed_is_stretch(numeral, 0, numeral.len() as int);
    assert(numeral.subrange(0, numeral.len() as int) =~= numeral);
    assert(!is_quit_word(numeral));
}

/// The secret, written out, is answered with the congratulation that names it,
/// and the game is won.
pub proof fn lemma_the_secret_wins(secret: u32)
    ensures
        reply_to(secret, entry_of(decimal(secret as nat))) == Reply::Correct(secret),
        phase_after(reply_to(secret, entry_of(decimal(secret as nat)))) == Phase::Won,
        Reply::Correct(secret).ending() == Some(0i32),
        Reply::Correct(secret).output_text() == decimal(secret as nat)
            + " is correct: congratulations!\n"@,
{
    lemma_numeral_is_a_guess(secret);
}

/// The reply to a guess tells how guess and secret compare, and nothing else
/// goes into it: replies to guesses on either side of the secret never clash.
pub proof fn lemma_reply_tells_the_order(secret: u32, guess: u32)
    ensures
        reply_to(secret, Entry::Guess(guess)) == Reply::TooSmall <==> guess < secret,
        reply_to(secret, Entry::Guess(guess)) == Reply::TooBig <==> guess > secret,
        reply_to(secret, Entry::Guess(guess)) == Reply::Correct(guess) <==> guess == secret,
{
}

/// However many lines are played, the secret is the one the game began with.
pub proof fn lemma_secret_is_constant(game: GameView, lines: Seq<Seq<char>>)
    ensures
        game.run(lines).secret == game.secret,
    decreases lines.len(),
{
    if lines.len() > 0 && game.phase == Phase::Prompting {
        lemma_secret_is_constant(game.played(lines.first()), lines.drop_first());
    }
}

} // verus!
