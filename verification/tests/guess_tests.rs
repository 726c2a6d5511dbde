use cli_exercises::guess::{
    read_entry, Entry, Game, Phase, Reply, BANNER, HIGHEST_SECRET, LOWEST_SECRET, PROMPT,
};

fn game_with(secret: u32) -> Game {
    match Game::with_secret(secret) {
        Some(game) => game,
        None => panic!("{} is no secret", secret),
    }
}

#[test]
fn the_right_guess_wins_at_once() {
    let mut game = game_with(50);
    assert_eq!(game.phase(), Phase::Prompting);
    let reply = game.play("50\n");
    assert_eq!(reply, Reply::Correct(50));
    let output = reply.output();
    assert!(output.contains("50"));
    assert_eq!(output, "50 is correct: congratulations!\n");
    assert_eq!(reply.exit_status(), Some(0));
    assert_eq!(game.phase(), Phase::Won);
}

#[test]
fn every_secret_written_out_wins() {
    for secret in 1..=100u32 {
        let mut game = game_with(secret);
        let reply = game.play(&secret.to_string());
        assert_eq!(reply, Reply::Correct(secret));
        assert_eq!(reply.output(), format!("{} is correct: congratulations!\n", secret));
        assert_eq!(reply.exit_status(), Some(0));
        assert_eq!(game.phase(), Phase::Won);
    }
}

#[test]
fn a_guess_below_is_too_small() {
    let mut game = game_with(50);
    let reply = game.play("49\n");
    assert_eq!(reply, Reply::TooSmall);
    assert_eq!(reply.output(), "Too small!\n");
    assert_eq!(reply.exit_status(), None);
    assert_eq!(game.phase(), Phase::Prompting);
    assert_eq!(game.play("0\n"), Reply::TooSmall);
}

#[test]
fn a_guess_above_is_too_big() {
    let mut game = game_with(50);
    let reply = game.play("51\n");
    assert_eq!(reply, Reply::TooBig);
    assert_eq!(reply.output(), "Too big!\n");
    assert_eq!(reply.exit_status(), None);
    assert_eq!(game.phase(), Phase::Prompting);
    assert_eq!(game.play("4294967295\n"), Reply::TooBig);
}

#[test]
fn binary_search_finds_the_secret() {
    let mut game = game_with(37);
    let mut low: u32 = 1;
    let mut high: u32 = 100;
    let mut turns: u32 = 0;
    loop {
        let guess = (low + high) / 2;
        turns += 1;
        match game.play(&format!("{}\n", guess)) {
            Reply::TooSmall => low = guess + 1,
            Reply::TooBig => high = guess - 1,
            Reply::Correct(found) => {
                assert_eq!(found, 37);
                break;
            }
            other => panic!("unexpected reply {:?}", other),
        }
        assert_eq!(game.phase(), Phase::Prompting);
    }
    assert!(turns <= 7);
    assert_eq!(game.phase(), Phase::Won);
}

#[test]
fn quit_ends_the_game_whatever_came_before() {
    for word in ["quit", "q", "quit\n", " q \n", "\tquit\r\n"] {
        let mut fresh = game_with(50);
        let reply = fresh.play(word);
        assert_eq!(reply, Reply::Farewell);
        assert_eq!(reply.output(), "Thanks for playing!\n");
        assert_eq!(reply.exit_status(), Some(0));
        assert_eq!(fresh.phase(), Phase::Quit);

        let mut played = game_with(50);
        assert_eq!(played.play("10\n"), Reply::TooSmall);
        assert_eq!(played.play("90\n"), Reply::TooBig);
        assert_eq!(played.play("banana\n"), Reply::Silence);
        let reply = played.play(word);
        assert_eq!(reply, Reply::Farewell);
        assert_eq!(reply.output(), "Thanks for playing!\n");
        assert_eq!(reply.exit_status(), Some(0));
        assert_eq!(played.phase(), Phase::Quit);
    }
}

#[test]
fn the_quit_words_are_matched_exactly() {
    for line in ["Q", "QUIT", "Quit", "quit now", "qu", "qui", "quitt", "qq", "q uit", "exit"] {
        let mut game = game_with(50);
        assert_eq!(game.play(line), Reply::Silence, "line {:?}", line);
        assert_eq!(game.phase(), Phase::Prompting);
    }
}

#[test]
fn what_is_neither_number_nor_quit_is_passed_over_in_silence() {
    let mut game = game_with(50);
    for line in ["banana\n", "\n", "", "-5\n", "5.5\n", "4294967296\n", "fifty\n"] {
        let reply = game.play(line);
        assert_eq!(reply, Reply::Silence, "line {:?}", line);
        assert_eq!(reply.output(), "");
        assert_eq!(reply.exit_status(), None);
        assert_eq!(game.phase(), Phase::Prompting);
        assert_eq!(game.secret(), 50);
    }
    assert_eq!(game.play("50\n"), Reply::Correct(50));
}

#[test]
fn the_secret_stays_the_same_through_a_game() {
    let mut game = Game::start();
    let secret = game.secret();
    assert!(LOWEST_SECRET <= secret && secret <= HIGHEST_SECRET);
    for _ in 0..3 {
        for guess in 0..=101u32 {
            if guess == secret {
                continue;
            }
            let reply = game.play(&format!("{}\n", guess));
            if guess < secret {
                assert_eq!(reply, Reply::TooSmall);
            } else {
                assert_eq!(reply, Reply::TooBig);
            }
            assert_eq!(game.secret(), secret);
            assert_eq!(game.phase(), Phase::Prompting);
        }
    }
    assert_eq!(game.play(&format!("{}\n", secret)), Reply::Correct(secret));
    assert_eq!(game.secret(), secret);
    assert_eq!(game.phase(), Phase::Won);
}

#[test]
fn a_drawn_secret_lies_between_one_and_a_hundred() {
    assert_eq!(LOWEST_SECRET, 1);
    assert_eq!(HIGHEST_SECRET, 100);
    let mut lowest: u32 = u32::MAX;
    let mut highest: u32 = 0;
    for _ in 0..2000 {
        let game = Game::start();
        assert_eq!(game.phase(), Phase::Prompting);
        let secret = game.secret();
        assert!(1 <= secret && secret <= 100, "secret {}", secret);
        lowest = lowest.min(secret);
        highest = highest.max(secret);
    }
    assert!(lowest < highest);
}

#[test]
fn a_secret_out_of_range_is_not_taken() {
    assert!(Game::with_secret(0).is_none());
    assert!(Game::with_secret(101).is_none());
    assert!(Game::with_secret(u32::MAX).is_none());
    for secret in 1..=100 {
        let game = game_with(secret);
        assert_eq!(game.secret(), secret);
        assert_eq!(game.phase(), Phase::Prompting);
    }
}

#[test]
fn lines_are_read_as_entries() {
    assert_eq!(read_entry("q\n"), Entry::Quit);
    assert_eq!(read_entry("quit\n"), Entry::Quit);
    assert_eq!(read_entry("  quit  "), Entry::Quit);
    assert_eq!(read_entry("50\n"), Entry::Guess(50));
    assert_eq!(read_entry(" 7 "), Entry::Guess(7));
    assert_eq!(read_entry("+7"), Entry::Guess(7));
    assert_eq!(read_entry("0"), Entry::Guess(0));
    assert_eq!(read_entry("4294967295"), Entry::Guess(u32::MAX));
    assert_eq!(read_entry("banana\n"), Entry::Unreadable);
    assert_eq!(read_entry(""), Entry::Unreadable);
    assert_eq!(read_entry("-3"), Entry::Unreadable);
    assert_eq!(read_entry("Quit"), Entry::Unreadable);
}

#[test]
fn a_line_is_read_first_and_answered_next() {
    let mut game = game_with(1);
    game.read("0\n");
    assert_eq!(game.phase(), Phase::Evaluating(Entry::Guess(0)));
    assert_eq!(game.secret(), 1);
    assert_eq!(game.evaluate(), Reply::TooSmall);
    assert_eq!(game.phase(), Phase::Prompting);

    game.read(" 2 \n");
    assert_eq!(game.phase(), Phase::Evaluating(Entry::Guess(2)));
    assert_eq!(game.evaluate(), Reply::TooBig);
    assert_eq!(game.phase(), Phase::Prompting);

    game.read("banana\n");
    assert_eq!(game.phase(), Phase::Evaluating(Entry::Unreadable));
    assert_eq!(game.evaluate(), Reply::Silence);
    assert_eq!(game.phase(), Phase::Prompting);

    game.read("1\n");
    assert_eq!(game.phase(), Phase::Evaluating(Entry::Guess(1)));
    assert_eq!(game.evaluate(), Reply::Correct(1));
    assert_eq!(game.phase(), Phase::Won);
    assert_eq!(game.secret(), 1);

    let mut other = game_with(100);
    other.read("quit\n");
    assert_eq!(other.phase(), Phase::Evaluating(Entry::Quit));
    assert_eq!(other.evaluate(), Reply::Farewell);
    assert_eq!(other.phase(), Phase::Quit);
    assert_eq!(other.secret(), 100);
}

#[test]
fn only_the_last_reply_of_a_game_ends_the_process() {
    assert_eq!(Reply::Farewell.exit_status(), Some(0));
    assert_eq!(Reply::Correct(3).exit_status(), Some(0));
    assert_eq!(Reply::Silence.exit_status(), None);
    assert_eq!(Reply::TooSmall.exit_status(), None);
    assert_eq!(Reply::TooBig.exit_status(), None);
}

#[test]
fn the_congratulation_names_the_guess() {
    assert_eq!(Reply::Correct(7).output(), "7 is correct: congratulations!\n");
    assert_eq!(Reply::Correct(100).output(), "100 is correct: congratulations!\n");
}

#[test]
fn banner_and_prompt_are_the_fixed_texts() {
    assert_eq!(BANNER, "Guess the number!\n");
    assert_eq!(PROMPT, "Please input your guess: ");
}
