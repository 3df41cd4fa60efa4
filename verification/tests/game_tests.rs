use typedrill::App;
use typedrill::KeyInput;
use typedrill::Mode;
use typedrill::SpanType;
use typedrill::TextSpan;
use typedrill::letter_at;

#[test]
fn handle_key_event() {
    let mut app = App::default();
    app.next_round();
    assert!(app.remainder.text.len() == 2);

    app.remainder = TextSpan::default_with_text(String::from("ab"));

    app.handle_key_event(KeyInput::Char('a'));
    assert!(!app.miss_this_round);
    assert!(app.remainder.text == "b");

    app.handle_key_event(KeyInput::Char('c'));
    assert!(app.miss_this_round);
    assert!(app.remainder.text == "b");

    app.handle_key_event(KeyInput::Char('b'));
    assert!(app.wins == 0);
    assert!(app.fails == 1);
    assert!(app.remainder.text.len() == 2);

    let mut app = App::default();
    app.handle_key_event(KeyInput::Esc);
    assert!(app.exit);
}

#[test]
fn generated_targets_are_two_lowercase_letters() {
    let mut app = App::default();
    let mut seen = Vec::new();
    for _ in 0..100 {
        app.next_round();
        let target = app.remainder.text.clone();
        assert_eq!(target.chars().count(), 2);
        for c in target.chars() {
            assert!(('a'..='z').contains(&c));
        }
        assert!(app.spans.is_empty());
        assert!(!app.miss_this_round);
        if !seen.contains(&target) {
            seen.push(target);
        }
    }
    // 100 independent two-letter draws repeat a single value only if the
    // generator is broken.
    assert!(seen.len() >= 2);
}

#[test]
fn hit_shortens_remainder_by_one() {
    let mut app = App::default();
    app.remainder = TextSpan::default_with_text(String::from("ab"));
    app.handle_key_event(KeyInput::Char('a'));
    assert_eq!(app.remainder.text, "b");
    assert!(!app.miss_this_round);
    assert_eq!(app.wins, 0);
    assert_eq!(app.fails, 0);
}

#[test]
fn miss_changes_nothing_but_the_flag() {
    let mut app = App::default();
    app.remainder = TextSpan::default_with_text(String::from("ab"));
    app.handle_key_event(KeyInput::Char('x'));
    assert_eq!(app.remainder.text, "ab");
    assert!(app.miss_this_round);
    assert_eq!(app.wins, 0);
    assert_eq!(app.fails, 0);
    // submitting another wrong character leaves the flag set
    app.handle_key_event(KeyInput::Char('y'));
    assert_eq!(app.remainder.text, "ab");
    assert!(app.miss_this_round);
}

#[test]
fn clean_round_counts_a_win() {
    let mut app = App::default();
    app.remainder = TextSpan::default_with_text(String::from("xy"));
    app.handle_key_event(KeyInput::Char('x'));
    app.handle_key_event(KeyInput::Char('y'));
    assert_eq!(app.wins, 1);
    assert_eq!(app.fails, 0);
    // a new round has started
    assert_eq!(app.remainder.text.chars().count(), 2);
    assert!(app.spans.is_empty());
    assert!(!app.miss_this_round);
}

#[test]
fn missed_round_counts_a_fail() {
    let mut app = App::default();
    app.remainder = TextSpan::default_with_text(String::from("ab"));
    app.handle_key_event(KeyInput::Char('a'));
    app.handle_key_event(KeyInput::Char('c'));
    app.handle_key_event(KeyInput::Char('b'));
    assert_eq!(app.wins, 0);
    assert_eq!(app.fails, 1);
    assert!(!app.miss_this_round);
    assert!(app.spans.is_empty());
}

#[test]
fn hits_coalesce_into_one_segment() {
    let mut app = App::default();
    app.remainder = TextSpan::default_with_text(String::from("abc"));
    app.handle_key_event(KeyInput::Char('a'));
    assert_eq!(app.spans.len(), 1);
    assert_eq!(app.spans[0].text, "a");
    assert_eq!(app.spans[0].span_type, SpanType::HIT);
    app.handle_key_event(KeyInput::Char('b'));
    assert_eq!(app.spans.len(), 1);
    assert_eq!(app.spans[0].text, "ab");
    assert_eq!(app.spans[0].span_type, SpanType::HIT);
    assert_eq!(app.remainder.text, "c");
}

#[test]
fn escape_sets_exit_and_it_stays_set() {
    let mut app = App::default();
    app.next_round();
    assert!(!app.exit);
    app.handle_key_event(KeyInput::Esc);
    assert!(app.exit);
    app.handle_key_event(KeyInput::Char('q'));
    assert!(app.exit);
    app.handle_key_event(KeyInput::Other);
    assert!(app.exit);
}

#[test]
fn other_events_are_ignored() {
    let mut app = App::default();
    app.remainder = TextSpan::default_with_text(String::from("ab"));
    app.handle_key_event(KeyInput::Other);
    assert_eq!(app.remainder.text, "ab");
    assert!(!app.miss_this_round);
    assert!(!app.exit);
    assert_eq!(app.wins, 0);
    assert_eq!(app.fails, 0);
}

#[test]
fn counters_saturate_at_the_top() {
    let mut app = App::default();
    app.wins = 255;
    app.count(false);
    assert_eq!(app.wins, 255);
    assert_eq!(app.fails, 0);
    app.fails = 255;
    app.count(true);
    assert_eq!(app.fails, 255);
    assert_eq!(app.wins, 255);
}

#[test]
fn count_moves_exactly_one_counter() {
    let mut app = App::default();
    app.count(false);
    assert_eq!(app.wins, 1);
    assert_eq!(app.fails, 0);
    app.count(true);
    assert_eq!(app.wins, 1);
    assert_eq!(app.fails, 1);
}

#[test]
fn span_constructors_classify_text() {
    let s = TextSpan::new(SpanType::MISS, String::from("zz"));
    assert_eq!(s.span_type, SpanType::MISS);
    assert_eq!(s.text, "zz");

    let s = TextSpan::default_with_text(String::from("ab"));
    assert_eq!(s.span_type, SpanType::DEFAULT);
    assert_eq!(s.text, "ab");

    let s = TextSpan::hit(String::from("a"));
    assert_eq!(s.span_type, SpanType::HIT);
    assert_eq!(s.text, "a");

    let s = TextSpan::miss(String::from("b"));
    assert_eq!(s.span_type, SpanType::MISS);
    assert_eq!(s.text, "b");

    let s = TextSpan::default();
    assert_eq!(s.span_type, SpanType::DEFAULT);
    assert_eq!(s.text, "");
}

#[test]
fn default_mode_is_random() {
    assert!(matches!(Mode::default(), Mode::Random));
    let app = App::default();
    assert!(matches!(app.mode, Mode::Random));
    assert_eq!(app.wins, 0);
    assert_eq!(app.fails, 0);
    assert!(!app.exit);
    assert!(!app.miss_this_round);
    assert_eq!(app.remainder.text, "");
    assert!(app.spans.is_empty());
}

#[test]
fn letters_cover_the_alphabet_in_order() {
    assert_eq!(letter_at(0), "a");
    assert_eq!(letter_at(1), "b");
    assert_eq!(letter_at(25), "z");
    let mut all = String::new();
    for i in 0..26 {
        all.push_str(letter_at(i));
    }
    assert_eq!(all, "abcdefghijklmnopqrstuvwxyz");
}
