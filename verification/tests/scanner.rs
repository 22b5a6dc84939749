use dispatch::scanner::Scanner;
use dispatch::text::{encoded_len, CharClass};

#[test]
fn scanner_starts_at_the_front() {
    let stream = Scanner::new("héllo");
    assert_eq!(stream.offset(), 0);
    assert_eq!(stream.peek_for(2), "hé");
}

#[test]
fn eat_takes_a_literal_or_nothing() {
    let mut stream = Scanner::new("hello world");
    assert!(stream.eat("hello"));
    assert_eq!(stream.offset(), 5);
    assert!(!stream.eat("world"));
    assert_eq!(stream.offset(), 5);
    assert!(stream.eat(""));
    assert!(stream.eat(" world"));
    assert_eq!(stream.offset(), 11);
    assert!(!stream.eat("!"));
    assert!(stream.eat(""));
    assert_eq!(stream.offset(), 11);
}

#[test]
fn eat_does_not_take_half_a_literal() {
    let mut stream = Scanner::new("hel");
    assert!(!stream.eat("hello"));
    assert_eq!(stream.offset(), 0);
}

#[test]
fn peek_for_counts_characters() {
    let mut stream = Scanner::new("añ🍆b");
    assert_eq!(stream.peek_for(0), "");
    assert_eq!(stream.peek_for(3), "añ🍆");
    assert_eq!(stream.peek_for(9), "añ🍆b");
    assert_eq!(stream.offset(), 0);
    assert!(stream.eat("añ"));
    assert_eq!(stream.offset(), 3);
    assert_eq!(stream.peek_for(1), "🍆");
    assert!(stream.eat("🍆b"));
    assert_eq!(stream.peek_for(4), "");
}

#[test]
fn peek_for_stops_at_the_end_of_the_text() {
    let mut stream = Scanner::new("añ🍆b");
    assert_eq!(stream.peek_for(usize::MAX), "añ🍆b");
    assert_eq!(stream.peek_for(8), "añ🍆b");
    assert!(stream.eat("a"));
    assert_eq!(stream.peek_for(usize::MAX), "ñ🍆b");
    assert_eq!(stream.peek_for(usize::MAX - 1), "ñ🍆b");
    assert!(stream.eat("ñ🍆b"));
    assert_eq!(stream.peek_for(usize::MAX), "");
    assert_eq!(Scanner::new("").peek_for(usize::MAX), "");
}

#[test]
fn take_while_takes_the_whole_run() {
    let mut stream = Scanner::new("123 \t abc");
    assert_eq!(stream.take_while(CharClass::Whitespace), "");
    assert_eq!(stream.take_while(CharClass::Digit), "123");
    assert_eq!(stream.offset(), 3);
    assert_eq!(stream.take_while(CharClass::Digit), "");
    assert_eq!(stream.take_while(CharClass::Whitespace), " \t ");
    assert_eq!(stream.offset(), 6);
    assert!(stream.eat("abc"));
    assert_eq!(stream.take_while(CharClass::Digit), "");
    assert_eq!(stream.offset(), 9);
}

#[test]
fn take_while_runs_to_the_end() {
    let mut stream = Scanner::new("007");
    assert_eq!(stream.take_while(CharClass::Digit), "007");
    assert_eq!(stream.offset(), 3);
}

#[test]
fn peek_until_stops_in_front_of_the_class() {
    let mut stream = Scanner::new("play\u{2003}it 2");
    assert_eq!(stream.peek_until(CharClass::Whitespace), "play");
    assert_eq!(stream.peek_until(CharClass::Digit), "play\u{2003}it ");
    assert_eq!(stream.offset(), 0);
    assert!(stream.eat("play"));
    assert_eq!(stream.peek_until(CharClass::Whitespace), "");
    assert!(stream.eat("\u{2003}it 2"));
    assert_eq!(stream.peek_until(CharClass::Whitespace), "");
}

#[test]
fn increment_moves_by_whole_characters_only() {
    let mut stream = Scanner::new("a🍆b");
    assert!(stream.increment(0));
    assert!(stream.increment(1));
    assert_eq!(stream.offset(), 1);
    for bytes in [1, 2, 3] {
        assert!(!stream.increment(bytes));
        assert_eq!(stream.offset(), 1);
    }
    assert!(stream.increment(4));
    assert_eq!(stream.offset(), 5);
    assert!(!stream.increment(2));
    assert!(!stream.increment(usize::MAX));
    assert!(stream.increment(1));
    assert_eq!(stream.offset(), 6);
    assert!(!stream.increment(1));
    assert!(stream.increment(0));
}

#[test]
fn set_goes_back_to_a_boundary() {
    let mut stream = Scanner::new("a🍆b");
    assert!(stream.eat("a🍆b"));
    assert!(stream.set(1));
    assert_eq!(stream.peek_for(1), "🍆");
    for offset in [2, 3, 4, 7, usize::MAX] {
        assert!(!stream.set(offset));
        assert_eq!(stream.offset(), 1);
    }
    assert!(stream.set(6));
    assert_eq!(stream.peek_for(1), "");
    assert!(stream.set(0));
    assert_eq!(stream.peek_for(2), "a🍆");
}

#[test]
fn encoded_length_counts_bytes() {
    assert_eq!(encoded_len(""), 0);
    assert_eq!(encoded_len("abc"), 3);
    assert_eq!(encoded_len("añ🍆"), 7);
}
