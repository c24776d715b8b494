use deet::factors::{is_prime, prime_factors};
use deet::hangman::{pick_word, HangmanGame};
use deet::linked_list::LinkedList;
use deet::pmap::fill_by_index;
use deet::procinfo::{OpenFile, Process};
use deet::wc::count_text;

#[test]
fn test_count_text() {
    let lines = vec!["hello world".to_string(), "foo".to_string()];
    // The line endings are never seen, so a run ending at a line break
    // continues into the next line as one word.
    assert_eq!(count_text(&lines), (2, 2, 13));
}

#[test]
fn test_count_text_spaces() {
    let lines = vec!["a b ".to_string(), "c".to_string()];
    assert_eq!(count_text(&lines), (2, 3, 3));
    let empty: Vec<String> = vec![];
    assert_eq!(count_text(&empty), (0, 0, 0));
}

#[test]
fn test_is_prime() {
    assert!(!is_prime(0));
    assert!(!is_prime(1));
    assert!(is_prime(2));
    assert!(is_prime(3));
    assert!(!is_prime(4));
    assert!(!is_prime(9));
    assert!(is_prime(17));
    assert!(!is_prime(1000000));
}

#[test]
fn test_prime_factors() {
    assert_eq!(prime_factors(12), vec![2, 2, 3]);
    assert_eq!(prime_factors(17), vec![17]);
    assert_eq!(prime_factors(100), vec![2, 2, 5, 5]);
    assert_eq!(prime_factors(2), vec![2]);
    assert_eq!(prime_factors(97 * 89), vec![89, 97]);
}

#[test]
fn test_linked_list_ops() {
    let mut list: LinkedList<u32> = LinkedList::new();
    assert!(list.is_empty());
    assert_eq!(list.get_size(), 0);
    list.push_front(1);
    list.push_front(2);
    list.push_front(3);
    assert_eq!(list.get_size(), 3);
    assert!(!list.is_empty());
    assert_eq!(list.pop_front(), Some(3));
    assert_eq!(list.pop_front(), Some(2));
    assert_eq!(list.get_size(), 1);
    assert_eq!(list.pop_front(), Some(1));
    assert_eq!(list.pop_front(), None);
    assert!(list.is_empty());
}

#[test]
fn test_linked_list_iter() {
    let mut list: LinkedList<i32> = LinkedList::new();
    list.push_front(30);
    list.push_front(20);
    list.push_front(10);
    let mut it = list.iter();
    assert_eq!(it.next(), Some(&10));
    assert_eq!(it.next(), Some(&20));
    assert_eq!(it.next(), Some(&30));
    assert_eq!(it.next(), None);
}

#[test]
fn test_list_open_files_all_present() {
    let process = Process::new(42, 1, "demo".to_string());
    let mut entries = vec![
        (0, Some(OpenFile::new("<stdin>".to_string(), "read".to_string(), 0))),
        (1, Some(OpenFile::new("<stdout>".to_string(), "write".to_string(), 5))),
    ];
    let listing = process.list_open_files(&mut entries).unwrap();
    assert_eq!(listing.len(), 2);
    assert_eq!(listing[0].0, 0);
    assert_eq!(listing[0].1.name, "<stdin>".to_string());
    assert_eq!(listing[1].0, 1);
    assert_eq!(listing[1].1.cursor, 5);
}

#[test]
fn test_list_open_files_missing_record() {
    let process = Process::new(42, 1, "demo".to_string());
    let mut entries = vec![
        (0, Some(OpenFile::new("<stdin>".to_string(), "read".to_string(), 0))),
        (3, None),
    ];
    assert!(process.list_open_files(&mut entries).is_none());
}

#[test]
fn test_hangman_round() {
    let mut game = HangmanGame::new(vec!['a', 'b', 'c'], 5);
    assert_eq!(game.guesses_left(), 5);
    assert!(!game.won());
    assert_eq!(game.masked(), vec!['-', '-', '-']);
    assert!(game.guess('b'));
    assert_eq!(game.guesses_left(), 5);
    assert_eq!(game.masked(), vec!['-', 'b', '-']);
    assert!(!game.guess('z'));
    assert_eq!(game.guesses_left(), 4);
    assert!(game.guess('a'));
    assert!(game.guess('c'));
    assert!(game.won());
    assert_eq!(game.masked(), vec!['a', 'b', 'c']);
    assert_eq!(game.guessed_letters(), &vec!['b', 'z', 'a', 'c']);
}

#[test]
fn test_hangman_repeated_guess() {
    let mut game = HangmanGame::new(vec!['a', 'a'], 3);
    assert!(game.guess('a'));
    assert!(game.won());
    assert!(game.guess('a'));
    // A repeated letter is recorded once.
    assert_eq!(game.guessed_letters(), &vec!['a']);
}

#[test]
fn test_pick_word() {
    let words = vec!["alpha".to_string(), "beta".to_string()];
    let w = pick_word(&words).unwrap();
    assert!(w == "alpha" || w == "beta");
    let empty: Vec<String> = vec![];
    assert!(pick_word(&empty).is_none());
}

#[test]
fn test_fill_by_index() {
    let mut pairs = vec![(2usize, 30u32), (0, 10), (1, 20)];
    assert_eq!(fill_by_index(3, &mut pairs), Some(vec![10, 20, 30]));
    let mut gap = vec![(0usize, 5u32)];
    assert_eq!(fill_by_index(2, &mut gap), None);
    let mut dup = vec![(0usize, 1u32), (0, 2)];
    assert_eq!(fill_by_index(1, &mut dup), Some(vec![2]));
}

#[test]
fn test_linked_list_eq() {
    let mut a: LinkedList<i32> = LinkedList::new();
    let mut b: LinkedList<i32> = LinkedList::new();
    assert!(a == b);
    a.push_front(1);
    assert!(a != b);
    b.push_front(1);
    assert!(a == b);
    a.push_front(2);
    b.push_front(3);
    assert!(a != b);
}

#[test]
fn test_linked_list_clone() {
    let mut a: LinkedList<i32> = LinkedList::new();
    a.push_front(7);
    a.push_front(8);
    let b = a.clone();
    assert!(a == b);
    assert_eq!(b.get_size(), 2);
}
