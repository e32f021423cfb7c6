use std::path::PathBuf;

use namegen::corpus::{random_entry, read_entries, Category, Corpus};
use rand::rngs::StdRng;
use rand::SeedableRng;

fn list(words: &[&str]) -> Vec<String> {
    words.iter().map(|word| word.to_string()).collect()
}

#[test]
fn entries_are_the_lines_of_the_file() {
    assert_eq!(read_entries("wolf\nfox\nbear\n"), list(&["wolf", "fox", "bear"]));
}

#[test]
fn last_line_needs_no_terminator() {
    assert_eq!(read_entries("wolf\nfox"), list(&["wolf", "fox"]));
}

#[test]
fn blank_lines_are_skipped() {
    assert_eq!(read_entries("\n\nwolf\n\n\nfox\n\n"), list(&["wolf", "fox"]));
}

#[test]
fn empty_file_has_no_entries() {
    assert_eq!(read_entries(""), Vec::<String>::new());
    assert_eq!(read_entries("\n"), Vec::<String>::new());
    assert_eq!(read_entries("\r\n\r\n"), Vec::<String>::new());
}

#[test]
fn carriage_return_belongs_to_the_terminator() {
    assert_eq!(read_entries("wolf\r\nfox\r\n"), list(&["wolf", "fox"]));
}

#[test]
fn carriage_return_stays_without_line_feed() {
    assert_eq!(read_entries("wolf\r\nfox\r"), list(&["wolf", "fox\r"]));
    assert_eq!(read_entries("a\rb\n"), list(&["a\rb"]));
    assert_eq!(read_entries("a\r\r\n"), list(&["a\r"]));
}

#[test]
fn entries_keep_spaces_and_other_scripts() {
    assert_eq!(read_entries(" grey wolf \nžába\n"), list(&[" grey wolf ", "žába"]));
}

#[test]
fn entries_agree_with_std_lines() {
    let texts = ["", "a", "a\n", "\na", "a\n\nb", "a\r\nb", "\r\n", "x\r\r\ny", "\n\n\n"];
    for text in texts {
        let expected: Vec<String> =
            text.lines().filter(|line| !line.is_empty()).map(|line| line.to_string()).collect();
        assert_eq!(read_entries(text), expected);
    }
}

#[test]
fn category_names_are_the_file_names() {
    assert_eq!(Category::Noun.name(), "noun");
    assert_eq!(Category::Adjective.name(), "adjective");
    assert_eq!(Category::Color.name(), "color");
}

#[test]
fn new_corpus_holds_nothing() {
    let corpus = Corpus::new(PathBuf::from("/somewhere/lists"));
    assert_eq!(corpus.directory(), &PathBuf::from("/somewhere/lists"));
    assert!(!corpus.is_loaded(Category::Noun));
    assert!(!corpus.is_loaded(Category::Adjective));
    assert!(!corpus.is_loaded(Category::Color));
    let mut rng = StdRng::seed_from_u64(1);
    assert_eq!(corpus.get(Category::Noun, &mut rng), None);
    assert_eq!(corpus.entry(Category::Noun, 0), None);
}

#[test]
fn loading_one_category_leaves_the_others() {
    let mut corpus = Corpus::new(PathBuf::new());
    corpus.load(Category::Adjective, list(&["swift", "sly"]));
    assert!(corpus.is_loaded(Category::Adjective));
    assert!(!corpus.is_loaded(Category::Noun));
    assert!(!corpus.is_loaded(Category::Color));
    assert_eq!(corpus.entry(Category::Adjective, 0), Some("swift"));
    assert_eq!(corpus.entry(Category::Adjective, 1), Some("sly"));
    assert_eq!(corpus.entry(Category::Adjective, 2), None);
}

#[test]
fn loaded_list_is_never_replaced() {
    let mut corpus = Corpus::new(PathBuf::new());
    corpus.load(Category::Color, list(&["red"]));
    corpus.load(Category::Color, list(&["blue", "green"]));
    assert_eq!(corpus.entry(Category::Color, 0), Some("red"));
    assert_eq!(corpus.entry(Category::Color, 1), None);
}

#[test]
fn single_word_is_always_drawn() {
    let mut corpus = Corpus::new(PathBuf::new());
    corpus.load(Category::Noun, list(&["ox"]));
    let mut rng = StdRng::seed_from_u64(42);
    for _ in 0..50 {
        assert_eq!(corpus.get(Category::Noun, &mut rng), Some("ox"));
    }
}

#[test]
fn drawn_word_comes_from_the_list() {
    let words = list(&["wolf", "fox", "bear", "lynx"]);
    let mut corpus = Corpus::new(PathBuf::new());
    corpus.load(Category::Noun, words.clone());
    let mut rng = StdRng::seed_from_u64(7);
    let mut seen = [false; 4];
    for _ in 0..400 {
        let word = corpus.get(Category::Noun, &mut rng).unwrap();
        let index = words.iter().position(|entry| entry == word).unwrap();
        seen[index] = true;
    }
    assert_eq!(seen, [true; 4]);
}

#[test]
fn random_entry_draws_from_the_whole_list() {
    let words = list(&["a", "b", "c"]);
    let mut rng = StdRng::seed_from_u64(3);
    let mut seen = [false; 3];
    for _ in 0..300 {
        let word = random_entry(&mut rng, &words);
        let index = words.iter().position(|entry| entry == word).unwrap();
        seen[index] = true;
    }
    assert_eq!(seen, [true; 3]);
}

#[test]
fn same_seed_gives_the_same_draws() {
    let words = list(&["a", "b", "c", "d", "e", "f", "g", "h"]);
    let mut first = StdRng::seed_from_u64(99);
    let mut second = StdRng::seed_from_u64(99);
    for _ in 0..100 {
        assert_eq!(random_entry(&mut first, &words), random_entry(&mut second, &words));
    }
}
