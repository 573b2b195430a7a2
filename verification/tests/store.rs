use haiku::haiku::Haiku;
use haiku::store::{pick, same_haiku, save_into};

fn haiku(n: u32) -> Haiku {
    match n {
        1 => Haiku::new(
            "an old silent pond",
            "a frog jumps into the pond",
            "splash silence again",
        ),
        _ => Haiku::new(
            "i walked to the store",
            "wanted a little table",
            "whole apple loved much",
        ),
    }
    .expect("fixture haiku should be valid 5-7-5")
}

#[test]
fn saving_appends_in_order() {
    let mut all = Vec::new();
    save_into(&mut all, haiku(1));
    save_into(&mut all, haiku(2));
    assert_eq!(all, vec![haiku(1), haiku(2)]);
}

#[test]
fn saving_the_same_haiku_again_does_not_duplicate_it() {
    let mut all = vec![haiku(1), haiku(2)];
    save_into(&mut all, haiku(1));
    save_into(&mut all, haiku(2));
    assert_eq!(all, vec![haiku(1), haiku(2)]);
}

#[test]
fn picking_from_an_empty_collection_gives_none() {
    assert_eq!(pick(&Vec::new(), 12345), None);
}

#[test]
fn picking_returns_a_saved_haiku() {
    let all = vec![haiku(1)];
    assert_eq!(pick(&all, 987654321), Some(haiku(1)));
    let all = vec![haiku(1), haiku(2)];
    assert_eq!(pick(&all, 7), Some(haiku(2)));
    assert_eq!(pick(&all, 8), Some(haiku(1)));
}

#[test]
fn same_haiku_compares_lines() {
    assert!(same_haiku(&haiku(1), &haiku(1)));
    assert!(!same_haiku(&haiku(1), &haiku(2)));
}
