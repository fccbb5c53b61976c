use raytracer::path::{Event, PathBudget, Step};

#[test]
fn spent_budget_ends_black() {
    let mut b = PathBudget::new(0);
    assert!(b.spent());
    assert_eq!(b.next(Event::Scattered), Step::Black);
    assert_eq!(b.next(Event::Miss), Step::Black);
    assert_eq!(b.remaining, 0);
}

#[test]
fn terminal_events() {
    let mut b = PathBudget::new(10);
    assert!(!b.spent());
    assert_eq!(b.next(Event::Miss), Step::Background);
    assert_eq!(b.next(Event::Absorbed), Step::Black);
    assert_eq!(b.next(Event::Emitted), Step::Emission);
    assert_eq!(b.remaining, 10);
}

#[test]
fn scattering_spends_the_budget() {
    let mut b = PathBudget::new(3);
    assert_eq!(b.next(Event::Scattered), Step::Bounce(2));
    assert_eq!(b.next(Event::Scattered), Step::Bounce(1));
    assert_eq!(b.next(Event::Scattered), Step::Bounce(0));
    assert!(b.spent());
    assert_eq!(b.next(Event::Scattered), Step::Black);
}

#[test]
fn a_path_bounces_at_most_its_budget() {
    let max = 5;
    let mut b = PathBudget::new(max);
    let mut bounces = 0;
    while !b.spent() {
        match b.next(Event::Scattered) {
            Step::Bounce(_) => bounces += 1,
            _ => break,
        }
    }
    assert_eq!(bounces, max);
}
