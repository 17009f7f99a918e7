use valve::port::{generate_random_port, PortSearch, MAX_PORT, MIN_PORT};

fn trying(search: PortSearch) -> u16 {
    match search {
        PortSearch::Trying { port } => port,
        _ => panic!("no candidate"),
    }
}

#[test]
fn candidates_are_unprivileged_and_differ() {
    let mut seen = Vec::new();
    for _ in 0..200 {
        let port = trying(generate_random_port());
        assert!((MIN_PORT..=MAX_PORT).contains(&port));
        seen.push(port);
    }
    assert!(seen.iter().any(|p| *p != seen[0]));
}

#[test]
fn free_candidate_is_found() {
    let search = PortSearch::Trying { port: 5000 };
    assert_eq!(search.answered(true), PortSearch::Found { port: 5000 });
}

#[test]
fn taken_candidate_is_passed_over() {
    let search = PortSearch::Trying { port: 5000 }.answered(false);
    assert_eq!(search, PortSearch::Drawing);
    assert_eq!(search.drawn(6000), PortSearch::Trying { port: 6000 });
    assert!(trying(search.draw()) >= 1024);
}

#[test]
fn nothing_is_drawn_unless_it_is_due() {
    let found = PortSearch::Found { port: 5000 };
    assert_eq!(found.draw(), found);
    assert_eq!(found.drawn(6000), found);
    assert_eq!(found.answered(false), found);
    let trying = PortSearch::Trying { port: 5000 };
    assert_eq!(trying.draw(), trying);
    assert_eq!(PortSearch::Drawing.answered(true), PortSearch::Drawing);
}

#[test]
fn first_free_port_is_taken() {
    let search = PortSearch::Drawing
        .drawn(2000)
        .answered(false)
        .drawn(3000)
        .answered(false)
        .drawn(4000)
        .answered(true)
        .drawn(5000)
        .answered(false);
    assert_eq!(search, PortSearch::Found { port: 4000 });
}
