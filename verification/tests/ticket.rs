use workshop::ticket::{parse_ticket, Day};

#[test]
fn empty_ticket() {
    assert!(parse_ticket("").is_none());
}

#[test]
fn valid_ticket() {
    let ticket = parse_ticket("Titanic;Monday;Mark Rousskov").expect("ticket expected");
    assert!(matches!(ticket.movie, "Titanic"));
    assert!(matches!(ticket.day, Day::Monday));
    assert!(matches!(ticket.visitor, Some("Mark Rousskov")));
}

#[test]
fn anonymous_visitor() {
    let ticket = parse_ticket("Armageddon;Tuesday;").expect("ticket expected");
    assert!(matches!(ticket.movie, "Armageddon"));
    assert!(matches!(ticket.day, Day::Tuesday));
    assert!(ticket.visitor.is_none());
}

#[test]
fn anonymous_visitor_no_semicolon() {
    let ticket = parse_ticket("The Dark Knight;Saturday").expect("ticket expected");
    assert!(matches!(ticket.movie, "The Dark Knight"));
    assert!(matches!(ticket.day, Day::Saturday));
    assert!(ticket.visitor.is_none());
}

#[test]
fn invalid_movie_name() {
    assert!(parse_ticket("Scott Pilgrim Vs. The World;Monday;Theresa June").is_none());
}

#[test]
fn invalid_visitor_name() {
    assert!(parse_ticket("Groundhog Day;Friday;Adéla Nováková").is_none());
}

#[test]
fn empty_day() {
    assert!(parse_ticket("The Terminator;;Jules Verne").is_none());
}

#[test]
fn missing_day() {
    assert!(parse_ticket("Black Panther;Martina Novakova").is_none());
}

#[test]
fn invalid_day() {
    assert!(parse_ticket("Shaun Of The Dead;yesterday;Martin Scorcese").is_none());
}

#[test]
fn weird_day_case() {
    let ticket = parse_ticket("Psycho;wedNEsDAy;Gareth Bail").expect("ticket expected");
    assert!(matches!(ticket.movie, "Psycho"));
    assert!(matches!(ticket.day, Day::Wednesday));
    assert!(matches!(ticket.visitor, Some("Gareth Bail")));
}

#[test]
fn trailing_data() {
    assert!(parse_ticket(
        "Eternal Sunshine Of The Spotless Mind;sunday;Arnold Schwarzenegger ;00"
    )
    .is_none());
}

#[test]
fn nonstatic_lifetime() {
    let input = String::from("Batman;wednesDAY;Julia Roberts");
    let ticket = parse_ticket(&input).expect("ticket expected");
    assert!(matches!(ticket.movie, "Batman"));
    assert!(matches!(ticket.day, Day::Wednesday));
    assert!(matches!(ticket.visitor, Some("Julia Roberts")));
}
