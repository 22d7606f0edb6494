use http_rust::tickets::{default_movies, valid_email, BookingError, BookingStatus, BookingSystem,
    SignupError};

fn signup(sys: &mut BookingSystem, name: &str, email: &str) -> u32 {
    sys.signup(Some(name.to_string()), Some(email.to_string()), Some("pw".to_string())).ok().unwrap()
}

#[test]
fn default_movies_content() {
    let ms = default_movies();
    assert_eq!(ms.len(), 3);
    assert_eq!((ms[0].id, ms[0].title.as_str(), ms[0].genre.as_str(), ms[0].duration),
        (1, "Inception", "Sci-Fi", 148));
    assert_eq!((ms[1].id, ms[1].title.as_str(), ms[1].genre.as_str(), ms[1].duration),
        (2, "The Dark Knight", "Action", 152));
    assert_eq!((ms[2].id, ms[2].title.as_str(), ms[2].genre.as_str(), ms[2].duration),
        (3, "Interstellar", "Sci-Fi", 169));
    let shows: Vec<(u32, &str, u32, u32)> = ms
        .iter()
        .flat_map(|m| m.shows.iter())
        .map(|s| (s.show_id, s.time.as_str(), s.price_per_seat, s.available_seats))
        .collect();
    assert_eq!(shows, vec![
        (101, "10:00 AM", 200, 50),
        (102, "2:00 PM", 250, 50),
        (103, "6:00 PM", 300, 50),
        (201, "11:00 AM", 200, 50),
        (202, "3:00 PM", 250, 50),
        (203, "7:00 PM", 300, 50),
        (301, "12:00 PM", 250, 50),
        (302, "5:00 PM", 300, 50),
    ]);
}

#[test]
fn email_check() {
    assert!(valid_email("a@b.c"));
    assert!(valid_email("john.doe@mail.example.com"));
    assert!(!valid_email("ab.c"));
    assert!(!valid_email("@b.c"));
    assert!(!valid_email("a@@b.c"));
    assert!(!valid_email("a@b@c.d"));
    assert!(!valid_email("a@bc"));
    assert!(!valid_email("a@.bc"));
    assert!(!valid_email("a@bc."));
    assert!(!valid_email("a@"));
    assert!(!valid_email(""));
    assert!(valid_email("é@x.y"));
}

#[test]
fn signup_checks_input_and_duplicates() {
    let mut sys = BookingSystem::new();
    assert_eq!(signup(&mut sys, "ann", "ann@x.io"), 1);
    assert_eq!(signup(&mut sys, "bob", "bob@x.io"), 2);
    assert!(matches!(
        sys.signup(Some("a".to_string()), Some("ann@x.io".to_string()), Some("p".to_string())),
        Err(SignupError::UserExists)
    ));
    assert!(matches!(
        sys.signup(Some("a".to_string()), Some("bad".to_string()), Some("p".to_string())),
        Err(SignupError::InvalidInput)
    ));
    assert!(matches!(
        sys.signup(None, Some("c@x.io".to_string()), Some("p".to_string())),
        Err(SignupError::InvalidInput)
    ));
    assert!(matches!(
        sys.signup(Some("c".to_string()), Some("c@x.io".to_string()), None),
        Err(SignupError::InvalidInput)
    ));
    assert_eq!(signup(&mut sys, "ann", "ann2@x.io"), 3);
}

#[test]
fn movies_and_shows_by_id() {
    let sys = BookingSystem::new();
    assert_eq!(sys.list_movies().len(), 3);
    assert_eq!(sys.movie_by_id(2).unwrap().title, "The Dark Knight");
    assert!(sys.movie_by_id(4).is_none());
    let shows = sys.movie_shows(3).unwrap();
    assert_eq!(shows.iter().map(|s| s.show_id).collect::<Vec<_>>(), vec![301, 302]);
    assert!(sys.movie_shows(0).is_none());
}

#[test]
fn booking_takes_seats_and_prices_them() {
    let mut sys = BookingSystem::new();
    signup(&mut sys, "ann", "ann@x.io");
    let c = sys.create_booking(1, 1, 102, 4).ok().unwrap();
    assert_eq!((c.booking_id, c.movie_title.as_str(), c.show_time.as_str(), c.seats, c.total_amount),
        (1001, "Inception", "2:00 PM", 4, 1000));
    assert_eq!(sys.movie_shows(1).unwrap()[1].available_seats, 46);
    let c = sys.create_booking(1, 3, 302, 50).ok().unwrap();
    assert_eq!((c.booking_id, c.total_amount), (1002, 15000));
    assert_eq!(sys.movie_shows(3).unwrap()[1].available_seats, 0);
    let b = sys.get_specific_booking(1, 1001).unwrap();
    assert_eq!((b.movie_id, b.show_id, b.seats, b.total_amount), (1, 102, 4, 1000));
    assert!(b.status == BookingStatus::Confirmed);
}

#[test]
fn booking_errors_in_order() {
    let mut sys = BookingSystem::new();
    assert!(matches!(sys.create_booking(1, 9, 9, 1), Err(BookingError::UserNotFound)));
    signup(&mut sys, "ann", "ann@x.io");
    assert!(matches!(sys.create_booking(1, 9, 9, 1), Err(BookingError::MovieNotFound)));
    assert!(matches!(sys.create_booking(1, 1, 201, 1), Err(BookingError::ShowNotFound)));
    assert!(matches!(sys.create_booking(1, 1, 101, 51), Err(BookingError::NotEnoughSeats)));
    assert_eq!(sys.movie_shows(1).unwrap()[0].available_seats, 50);
    assert!(sys.get_user_bookings(1).unwrap().is_empty());
    let c = sys.create_booking(1, 1, 101, 0).ok().unwrap();
    assert_eq!((c.booking_id, c.total_amount), (1001, 0));
}

#[test]
fn update_adds_seats() {
    let mut sys = BookingSystem::new();
    signup(&mut sys, "ann", "ann@x.io");
    sys.create_booking(1, 2, 203, 2);
    let u = sys.update_booking(1, 1001, 3).ok().unwrap();
    assert_eq!((u.booking_id, u.seats, u.total_amount), (1001, 5, 1500));
    assert_eq!(sys.movie_shows(2).unwrap()[2].available_seats, 45);
    assert!(matches!(sys.update_booking(2, 1001, 1), Err(BookingError::UserNotFound)));
    assert!(matches!(sys.update_booking(1, 1002, 1), Err(BookingError::BookingNotFound)));
    assert!(matches!(sys.update_booking(1, 1001, 46), Err(BookingError::NotEnoughSeats)));
}

#[test]
fn cancel_keeps_seats_taken() {
    let mut sys = BookingSystem::new();
    signup(&mut sys, "ann", "ann@x.io");
    sys.create_booking(1, 1, 103, 5);
    assert!(sys.delete_booking(1, 1001));
    assert!(sys.get_specific_booking(1, 1001).unwrap().status == BookingStatus::Cancelled);
    assert_eq!(sys.movie_shows(1).unwrap()[2].available_seats, 45);
    assert!(!sys.delete_booking(1, 1002));
    assert!(!sys.delete_booking(2, 1001));
}

#[test]
fn summary_counts_and_sums() {
    let mut sys = BookingSystem::new();
    signup(&mut sys, "ann", "ann@x.io");
    sys.create_booking(1, 1, 101, 2);
    sys.create_booking(1, 2, 202, 3);
    sys.create_booking(1, 3, 301, 1);
    sys.delete_booking(1, 1002);
    let s = sys.summary(1).unwrap();
    assert_eq!(s.user_id, 1);
    assert_eq!(s.username, "ann");
    assert_eq!(s.total_bookings, 3);
    assert_eq!(s.total_amount_spent, 400 + 750 + 250);
    assert_eq!((s.confirmed_bookings, s.cancelled_bookings), (2, 1));
    assert_eq!(s.total_seats_booked, 6);
    assert!(sys.summary(2).is_none());
}

#[test]
fn seats_are_free_or_booked() {
    let mut sys = BookingSystem::new();
    signup(&mut sys, "ann", "ann@x.io");
    signup(&mut sys, "bob", "bob@x.io");
    sys.create_booking(1, 1, 101, 7);
    sys.create_booking(2, 1, 101, 3);
    sys.update_booking(1, 1001, 4);
    sys.delete_booking(2, 1002);
    sys.create_booking(2, 1, 102, 10);
    for m in default_movies() {
        for s in &m.shows {
            let free = sys.movie_shows(m.id).unwrap().iter().find(|x| x.show_id == s.show_id).unwrap()
                .available_seats;
            let mut booked = 0;
            for uid in [1, 2] {
                for b in sys.get_user_bookings(uid).unwrap() {
                    if b.movie_id == m.id && b.show_id == s.show_id {
                        booked += b.seats;
                    }
                }
            }
            assert_eq!(free + booked, 50);
        }
    }
}
