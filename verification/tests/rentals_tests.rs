use http_rust::rentals::{booking_public, Booking, DeleteError, RentalSystem, SignupError};

fn signup(sys: &mut RentalSystem, name: &str) -> u64 {
    sys.signup(Some(name.to_string()), Some("pw".to_string())).ok().unwrap()
}

#[test]
fn signup_assigns_ids_and_refuses_duplicates() {
    let mut sys = RentalSystem::new();
    assert_eq!(signup(&mut sys, "ann"), 1);
    assert_eq!(signup(&mut sys, "bob"), 2);
    assert!(matches!(
        sys.signup(Some("ann".to_string()), Some("x".to_string())),
        Err(SignupError::UserExists)
    ));
    assert!(matches!(sys.signup(None, Some("x".to_string())), Err(SignupError::InvalidData)));
    assert!(matches!(sys.signup(Some("cy".to_string()), None), Err(SignupError::InvalidData)));
    assert_eq!(sys.list_users().len(), 2);
    assert_eq!(sys.list_users()[1].username, "bob");
}

#[test]
fn booking_ids_start_at_101_and_cost_is_days_times_rent() {
    let mut sys = RentalSystem::new();
    signup(&mut sys, "ann");
    let r = sys.create_booking("1", "Civic".to_string(), 3, 40).unwrap();
    assert_eq!((r.booking_id, r.total_cost), (101, 120));
    let r = sys.create_booking("1", "Golf".to_string(), 2, 50).unwrap();
    assert_eq!((r.booking_id, r.total_cost), (102, 100));
    let b = &sys.list_users()[0].bookings[0];
    assert_eq!(b.status, "booked");
    assert_eq!(b.total_cost, 120);
}

#[test]
fn booking_for_unknown_user_is_refused() {
    let mut sys = RentalSystem::new();
    signup(&mut sys, "ann");
    assert!(sys.create_booking("2", "Civic".to_string(), 1, 1).is_none());
    assert!(sys.create_booking("x", "Civic".to_string(), 1, 1).is_none());
    assert!(sys.create_booking("", "Civic".to_string(), 1, 1).is_none());
    assert!(sys.list_users()[0].bookings.is_empty());
    let r = sys.create_booking("1", "Civic".to_string(), 1, 1).unwrap();
    assert_eq!(r.booking_id, 101);
}

#[test]
fn public_view_hides_total_cost() {
    let b = Booking {
        booking_id: 7,
        car_name: "Civic".to_string(),
        days: 2,
        rent_per_day: 10,
        status: "booked".to_string(),
        total_cost: 20,
    };
    let p = booking_public(&b);
    assert_eq!((p.booking_id, p.car_name.as_str(), p.days, p.rent_per_day, p.status.as_str()),
        (7, "Civic", 2, 10, "booked"));
}

#[test]
fn lists_and_finds_bookings() {
    let mut sys = RentalSystem::new();
    signup(&mut sys, "ann");
    sys.create_booking("1", "Civic".to_string(), 3, 40);
    let bs = sys.get_user_bookings("1").unwrap();
    assert_eq!(bs.len(), 1);
    assert_eq!(bs[0].car_name, "Civic");
    assert!(sys.get_user_bookings("2").is_none());
    assert!(sys.get_user_bookings("abc").is_none());
    assert_eq!(sys.get_specific_booking("1", "101").unwrap().days, 3);
    assert!(sys.get_specific_booking("1", "102").is_none());
    assert!(sys.get_specific_booking("abc", "101").is_none());
}

#[test]
fn bad_ids_count_as_zero() {
    let mut sys = RentalSystem::new();
    assert!(sys.get_specific_booking("x", "y").is_none());
    assert!(matches!(sys.delete_booking("x", "101"), Err(DeleteError::UserNotFound)));
    assert!(sys.summary("x").is_none());
}

#[test]
fn update_recomputes_cost() {
    let mut sys = RentalSystem::new();
    signup(&mut sys, "ann");
    sys.create_booking("1", "Civic".to_string(), 3, 40);
    let p = sys.update_booking("1", "101", None, Some(5), None).unwrap();
    assert_eq!((p.days, p.rent_per_day, p.car_name.as_str()), (5, 40, "Civic"));
    assert_eq!(sys.list_users()[0].bookings[0].total_cost, 200);
    let p = sys.update_booking("1", "101", Some("Golf".to_string()), None, Some(10)).unwrap();
    assert_eq!((p.days, p.rent_per_day, p.car_name.as_str()), (5, 10, "Golf"));
    assert_eq!(sys.list_users()[0].bookings[0].total_cost, 50);
    assert!(sys.update_booking("1", "999", None, Some(1), None).is_none());
}

#[test]
fn status_updates() {
    let mut sys = RentalSystem::new();
    signup(&mut sys, "ann");
    sys.create_booking("1", "Civic".to_string(), 3, 40);
    assert!(sys.update_status("1", "101", "returned".to_string()));
    assert_eq!(sys.get_specific_booking("1", "101").unwrap().status, "returned");
    assert!(!sys.update_status("2", "101", "x".to_string()));
    assert_eq!(sys.list_users()[0].bookings[0].total_cost, 120);
}

#[test]
fn delete_and_errors() {
    let mut sys = RentalSystem::new();
    signup(&mut sys, "ann");
    sys.create_booking("1", "Civic".to_string(), 3, 40);
    sys.create_booking("1", "Golf".to_string(), 1, 30);
    assert!(matches!(sys.delete_booking("1", "999"), Err(DeleteError::BookingNotFound)));
    assert!(matches!(sys.delete_booking("2", "101"), Err(DeleteError::UserNotFound)));
    assert!(sys.delete_booking("1", "101").is_ok());
    assert!(sys.get_specific_booking("1", "101").is_none());
    assert_eq!(sys.get_user_bookings("1").unwrap().len(), 1);
    assert!(matches!(sys.delete_booking("1", "101"), Err(DeleteError::BookingNotFound)));
}

#[test]
fn summary_sums_costs() {
    let mut sys = RentalSystem::new();
    signup(&mut sys, "ann");
    sys.create_booking("1", "Civic".to_string(), 3, 40);
    sys.create_booking("1", "Golf".to_string(), 1, 30);
    let s = sys.summary("1").unwrap();
    assert_eq!((s.user_id, s.username.as_str(), s.total_bookings, s.total_amount_spent),
        (1, "ann", 2, 150));
    assert!(sys.summary("2").is_none());
}

#[test]
fn costs_stay_days_times_rent() {
    let mut sys = RentalSystem::new();
    signup(&mut sys, "ann");
    signup(&mut sys, "bob");
    sys.create_booking("1", "A".to_string(), 3, 40);
    sys.create_booking("2", "B".to_string(), 7, 9);
    sys.update_booking("2", "102", None, Some(2), Some(11));
    sys.update_status("1", "101", "late".to_string());
    sys.create_booking("1", "C".to_string(), 4, 4);
    sys.delete_booking("1", "103");
    for u in sys.list_users() {
        for b in &u.bookings {
            assert_eq!(b.total_cost, b.days * b.rent_per_day);
        }
    }
}
