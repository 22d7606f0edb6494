//! The car rental service: users sign up, book cars for a number of days,
//! change and cancel bookings, and ask what they spent.

use vstd::prelude::*;
use crate::sequences::{first_match, lemma_first_match, lemma_first_match_at,
    lemma_first_match_none, lemma_filter_take_step, sum_of, lemma_sum_of_take_step,
    lemma_sum_of_prefix};
use crate::text::{parse_u64, spec_parse_u64};

verus! {

/// A car booked for a number of days.
pub struct Booking {
    pub booking_id: u64,
    pub car_name: String,
    pub days: u64,
    pub rent_per_day: u64,
    pub status: String,
    pub total_cost: u64,
}

/// What a `Booking` holds.
pub struct BookingView {
    pub booking_id: u64,
    pub car_name: Seq<char>,
    pub days: u64,
    pub rent_per_day: u64,
    pub status: Seq<char>,
    pub total_cost: u64,
}

impl View for Booking {
    type V = BookingView;

    open spec fn view(&self) -> BookingView {
        BookingView {
            booking_id: self.booking_id,
            car_name: self.car_name@,
            days: self.days,
            rent_per_day: self.rent_per_day,
            status: self.status@,
            total_cost: self.total_cost,
        }
    }
}

impl Booking {
    /// A copy of this booking.
    pub fn duplicate(&self) -> (res: Booking)
        ensures
            res@ == self@,
    {
        Booking {
            booking_id: self.booking_id,
            car_name: self.car_name.clone(),
            days: self.days,
            rent_per_day: self.rent_per_day,
            status: self.status.clone(),
            total_cost: self.total_cost,
        }
    }
}

/// The views of a sequence of bookings.
pub open spec fn bookings_view(s: Seq<Booking>) -> Seq<BookingView> {
    s.map_values(|b: Booking| b@)
}

/// A booking as it is shown to clients: everything but its total cost.
pub struct BookingPublic {
    pub booking_id: u64,
    pub car_name: String,
    pub days: u64,
    pub rent_per_day: u64,
    pub status: String,
}

/// What a `BookingPublic` holds.
pub struct BookingPublicView {
    pub booking_id: u64,
    pub car_name: Seq<char>,
    pub days: u64,
    pub rent_per_day: u64,
    pub status: Seq<char>,
}

impl View for BookingPublic {
    type V = BookingPublicView;

    open spec fn view(&self) -> BookingPublicView {
        BookingPublicView {
            booking_id: self.booking_id,
            car_name: self.car_name@,
            days: self.days,
            rent_per_day: self.rent_per_day,
            status: self.status@,
        }
    }
}

/// What a client is shown of a booking.
pub open spec fn spec_public(b: BookingView) -> BookingPublicView {
    BookingPublicView {
        booking_id: b.booking_id,
        car_name: b.car_name,
        days: b.days,
        rent_per_day: b.rent_per_day,
        status: b.status,
    }
}

/// A registered user and the user's bookings.
pub struct User {
    pub id: u64,
    pub username: String,
    pub password: String,
    pub bookings: Vec<Booking>,
}

/// What a `User` holds.
pub struct UserView {
    pub id: u64,
    pub username: Seq<char>,
    pub password: Seq<char>,
    pub bookings: Seq<BookingView>,
}

impl View for User {
    type V = UserView;

    open spec fn view(&self) -> UserView {
        UserView {
            id: self.id,
            username: self.username@,
            password: self.password@,
            bookings: bookings_view(self.bookings@),
        }
    }
}

/// The views of a sequence of users.
pub open spec fn users_view(s: Seq<User>) -> Seq<UserView> {
    s.map_values(|u: User| u@)
}

/// The whole state of the service.
pub struct RentalSystem {
    next_user_id: u64,
    next_booking_id: u64,
    users: Vec<User>,
}

/// What a `RentalSystem` holds.
pub struct RentalSystemView {
    pub next_user_id: u64,
    pub next_booking_id: u64,
    pub users: Seq<UserView>,
}

impl View for RentalSystem {
    type V = RentalSystemView;

    closed spec fn view(&self) -> RentalSystemView {
        RentalSystemView {
            next_user_id: self.next_user_id,
            next_booking_id: self.next_booking_id,
            users: users_view(self.users@),
        }
    }
}

/// Why a sign-up was refused.
#[derive(PartialEq, Eq, Structural)]
pub enum SignupError {
    /// The username or the password is missing.
    InvalidData,
    /// A user with that username exists.
    UserExists,
}

/// Why a cancellation was refused.
#[derive(PartialEq, Eq, Structural)]
pub enum DeleteError {
    UserNotFound,
    BookingNotFound,
}

/// What a new booking reports.
pub struct BookingReceipt {
    pub booking_id: u64,
    pub total_cost: u64,
}

/// A user's summary.
pub struct RentalSummary {
    pub user_id: u64,
    pub username: String,
    pub total_bookings: usize,
    pub total_amount_spent: u64,
}

/// The text that an optional input holds.
pub open spec fn text_of(o: Option<String>) -> Option<Seq<char>> {
    match o {
        Some(s) => Some(s@),
        None => None,
    }
}

/// The id that a path segment spells, 0 where it spells none.
pub open spec fn id_or_zero(text: Seq<char>) -> u64 {
    match spec_parse_u64(text) {
        Some(id) => id,
        None => 0,
    }
}

/// A user with the id `id`.
pub open spec fn user_has_id(id: u64) -> spec_fn(UserView) -> bool {
    |u: UserView| u.id == id
}

/// A user with the username `name`.
pub open spec fn user_has_name(name: Seq<char>) -> spec_fn(UserView) -> bool {
    |u: UserView| u.username == name
}

/// A booking with the id `id`.
pub open spec fn booking_has_id(id: u64) -> spec_fn(BookingView) -> bool {
    |b: BookingView| b.booking_id == id
}

/// A booking with an id other than `id`.
pub open spec fn booking_lacks_id(id: u64) -> spec_fn(BookingView) -> bool {
    |b: BookingView| b.booking_id != id
}

/// The cost that a booking adds to a summary.
pub open spec fn cost_of() -> spec_fn(BookingView) -> int {
    |b: BookingView| b.total_cost as int
}

/// The state a fresh service starts with.
pub open spec fn spec_initial() -> RentalSystemView {
    RentalSystemView { next_user_id: 1, next_booking_id: 101, users: Seq::empty() }
}

/// The outcome of a sign-up: the new state, or why it was refused.
pub open spec fn spec_signup(
    v: RentalSystemView,
    username: Option<Seq<char>>,
    password: Option<Seq<char>>,
) -> Result<RentalSystemView, SignupError> {
    if username is None || password is None {
        Err(SignupError::InvalidData)
    } else if first_match(v.users, user_has_name(username->0)) is Some {
        Err(SignupError::UserExists)
    } else {
        Ok(
            RentalSystemView {
                next_user_id: (v.next_user_id + 1) as u64,
                users: v.users.push(
                    UserView {
                        id: v.next_user_id,
                        username: username->0,
                        password: password->0,
                        bookings: Seq::empty(),
                    },
                ),
                ..v
            },
        )
    }
}

/// The index of the first user with the id that `user_text` spells;
/// `None` where it spells no id or no user has it.
pub open spec fn spec_locate_user(v: RentalSystemView, user_text: Seq<char>) -> Option<int> {
    match spec_parse_u64(user_text) {
        Some(id) => first_match(v.users, user_has_id(id)),
        None => None,
    }
}

/// The outcome of booking a car: the new state and receipt, or `None`
/// where there is no such user.
pub open spec fn spec_create_booking(
    v: RentalSystemView,
    user_text: Seq<char>,
    car_name: Seq<char>,
    days: u64,
    rent_per_day: u64,
) -> Option<(RentalSystemView, BookingReceipt)> {
    match spec_locate_user(v, user_text) {
        None => None,
        Some(ui) => {
            let total = (days * rent_per_day) as u64;
            let b = BookingView {
                booking_id: v.next_booking_id,
                car_name,
                days,
                rent_per_day,
                status: "booked"@,
                total_cost: total,
            };
            let u = v.users[ui];
            Some(
                (
                    RentalSystemView {
                        next_booking_id: (v.next_booking_id + 1) as u64,
                        users: v.users.update(ui, UserView { bookings: u.bookings.push(b), ..u }),
                        ..v
                    },
                    BookingReceipt { booking_id: v.next_booking_id, total_cost: total },
                ),
            )
        },
    }
}

/// A booking that would be made stays within the `u64` range: its cost
/// and the next booking id (beyond it the service fails).
pub open spec fn create_booking_fits(
    v: RentalSystemView,
    user_text: Seq<char>,
    days: u64,
    rent_per_day: u64,
) -> bool {
    spec_locate_user(v, user_text) is Some ==> days * rent_per_day <= u64::MAX
        && v.next_booking_id < u64::MAX
}

/// The indices of the first user with the id `id_or_zero(user_text)` and
/// of that user's first booking with the id `id_or_zero(booking_text)`.
pub open spec fn spec_locate_booking(
    v: RentalSystemView,
    user_text: Seq<char>,
    booking_text: Seq<char>,
) -> Option<(int, int)> {
    match first_match(v.users, user_has_id(id_or_zero(user_text))) {
        None => None,
        Some(ui) => match first_match(
            v.users[ui].bookings,
            booking_has_id(id_or_zero(booking_text)),
        ) {
            None => None,
            Some(bi) => Some((ui, bi)),
        },
    }
}

/// The users after booking `bi` of user `ui` is replaced by `b`.
pub open spec fn spec_replace_booking(
    users: Seq<UserView>,
    ui: int,
    bi: int,
    b: BookingView,
) -> Seq<UserView> {
    users.update(ui, UserView { bookings: users[ui].bookings.update(bi, b), ..users[ui] })
}

/// A booking with the given fields changed and its total cost computed
/// again.
pub open spec fn spec_changed_booking(
    b: BookingView,
    car_name: Option<Seq<char>>,
    days: Option<u64>,
    rent_per_day: Option<u64>,
) -> BookingView {
    let d = match days {
        Some(d) => d,
        None => b.days,
    };
    let r = match rent_per_day {
        Some(r) => r,
        None => b.rent_per_day,
    };
    BookingView {
        car_name: match car_name {
            Some(c) => c,
            None => b.car_name,
        },
        days: d,
        rent_per_day: r,
        total_cost: (d * r) as u64,
        ..b
    }
}

/// A changed booking's cost stays within the `u64` range (beyond it the
/// service fails).
pub open spec fn update_booking_fits(
    v: RentalSystemView,
    user_text: Seq<char>,
    booking_text: Seq<char>,
    days: Option<u64>,
    rent_per_day: Option<u64>,
) -> bool {
    match spec_locate_booking(v, user_text, booking_text) {
        None => true,
        Some((ui, bi)) => {
            let b = v.users[ui].bookings[bi];
            let d = match days {
                Some(d) => d,
                None => b.days,
            };
            let r = match rent_per_day {
                Some(r) => r,
                None => b.rent_per_day,
            };
            d * r <= u64::MAX
        },
    }
}

/// The state after changing a booking; `None` where there is no such
/// booking.
pub open spec fn spec_update_booking(
    v: RentalSystemView,
    user_text: Seq<char>,
    booking_text: Seq<char>,
    car_name: Option<Seq<char>>,
    days: Option<u64>,
    rent_per_day: Option<u64>,
) -> Option<RentalSystemView> {
    match spec_locate_booking(v, user_text, booking_text) {
        None => None,
        Some((ui, bi)) => Some(
            RentalSystemView {
                users: spec_replace_booking(
                    v.users,
                    ui,
                    bi,
                    spec_changed_booking(v.users[ui].bookings[bi], car_name, days, rent_per_day),
                ),
                ..v
            },
        ),
    }
}

/// The state after setting a booking's status; `None` where there is no
/// such booking.
pub open spec fn spec_update_status(
    v: RentalSystemView,
    user_text: Seq<char>,
    booking_text: Seq<char>,
    status: Seq<char>,
) -> Option<RentalSystemView> {
    match spec_locate_booking(v, user_text, booking_text) {
        None => None,
        Some((ui, bi)) => Some(
            RentalSystemView {
                users: spec_replace_booking(
                    v.users,
                    ui,
                    bi,
                    BookingView { status, ..v.users[ui].bookings[bi] },
                ),
                ..v
            },
        ),
    }
}

/// The outcome of deleting a booking: the new state, or why nothing was
/// deleted.
pub open spec fn spec_delete_booking(
    v: RentalSystemView,
    user_text: Seq<char>,
    booking_text: Seq<char>,
) -> Result<RentalSystemView, DeleteError> {
    match first_match(v.users, user_has_id(id_or_zero(user_text))) {
        None => Err(DeleteError::UserNotFound),
        Some(ui) => {
            let u = v.users[ui];
            let id = id_or_zero(booking_text);
            if first_match(u.bookings, booking_has_id(id)) is None {
                Err(DeleteError::BookingNotFound)
            } else {
                Ok(
                    RentalSystemView {
                        users: v.users.update(
                            ui,
                            UserView { bookings: u.bookings.filter(booking_lacks_id(id)), ..u },
                        ),
                        ..v
                    },
                )
            }
        },
    }
}

/// A summary's sum stays within the `u64` range (beyond it the service
/// fails).
pub open spec fn summary_fits(v: RentalSystemView, user_text: Seq<char>) -> bool {
    match first_match(v.users, user_has_id(id_or_zero(user_text))) {
        None => true,
        Some(ui) => sum_of(v.users[ui].bookings, cost_of()) <= u64::MAX,
    }
}

/// Every booking's total cost is its days times its rent per day.
pub open spec fn costs_consistent(v: RentalSystemView) -> bool {
    forall|i: int, j: int|
        0 <= i < v.users.len() && 0 <= j < v.users[i].bookings.len() ==> {
            let b = #[trigger] v.users[i].bookings[j];
            b.total_cost == b.days * b.rent_per_day
        }
}

/// No two users share a username.
pub open spec fn usernames_distinct(v: RentalSystemView) -> bool {
    forall|i: int, j: int|
        0 <= i < j < v.users.len() ==> #[trigger] v.users[i].username
            != #[trigger] v.users[j].username
}

/// A fresh service has consistent costs and distinct usernames.
pub proof fn law_initial_consistent()
    ensures
        costs_consistent(spec_initial()),
        usernames_distinct(spec_initial()),
        ids_below_next(spec_initial()),
{
}

/// Signing up keeps costs consistent and never gives a second user a
/// username in use.
pub proof fn law_signup_keeps_invariants(
    v: RentalSystemView,
    username: Option<Seq<char>>,
    password: Option<Seq<char>>,
)
    requires
        spec_signup(v, username, password) is Ok,
    ensures
        costs_consistent(v) ==> costs_consistent(spec_signup(v, username, password)->Ok_0),
        usernames_distinct(v) ==> usernames_distinct(spec_signup(v, username, password)->Ok_0),
{
    let w = spec_signup(v, username, password)->Ok_0;
    lemma_first_match(v.users, user_has_name(username->0));
    assert forall|i: int| 0 <= i < v.users.len() implies #[trigger] w.users[i] == v.users[i] by {}
    assert(w.users[v.users.len() as int].bookings.len() == 0);
    if usernames_distinct(v) {
        assert forall|i: int, j: int| 0 <= i < j < w.users.len() implies #[trigger] w.users[i].username
            != #[trigger] w.users[j].username by {
            assert(w.users[i] == v.users[i]);
            if j == v.users.len() {
                assert(!user_has_name(username->0)(v.users[i]));
            }
        }
    }
    if costs_consistent(v) {
        assert forall|i: int, j: int|
            0 <= i < w.users.len() && 0 <= j < w.users[i].bookings.len() implies {
            let b = #[trigger] w.users[i].bookings[j];
            b.total_cost == b.days * b.rent_per_day
        } by {
            assert(i < v.users.len());
            assert(w.users[i] == v.users[i]);
        }
    }
}

/// A new booking costs its days times its rent per day: costs stay
/// consistent.
pub proof fn law_create_booking_keeps_costs(
    v: RentalSystemView,
    user_text: Seq<char>,
    car_name: Seq<char>,
    days: u64,
    rent_per_day: u64,
)
    requires
        costs_consistent(v),
        create_booking_fits(v, user_text, days, rent_per_day),
        spec_create_booking(v, user_text, car_name, days, rent_per_day) is Some,
    ensures
        costs_consistent((spec_create_booking(v, user_text, car_name, days, rent_per_day)->0).0),
        usernames_distinct(v) ==> usernames_distinct(
            (spec_create_booking(v, user_text, car_name, days, rent_per_day)->0).0,
        ),
{
    let w = (spec_create_booking(v, user_text, car_name, days, rent_per_day)->0).0;
    let id = spec_parse_u64(user_text)->0;
    lemma_first_match(v.users, user_has_id(id));
    let ui = spec_locate_user(v, user_text)->0;
    assert forall|i: int, j: int|
        0 <= i < w.users.len() && 0 <= j < w.users[i].bookings.len() implies {
        let b = #[trigger] w.users[i].bookings[j];
        b.total_cost == b.days * b.rent_per_day
    } by {
        if i != ui {
            assert(w.users[i] == v.users[i]);
        } else if j < v.users[i].bookings.len() {
            assert(w.users[i].bookings[j] == v.users[i].bookings[j]);
        }
    }
    assert forall|i: int| 0 <= i < w.users.len() implies #[trigger] w.users[i].username
        == v.users[i].username by {}
}

/// A changed booking's cost is computed again: costs stay consistent.
pub proof fn law_update_booking_keeps_costs(
    v: RentalSystemView,
    user_text: Seq<char>,
    booking_text: Seq<char>,
    car_name: Option<Seq<char>>,
    days: Option<u64>,
    rent_per_day: Option<u64>,
)
    requires
        costs_consistent(v),
        update_booking_fits(v, user_text, booking_text, days, rent_per_day),
        spec_update_booking(v, user_text, booking_text, car_name, days, rent_per_day) is Some,
    ensures
        costs_consistent(
            spec_update_booking(v, user_text, booking_text, car_name, days, rent_per_day)->0,
        ),
        usernames_distinct(v) ==> usernames_distinct(
            spec_update_booking(v, user_text, booking_text, car_name, days, rent_per_day)->0,
        ),
{
    let w = spec_update_booking(v, user_text, booking_text, car_name, days, rent_per_day)->0;
    lemma_first_match(v.users, user_has_id(id_or_zero(user_text)));
    let (ui, bi) = spec_locate_booking(v, user_text, booking_text)->0;
    lemma_first_match(v.users[ui].bookings, booking_has_id(id_or_zero(booking_text)));
    assert forall|i: int, j: int|
        0 <= i < w.users.len() && 0 <= j < w.users[i].bookings.len() implies {
        let b = #[trigger] w.users[i].bookings[j];
        b.total_cost == b.days * b.rent_per_day
    } by {
        if i != ui {
            assert(w.users[i] == v.users[i]);
        } else if j != bi {
            assert(w.users[i].bookings[j] == v.users[i].bookings[j]);
        }
    }
    assert forall|i: int| 0 <= i < w.users.len() implies #[trigger] w.users[i].username
        == v.users[i].username by {}
}

/// Setting a status leaves every cost as it was: costs stay consistent.
pub proof fn law_update_status_keeps_costs(
    v: RentalSystemView,
    user_text: Seq<char>,
    booking_text: Seq<char>,
    status: Seq<char>,
)
    requires
        costs_consistent(v),
        spec_update_status(v, user_text, booking_text, status) is Some,
    ensures
        costs_consistent(spec_update_status(v, user_text, booking_text, status)->0),
        usernames_distinct(v) ==> usernames_distinct(
            spec_update_status(v, user_text, booking_text, status)->0,
        ),
{
    let w = spec_update_status(v, user_text, booking_text, status)->0;
    lemma_first_match(v.users, user_has_id(id_or_zero(user_text)));
    let (ui, bi) = spec_locate_booking(v, user_text, booking_text)->0;
    lemma_first_match(v.users[ui].bookings, booking_has_id(id_or_zero(booking_text)));
    assert forall|i: int, j: int|
        0 <= i < w.users.len() && 0 <= j < w.users[i].bookings.len() implies {
        let b = #[trigger] w.users[i].bookings[j];
        b.total_cost == b.days * b.rent_per_day
    } by {
        if i != ui {
            assert(w.users[i] == v.users[i]);
        } else if j != bi {
            assert(w.users[i].bookings[j] == v.users[i].bookings[j]);
        } else {
            assert(w.users[i].bookings[j].total_cost == v.users[i].bookings[j].total_cost);
        }
    }
    assert forall|i: int| 0 <= i < w.users.len() implies #[trigger] w.users[i].username
        == v.users[i].username by {}
}

/// Deleting keeps only bookings that were there: costs stay consistent.
pub proof fn law_delete_booking_keeps_costs(
    v: RentalSystemView,
    user_text: Seq<char>,
    booking_text: Seq<char>,
)
    requires
        costs_consistent(v),
        spec_delete_booking(v, user_text, booking_text) is Ok,
    ensures
        costs_consistent(spec_delete_booking(v, user_text, booking_text)->Ok_0),
        usernames_distinct(v) ==> usernames_distinct(
            spec_delete_booking(v, user_text, booking_text)->Ok_0,
        ),
{
    let w = spec_delete_booking(v, user_text, booking_text)->Ok_0;
    lemma_first_match(v.users, user_has_id(id_or_zero(user_text)));
    let ui = first_match(v.users, user_has_id(id_or_zero(user_text)))->0;
    let bs = v.users[ui].bookings;
    let p = booking_lacks_id(id_or_zero(booking_text));
    assert forall|i: int, j: int|
        0 <= i < w.users.len() && 0 <= j < w.users[i].bookings.len() implies {
        let b = #[trigger] w.users[i].bookings[j];
        b.total_cost == b.days * b.rent_per_day
    } by {
        if i != ui {
            assert(w.users[i] == v.users[i]);
        } else {
            assert(w.users[i].bookings == bs.filter(p));
            assert(bs.filter(p).contains(bs.filter(p)[j]));
            bs.lemma_filter_contains_rev(p, bs.filter(p)[j]);
            let k = choose|k: int| 0 <= k < bs.len() && bs[k] == bs.filter(p)[j];
            assert(v.users[i].bookings[k] == bs[k]);
        }
    }
    assert forall|i: int| 0 <= i < w.users.len() implies #[trigger] w.users[i].username
        == v.users[i].username by {}
}

/// Every user id is below the next user id, and every booking id below the
/// next booking id.
pub open spec fn ids_below_next(v: RentalSystemView) -> bool {
    &&& forall|i: int| 0 <= i < v.users.len() ==> #[trigger] v.users[i].id < v.next_user_id
    &&& forall|i: int, j: int|
        0 <= i < v.users.len() && 0 <= j < v.users[i].bookings.len()
            ==> #[trigger] v.users[i].bookings[j].booking_id < v.next_booking_id
}

/// Signing up keeps ids below the next ones, and the new user is the one
/// found under the id it was given.
pub proof fn law_signup_then_find(
    v: RentalSystemView,
    username: Option<Seq<char>>,
    password: Option<Seq<char>>,
)
    requires
        ids_below_next(v),
        spec_signup(v, username, password) is Ok,
        v.next_user_id < u64::MAX,
    ensures
        ids_below_next(spec_signup(v, username, password)->Ok_0),
        first_match(spec_signup(v, username, password)->Ok_0.users, user_has_id(v.next_user_id))
            == Some(v.users.len() as int),
{
    let w = spec_signup(v, username, password)->Ok_0;
    assert forall|i: int| 0 <= i < v.users.len() implies #[trigger] w.users[i] == v.users[i] by {}
    assert forall|j: int| 0 <= j < v.users.len() implies !user_has_id(v.next_user_id)(
        #[trigger] w.users[j],
    ) by {
        assert(w.users[j] == v.users[j]);
    }
    lemma_first_match_at(w.users, user_has_id(v.next_user_id), v.users.len() as int);
}

/// A new booking keeps ids below the next ones and is the one found under
/// its user and its booking id.
pub proof fn law_create_then_find(
    v: RentalSystemView,
    user_text: Seq<char>,
    car_name: Seq<char>,
    days: u64,
    rent_per_day: u64,
    booking_text: Seq<char>,
)
    requires
        ids_below_next(v),
        create_booking_fits(v, user_text, days, rent_per_day),
        spec_create_booking(v, user_text, car_name, days, rent_per_day) is Some,
        id_or_zero(booking_text) == v.next_booking_id,
    ensures
        ({
            let (w, r) = spec_create_booking(v, user_text, car_name, days, rent_per_day)->0;
            &&& ids_below_next(w)
            &&& spec_locate_booking(w, user_text, booking_text) matches Some((ui, bi)) && w.users[ui].bookings[bi]
                == (BookingView {
                booking_id: r.booking_id,
                car_name,
                days,
                rent_per_day,
                status: "booked"@,
                total_cost: r.total_cost,
            })
        }),
{
    let (w, r) = spec_create_booking(v, user_text, car_name, days, rent_per_day)->0;
    let id = spec_parse_u64(user_text)->0;
    lemma_first_match(v.users, user_has_id(id));
    let ui = spec_locate_user(v, user_text)->0;
    let u = v.users[ui];
    let b = w.users[ui].bookings.last();
    let nu = UserView { bookings: u.bookings.push(b), ..u };
    assert(w.users == v.users.update(ui, nu));
    crate::sequences::lemma_first_match_update(v.users, ui, nu, user_has_id(id));
    assert(id_or_zero(user_text) == id);
    assert forall|j: int| 0 <= j < u.bookings.len() implies !booking_has_id(v.next_booking_id)(
        #[trigger] nu.bookings[j],
    ) by {
        assert(nu.bookings[j] == v.users[ui].bookings[j]);
    }
    lemma_first_match_at(nu.bookings, booking_has_id(v.next_booking_id), u.bookings.len() as int);
    assert forall|i: int, j: int|
        0 <= i < w.users.len() && 0 <= j < w.users[i].bookings.len() implies #[trigger] w.users[i].bookings[j].booking_id
        < w.next_booking_id by {
        if i != ui {
            assert(w.users[i] == v.users[i]);
        } else if j < u.bookings.len() {
            assert(w.users[i].bookings[j] == v.users[i].bookings[j]);
        }
    }
    assert forall|i: int| 0 <= i < w.users.len() implies #[trigger] w.users[i].id < w.next_user_id by {
        if i != ui {
            assert(w.users[i] == v.users[i]);
        }
    }
}

/// Changing, re-statusing and deleting bookings keep ids below the next
/// ones.
pub proof fn law_changes_keep_ids_below_next(
    v: RentalSystemView,
    user_text: Seq<char>,
    booking_text: Seq<char>,
    car_name: Option<Seq<char>>,
    days: Option<u64>,
    rent_per_day: Option<u64>,
    status: Seq<char>,
)
    requires
        ids_below_next(v),
    ensures
        spec_update_booking(v, user_text, booking_text, car_name, days, rent_per_day) matches Some(w)
            ==> ids_below_next(w),
        spec_update_status(v, user_text, booking_text, status) matches Some(w) ==> ids_below_next(w),
        spec_delete_booking(v, user_text, booking_text) matches Ok(w) ==> ids_below_next(w),
{
    lemma_first_match(v.users, user_has_id(id_or_zero(user_text)));
    if let Some(ui) = first_match(v.users, user_has_id(id_or_zero(user_text))) {
        lemma_first_match(v.users[ui].bookings, booking_has_id(id_or_zero(booking_text)));
        if let Some(w) = spec_update_booking(v, user_text, booking_text, car_name, days, rent_per_day) {
            assert forall|i: int, j: int|
                0 <= i < w.users.len() && 0 <= j < w.users[i].bookings.len() implies #[trigger] w.users[i].bookings[j].booking_id
                < w.next_booking_id by {
                if i != ui {
                    assert(w.users[i] == v.users[i]);
                } else {
                    assert(w.users[i].bookings[j].booking_id == v.users[i].bookings[j].booking_id);
                }
            }
            assert forall|i: int| 0 <= i < w.users.len() implies #[trigger] w.users[i].id
                < w.next_user_id by {
                assert(w.users[i].id == v.users[i].id);
            }
        }
        if let Some(w) = spec_update_status(v, user_text, booking_text, status) {
            assert forall|i: int, j: int|
                0 <= i < w.users.len() && 0 <= j < w.users[i].bookings.len() implies #[trigger] w.users[i].bookings[j].booking_id
                < w.next_booking_id by {
                if i != ui {
                    assert(w.users[i] == v.users[i]);
                } else {
                    assert(w.users[i].bookings[j].booking_id == v.users[i].bookings[j].booking_id);
                }
            }
            assert forall|i: int| 0 <= i < w.users.len() implies #[trigger] w.users[i].id
                < w.next_user_id by {
                assert(w.users[i].id == v.users[i].id);
            }
        }
        if let Ok(w) = spec_delete_booking(v, user_text, booking_text) {
            let bs = v.users[ui].bookings;
            let p = booking_lacks_id(id_or_zero(booking_text));
            assert forall|i: int, j: int|
                0 <= i < w.users.len() && 0 <= j < w.users[i].bookings.len() implies #[trigger] w.users[i].bookings[j].booking_id
                < w.next_booking_id by {
                if i != ui {
                    assert(w.users[i] == v.users[i]);
                } else {
                    assert(bs.filter(p).contains(bs.filter(p)[j]));
                    bs.lemma_filter_contains_rev(p, bs.filter(p)[j]);
                    let k = choose|k: int| 0 <= k < bs.len() && bs[k] == bs.filter(p)[j];
                    assert(v.users[i].bookings[k] == bs[k]);
                }
            }
            assert forall|i: int| 0 <= i < w.users.len() implies #[trigger] w.users[i].id
                < w.next_user_id by {
                assert(w.users[i].id == v.users[i].id);
            }
        }
    }
}

/// A user is the first one with the id `uid`.
pub open spec fn is_first_user(users: Seq<UserView>, i: int, uid: u64) -> bool {
    &&& 0 <= i < users.len()
    &&& users[i].id == uid
    &&& forall|k: int| 0 <= k < i ==> #[trigger] users[k].id != uid
}

/// A booking is the first one with the id `bid` in its list.
pub open spec fn is_first_booking(bookings: Seq<BookingView>, j: int, bid: u64) -> bool {
    &&& 0 <= j < bookings.len()
    &&& bookings[j].booking_id == bid
    &&& forall|k: int| 0 <= k < j ==> #[trigger] bookings[k].booking_id != bid
}

/// Deleting a booking touches only the first user with the given id, and
/// of that user's bookings removes exactly those with the given booking id:
/// every other booking stays, nothing new appears, and at least one goes.
pub proof fn law_delete_booking_removes_only_that_id(
    v: RentalSystemView,
    user_text: Seq<char>,
    booking_text: Seq<char>,
)
    requires
        spec_delete_booking(v, user_text, booking_text) is Ok,
    ensures
        ({
            let w = spec_delete_booking(v, user_text, booking_text)->Ok_0;
            let bid = id_or_zero(booking_text);
            &&& w.next_user_id == v.next_user_id
            &&& w.next_booking_id == v.next_booking_id
            &&& w.users.len() == v.users.len()
            &&& exists|i: int|
                #![trigger v.users[i]]
                is_first_user(v.users, i, id_or_zero(user_text)) && {
                    let old = v.users[i].bookings;
                    let new = w.users[i].bookings;
                    &&& w.users[i].id == v.users[i].id
                    &&& w.users[i].username == v.users[i].username
                    &&& w.users[i].password == v.users[i].password
                    &&& (forall|k: int|
                        0 <= k < old.len() && #[trigger] old[k].booking_id != bid
                            ==> new.contains(old[k]))
                    &&& (forall|k: int|
                        0 <= k < new.len() ==> #[trigger] new[k].booking_id != bid
                            && old.contains(new[k]))
                    &&& new.len() == old.len() - old.filter(booking_has_id(bid)).len()
                    &&& new.len() < old.len()
                    &&& forall|k: int|
                        0 <= k < v.users.len() && k != i ==> #[trigger] w.users[k] == v.users[k]
                }
        }),
{
    let w = spec_delete_booking(v, user_text, booking_text)->Ok_0;
    let uid = id_or_zero(user_text);
    let bid = id_or_zero(booking_text);
    lemma_first_match(v.users, user_has_id(uid));
    let i = first_match(v.users, user_has_id(uid))->0;
    let old = v.users[i].bookings;
    let new = w.users[i].bookings;
    lemma_first_match(old, booking_has_id(bid));
    let j = first_match(old, booking_has_id(bid))->0;
    crate::sequences::lemma_filter_exact(old, booking_lacks_id(bid), booking_has_id(bid));
    crate::sequences::lemma_filter_exact(old, booking_has_id(bid), booking_lacks_id(bid));
    assert(old.filter(booking_has_id(bid)).contains(old[j]));
    assert(old.filter(booking_has_id(bid)).len() > 0);
    assert forall|k: int| 0 <= k < old.len() && #[trigger] old[k].booking_id != bid implies new.contains(
        old[k],
    ) by {
        assert(booking_lacks_id(bid)(old[k]));
    }
    assert forall|k: int| 0 <= k < new.len() implies #[trigger] new[k].booking_id != bid
        && old.contains(new[k]) by {
        assert(booking_lacks_id(bid)(old.filter(booking_lacks_id(bid))[k]));
    }
    assert(is_first_user(v.users, i, uid));
}

/// Changing a booking touches only the first booking with the given id of
/// the first user with the given id: each given field is set, each field
/// not given keeps its value, the cost is the new days times the new rent
/// per day, and its id and status stay.
pub proof fn law_update_booking_sets_given_fields(
    v: RentalSystemView,
    user_text: Seq<char>,
    booking_text: Seq<char>,
    car_name: Option<Seq<char>>,
    days: Option<u64>,
    rent_per_day: Option<u64>,
)
    requires
        update_booking_fits(v, user_text, booking_text, days, rent_per_day),
        spec_update_booking(v, user_text, booking_text, car_name, days, rent_per_day) is Some,
    ensures
        ({
            let w = spec_update_booking(v, user_text, booking_text, car_name, days, rent_per_day)->0;
            &&& w.next_user_id == v.next_user_id
            &&& w.next_booking_id == v.next_booking_id
            &&& w.users.len() == v.users.len()
            &&& forall|k: int|
                0 <= k < v.users.len() ==> #[trigger] w.users[k].bookings.len()
                    == v.users[k].bookings.len() && w.users[k].id == v.users[k].id
                    && w.users[k].username == v.users[k].username
            &&& exists|i: int, j: int|
                #![trigger v.users[i].bookings[j]]
                is_first_user(v.users, i, id_or_zero(user_text)) && is_first_booking(
                    v.users[i].bookings,
                    j,
                    id_or_zero(booking_text),
                ) && {
                    let a = v.users[i].bookings[j];
                    let b = w.users[i].bookings[j];
                    &&& b.car_name == (if car_name is Some {
                        car_name->0
                    } else {
                        a.car_name
                    })
                    &&& b.days == (if days is Some {
                        days->0
                    } else {
                        a.days
                    })
                    &&& b.rent_per_day == (if rent_per_day is Some {
                        rent_per_day->0
                    } else {
                        a.rent_per_day
                    })
                    &&& b.total_cost == b.days * b.rent_per_day
                    &&& b.booking_id == a.booking_id
                    &&& b.status == a.status
                    &&& forall|k: int, l: int|
                        0 <= k < v.users.len() && 0 <= l < v.users[k].bookings.len() && (k != i
                            || l != j) ==> #[trigger] w.users[k].bookings[l]
                            == v.users[k].bookings[l]
                }
        }),
{
    let w = spec_update_booking(v, user_text, booking_text, car_name, days, rent_per_day)->0;
    lemma_first_match(v.users, user_has_id(id_or_zero(user_text)));
    let (i, j) = spec_locate_booking(v, user_text, booking_text)->0;
    lemma_first_match(v.users[i].bookings, booking_has_id(id_or_zero(booking_text)));
    assert(is_first_user(v.users, i, id_or_zero(user_text)));
    assert(is_first_booking(v.users[i].bookings, j, id_or_zero(booking_text)));
    assert forall|k: int, l: int|
        0 <= k < v.users.len() && 0 <= l < v.users[k].bookings.len() && (k != i || l != j) implies #[trigger] w.users[k].bookings[l]
        == v.users[k].bookings[l] by {
        if k != i {
            assert(w.users[k] == v.users[k]);
        }
    }
    assert forall|k: int| 0 <= k < v.users.len() implies #[trigger] w.users[k].bookings.len()
        == v.users[k].bookings.len() && w.users[k].id == v.users[k].id && w.users[k].username
        == v.users[k].username by {
        if k != i {
            assert(w.users[k] == v.users[k]);
        }
    }
    let a = v.users[i].bookings[j];
    let b = w.users[i].bookings[j];
    assert(b.total_cost == b.days * b.rent_per_day);
}

/// After a delete, the deleted booking is found no more.
pub proof fn law_deleted_booking_not_found(
    v: RentalSystemView,
    user_text: Seq<char>,
    booking_text: Seq<char>,
)
    requires
        spec_delete_booking(v, user_text, booking_text) is Ok,
    ensures
        spec_locate_booking(spec_delete_booking(v, user_text, booking_text)->Ok_0, user_text, booking_text)
            is None,
{
    let w = spec_delete_booking(v, user_text, booking_text)->Ok_0;
    let uid = id_or_zero(user_text);
    let bid = id_or_zero(booking_text);
    lemma_first_match(v.users, user_has_id(uid));
    let ui = first_match(v.users, user_has_id(uid))->0;
    let u = v.users[ui];
    let nu = UserView { bookings: u.bookings.filter(booking_lacks_id(bid)), ..u };
    crate::sequences::lemma_first_match_update(v.users, ui, nu, user_has_id(uid));
    let f = u.bookings.filter(booking_lacks_id(bid));
    assert forall|j: int| 0 <= j < f.len() implies !booking_has_id(bid)(#[trigger] f[j]) by {
        u.bookings.lemma_filter_pred(booking_lacks_id(bid), j);
    }
    lemma_first_match_none(f, booking_has_id(bid));
}

/// The index of the first user with the id `id`.
fn find_user(users: &Vec<User>, id: u64) -> (res: Option<usize>)
    ensures
        match res {
            Some(i) => i < users@.len() && first_match(users_view(users@), user_has_id(id)) == Some(
                i as int,
            ),
            None => first_match(users_view(users@), user_has_id(id)) is None,
        },
{
    let ghost s = users_view(users@);
    let mut i: usize = 0;
    while i < users.len()
        invariant
            s == users_view(users@),
            i <= users@.len(),
            forall|j: int| 0 <= j < i ==> !user_has_id(id)(#[trigger] s[j]),
        decreases users@.len() - i,
    {
        if users[i].id == id {
            proof {
                lemma_first_match_at(s, user_has_id(id), i as int);
            }
            return Some(i);
        }
        i = i + 1;
    }
    proof {
        lemma_first_match_none(s, user_has_id(id));
    }
    None
}

/// The index of the first user with the username `name`.
fn find_username(users: &Vec<User>, name: &String) -> (res: Option<usize>)
    ensures
        match res {
            Some(i) => i < users@.len() && first_match(users_view(users@), user_has_name(name@))
                == Some(i as int),
            None => first_match(users_view(users@), user_has_name(name@)) is None,
        },
{
    let ghost s = users_view(users@);
    let mut i: usize = 0;
    while i < users.len()
        invariant
            s == users_view(users@),
            i <= users@.len(),
            forall|j: int| 0 <= j < i ==> !user_has_name(name@)(#[trigger] s[j]),
        decreases users@.len() - i,
    {
        if users[i].username == *name {
            proof {
                lemma_first_match_at(s, user_has_name(name@), i as int);
            }
            return Some(i);
        }
        i = i + 1;
    }
    proof {
        lemma_first_match_none(s, user_has_name(name@));
    }
    None
}

/// The index of the first booking with the id `id`.
fn find_booking(bookings: &Vec<Booking>, id: u64) -> (res: Option<usize>)
    ensures
        match res {
            Some(i) => i < bookings@.len() && first_match(bookings_view(bookings@), booking_has_id(id))
                == Some(i as int),
            None => first_match(bookings_view(bookings@), booking_has_id(id)) is None,
        },
{
    let ghost s = bookings_view(bookings@);
    let mut i: usize = 0;
    while i < bookings.len()
        invariant
            s == bookings_view(bookings@),
            i <= bookings@.len(),
            forall|j: int| 0 <= j < i ==> !booking_has_id(id)(#[trigger] s[j]),
        decreases bookings@.len() - i,
    {
        if bookings[i].booking_id == id {
            proof {
                lemma_first_match_at(s, booking_has_id(id), i as int);
            }
            return Some(i);
        }
        i = i + 1;
    }
    proof {
        lemma_first_match_none(s, booking_has_id(id));
    }
    None
}

/// What a client is shown of booking `b`: all of it but its total cost.
pub fn booking_public(b: &Booking) -> (res: BookingPublic)
    ensures
        res@ == spec_public(b@),
{
    BookingPublic {
        booking_id: b.booking_id,
        car_name: b.car_name.clone(),
        days: b.days,
        rent_per_day: b.rent_per_day,
        status: b.status.clone(),
    }
}

/// What a client is shown of each of the bookings `s`.
pub fn bookings_public(s: &Vec<Booking>) -> (res: Vec<BookingPublic>)
    ensures
        res@.len() == s@.len(),
        forall|i: int| 0 <= i < s@.len() ==> #[trigger] res@[i]@ == spec_public(s@[i]@),
{
    let mut res: Vec<BookingPublic> = Vec::new();
    let mut i: usize = 0;
    while i < s.len()
        invariant
            i <= s@.len(),
            res@.len() == i,
            forall|j: int| 0 <= j < i ==> #[trigger] res@[j]@ == spec_public(s@[j]@),
        decreases s@.len() - i,
    {
        res.push(booking_public(&s[i]));
        i = i + 1;
    }
    res
}

/// The id that `text` spells, 0 where it spells none.
fn parse_id_or_zero(text: &str) -> (res: u64)
    ensures
        res == id_or_zero(text@),
{
    match parse_u64(text) {
        Some(id) => id,
        None => 0,
    }
}

impl RentalSystem {
    /// The service as it starts: no users, user ids from 1 and booking ids
    /// from 101.
    pub fn new() -> (res: RentalSystem)
        ensures
            res@ == spec_initial(),
    {
        let res = RentalSystem { next_user_id: 1, next_booking_id: 101, users: Vec::new() };
        assert(users_view(res.users@) =~= Seq::<UserView>::empty());
        res
    }

    /// Registers a user under a username that no user has. Returns the new
    /// user's id.
    pub fn signup(&mut self, username: Option<String>, password: Option<String>) -> (res: Result<
        u64,
        SignupError,
    >)
        requires
            spec_signup(old(self)@, text_of(username), text_of(password)) is Ok
                ==> old(self)@.next_user_id < u64::MAX,
        ensures
            match spec_signup(old(self)@, text_of(username), text_of(password)) {
                Ok(w) => final(self)@ == w && res == Ok::<u64, SignupError>(old(self)@.next_user_id),
                Err(e) => final(self)@ == old(self)@ && res == Err::<u64, SignupError>(e),
            },
    {
        let (username, password) = match (username, password) {
            (Some(u), Some(p)) => (u, p),
            _ => {
                return Err(SignupError::InvalidData);
            },
        };
        if find_username(&self.users, &username).is_some() {
            return Err(SignupError::UserExists);
        }
        let ghost s = users_view(self.users@);
        let id = self.next_user_id;
        self.next_user_id = self.next_user_id + 1;
        self.users.push(User { id, username, password, bookings: Vec::new() });
        assert(bookings_view(self.users@.last().bookings@) =~= Seq::<BookingView>::empty());
        assert(users_view(self.users@) =~= s.push(self.users@.last()@));
        Ok(id)
    }

    /// The id that the next user gets.
    pub fn next_user_id(&self) -> (res: u64)
        ensures
            res == self@.next_user_id,
    {
        self.next_user_id
    }

    /// The id that the next booking gets.
    pub fn next_booking_id(&self) -> (res: u64)
        ensures
            res == self@.next_booking_id,
    {
        self.next_booking_id
    }

    /// Whether `signup` may be called with these inputs: a sign-up that
    /// would succeed needs a next user id below the `u64` maximum.
    pub fn signup_fits(&self, username: &Option<String>, password: &Option<String>) -> (res: bool)
        ensures
            res == (spec_signup(self@, text_of(*username), text_of(*password)) is Ok
                ==> self@.next_user_id < u64::MAX),
    {
        if self.next_user_id < u64::MAX {
            return true;
        }
        match (username, password) {
            (Some(u), Some(_)) => find_username(&self.users, u).is_some(),
            _ => true,
        }
    }

    /// Whether `create_booking` may be called with these inputs.
    pub fn create_booking_fits(&self, user_text: &str, days: u64, rent_per_day: u64) -> (res: bool)
        ensures
            res == create_booking_fits(self@, user_text@, days, rent_per_day),
    {
        match parse_u64(user_text) {
            None => true,
            Some(id) => match find_user(&self.users, id) {
                None => true,
                Some(_) => days.checked_mul(rent_per_day).is_some() && self.next_booking_id
                    < u64::MAX,
            },
        }
    }

    /// Whether `update_booking` may be called with these inputs.
    pub fn update_booking_fits(
        &self,
        user_text: &str,
        booking_text: &str,
        days: Option<u64>,
        rent_per_day: Option<u64>,
    ) -> (res: bool)
        ensures
            res == update_booking_fits(self@, user_text@, booking_text@, days, rent_per_day),
    {
        match self.locate_booking(user_text, booking_text) {
            None => true,
            Some((ui, bi)) => {
                let b = &self.users[ui].bookings[bi];
                let d = match days {
                    Some(d) => d,
                    None => b.days,
                };
                let r = match rent_per_day {
                    Some(r) => r,
                    None => b.rent_per_day,
                };
                d.checked_mul(r).is_some()
            },
        }
    }

    /// Whether `summary` may be called for `user_text`.
    pub fn summary_fits(&self, user_text: &str) -> (res: bool)
        ensures
            res == summary_fits(self@, user_text@),
    {
        let user_id = parse_id_or_zero(user_text);
        let ui = match find_user(&self.users, user_id) {
            Some(i) => i,
            None => {
                return true;
            },
        };
        let bs = &self.users[ui].bookings;
        let ghost s = bookings_view(bs@);
        assert(s == self@.users[ui as int].bookings);
        let mut total: u64 = 0;
        let mut i: usize = 0;
        while i < bs.len()
            invariant
                s == bookings_view(bs@),
                i <= s.len(),
                total == sum_of(s.take(i as int), cost_of()),
                first_match(self@.users, user_has_id(id_or_zero(user_text@))) == Some(ui as int),
                s == self@.users[ui as int].bookings,
            decreases s.len() - i,
        {
            proof {
                lemma_sum_of_take_step(s, cost_of(), i as int);
                lemma_sum_of_prefix(s, cost_of(), i + 1);
            }
            assert(s[i as int].total_cost == bs@[i as int].total_cost);
            match total.checked_add(bs[i].total_cost) {
                Some(t) => {
                    total = t;
                },
                None => {
                    assert(sum_of(s.take(i + 1), cost_of()) > u64::MAX);
                    assert(sum_of(s, cost_of()) > u64::MAX);
                    return false;
                },
            }
            i = i + 1;
        }
        assert(s.take(i as int) =~= s);
        true
    }

    /// All users with their bookings.
    pub fn list_users(&self) -> (res: &Vec<User>)
        ensures
            users_view(res@) == self@.users,
    {
        &self.users
    }

    /// Books car `car_name` for `days` days at `rent_per_day` a day for the
    /// user whose id `user_text` spells: the booking gets the next booking
    /// id, the status `booked` and the cost `days * rent_per_day`. `None`
    /// where there is no such user.
    pub fn create_booking(
        &mut self,
        user_text: &str,
        car_name: String,
        days: u64,
        rent_per_day: u64,
    ) -> (res: Option<BookingReceipt>)
        requires
            create_booking_fits(old(self)@, user_text@, days, rent_per_day),
        ensures
            match spec_create_booking(old(self)@, user_text@, car_name@, days, rent_per_day) {
                Some((w, r)) => final(self)@ == w && res == Some(r),
                None => final(self)@ == old(self)@ && res is None,
            },
    {
        let user_id = match parse_u64(user_text) {
            Some(id) => id,
            None => {
                return None;
            },
        };
        let ui = match find_user(&self.users, user_id) {
            Some(i) => i,
            None => {
                return None;
            },
        };
        let ghost v = self@;
        let ghost old_users = self.users@;
        let booking_id = self.next_booking_id;
        self.next_booking_id = self.next_booking_id + 1;
        let total_cost = days * rent_per_day;
        let booking = Booking {
            booking_id,
            car_name,
            days,
            rent_per_day,
            status: "booked".to_owned(),
            total_cost,
        };
        let ghost bv = booking@;
        let ghost old_bookings = self.users@[ui as int].bookings@;
        self.users[ui].bookings.push(booking);
        proof {
            let u = v.users[ui as int];
            assert(bookings_view(self.users@[ui as int].bookings@) =~= u.bookings.push(bv)) by {
                assert(self.users@[ui as int].bookings@ =~= old_bookings.push(booking));
            }
            assert forall|k: int| 0 <= k < old_users.len() && k != ui implies #[trigger] self.users@[k]
                == old_users[k] by {}
            assert(users_view(self.users@) =~= v.users.update(
                ui as int,
                UserView { bookings: u.bookings.push(bv), ..u },
            ));
        }
        Some(BookingReceipt { booking_id, total_cost })
    }

    /// What clients are shown of the bookings of the user whose id
    /// `user_text` spells; `None` where there is no such user.
    pub fn get_user_bookings(&self, user_text: &str) -> (res: Option<Vec<BookingPublic>>)
        ensures
            match spec_locate_user(self@, user_text@) {
                Some(ui) => res matches Some(bs) && bs@.len() == self@.users[ui].bookings.len() && (
                forall|i: int|
                    0 <= i < bs@.len() ==> #[trigger] bs@[i]@ == spec_public(
                        self@.users[ui].bookings[i],
                    )),
                None => res is None,
            },
    {
        let user_id = match parse_u64(user_text) {
            Some(id) => id,
            None => {
                return None;
            },
        };
        match find_user(&self.users, user_id) {
            Some(i) => {
                assert(self@.users[i as int].bookings == bookings_view(self.users@[i as int].bookings@));
                Some(bookings_public(&self.users[i].bookings))
            },
            None => None,
        }
    }

    /// What clients are shown of a booking, found as `spec_locate_booking`
    /// says; `None` where there is no such booking.
    pub fn get_specific_booking(&self, user_text: &str, booking_text: &str) -> (res: Option<
        BookingPublic,
    >)
        ensures
            match spec_locate_booking(self@, user_text@, booking_text@) {
                Some((ui, bi)) => res matches Some(b) && b@ == spec_public(
                    self@.users[ui].bookings[bi],
                ),
                None => res is None,
            },
    {
        let user_id = parse_id_or_zero(user_text);
        let booking_id = parse_id_or_zero(booking_text);
        match find_user(&self.users, user_id) {
            None => None,
            Some(i) => {
                assert(self@.users[i as int].bookings == bookings_view(self.users@[i as int].bookings@));
                match find_booking(&self.users[i].bookings, booking_id) {
                    Some(j) => Some(booking_public(&self.users[i].bookings[j])),
                    None => None,
                }
            },
        }
    }

    /// The position of a booking as `spec_locate_booking` finds it.
    fn locate_booking(&self, user_text: &str, booking_text: &str) -> (res: Option<(usize, usize)>)
        ensures
            match res {
                Some((i, j)) => spec_locate_booking(self@, user_text@, booking_text@) == Some(
                    (i as int, j as int),
                ) && i < self.users@.len() && j < self.users@[i as int].bookings@.len(),
                None => spec_locate_booking(self@, user_text@, booking_text@) is None,
            },
    {
        let user_id = parse_id_or_zero(user_text);
        let booking_id = parse_id_or_zero(booking_text);
        match find_user(&self.users, user_id) {
            None => None,
            Some(i) => {
                assert(self@.users[i as int].bookings == bookings_view(self.users@[i as int].bookings@));
                match find_booking(&self.users[i].bookings, booking_id) {
                    Some(j) => Some((i, j)),
                    None => None,
                }
            },
        }
    }

    /// Changes the given fields of a booking and computes its cost again;
    /// returns what clients are shown of it, or `None` where there is no
    /// such booking.
    pub fn update_booking(
        &mut self,
        user_text: &str,
        booking_text: &str,
        car_name: Option<String>,
        days: Option<u64>,
        rent_per_day: Option<u64>,
    ) -> (res: Option<BookingPublic>)
        requires
            update_booking_fits(old(self)@, user_text@, booking_text@, days, rent_per_day),
        ensures
            final(self)@ == match spec_update_booking(
                old(self)@,
                user_text@,
                booking_text@,
                text_of(car_name),
                days,
                rent_per_day,
            ) {
                Some(w) => w,
                None => old(self)@,
            },
            match spec_locate_booking(old(self)@, user_text@, booking_text@) {
                Some((ui, bi)) => res matches Some(b) && b@ == spec_public(
                    final(self)@.users[ui].bookings[bi],
                ),
                None => res is None,
            },
    {
        let (ui, bi) = match self.locate_booking(user_text, booking_text) {
            Some(p) => p,
            None => {
                return None;
            },
        };
        let ghost v = self@;
        let ghost old_users = self.users@;
        let ghost old_bookings = self.users@[ui as int].bookings@;
        let b = &self.users[ui].bookings[bi];
        let new_car = match car_name {
            Some(c) => c,
            None => b.car_name.clone(),
        };
        let d = match days {
            Some(d) => d,
            None => b.days,
        };
        let r = match rent_per_day {
            Some(r) => r,
            None => b.rent_per_day,
        };
        let nb = Booking {
            booking_id: b.booking_id,
            car_name: new_car,
            days: d,
            rent_per_day: r,
            status: b.status.clone(),
            total_cost: d * r,
        };
        let shown = booking_public(&nb);
        let ghost nbv = nb@;
        self.users[ui].bookings.set(bi, nb);
        proof {
            assert(nbv == spec_changed_booking(
                v.users[ui as int].bookings[bi as int],
                text_of(car_name),
                days,
                rent_per_day,
            ));
            assert(bookings_view(self.users@[ui as int].bookings@) =~= v.users[ui as int].bookings.update(
                bi as int,
                nbv,
            )) by {
                assert forall|k: int| 0 <= k < old_bookings.len() && k != bi implies #[trigger] self.users@[
                    ui as int].bookings@[k] == old_bookings[k] by {}
            }
            assert forall|k: int| 0 <= k < old_users.len() && k != ui implies #[trigger] self.users@[k]
                == old_users[k] by {}
            assert(users_view(self.users@) =~= spec_replace_booking(v.users, ui as int, bi as int, nbv));
        }
        Some(shown)
    }

    /// Sets the status of a booking; returns whether there was such a
    /// booking.
    pub fn update_status(&mut self, user_text: &str, booking_text: &str, status: String) -> (updated:
        bool)
        ensures
            match spec_update_status(old(self)@, user_text@, booking_text@, status@) {
                Some(w) => final(self)@ == w && updated,
                None => final(self)@ == old(self)@ && !updated,
            },
    {
        let (ui, bi) = match self.locate_booking(user_text, booking_text) {
            Some(p) => p,
            None => {
                return false;
            },
        };
        let ghost v = self@;
        let ghost old_users = self.users@;
        let ghost old_bookings = self.users@[ui as int].bookings@;
        let b = &self.users[ui].bookings[bi];
        let nb = Booking {
            booking_id: b.booking_id,
            car_name: b.car_name.clone(),
            days: b.days,
            rent_per_day: b.rent_per_day,
            status,
            total_cost: b.total_cost,
        };
        let ghost nbv = nb@;
        self.users[ui].bookings.set(bi, nb);
        proof {
            assert(bookings_view(self.users@[ui as int].bookings@) =~= v.users[ui as int].bookings.update(
                bi as int,
                nbv,
            )) by {
                assert forall|k: int| 0 <= k < old_bookings.len() && k != bi implies #[trigger] self.users@[
                    ui as int].bookings@[k] == old_bookings[k] by {}
            }
            assert forall|k: int| 0 <= k < old_users.len() && k != ui implies #[trigger] self.users@[k]
                == old_users[k] by {}
            assert(users_view(self.users@) =~= spec_replace_booking(v.users, ui as int, bi as int, nbv));
        }
        true
    }

    /// Removes every booking with the id `id_or_zero(booking_text)` from
    /// the first user with the id `id_or_zero(user_text)`.
    pub fn delete_booking(&mut self, user_text: &str, booking_text: &str) -> (res: Result<
        (),
        DeleteError,
    >)
        ensures
            match spec_delete_booking(old(self)@, user_text@, booking_text@) {
                Ok(w) => final(self)@ == w && res is Ok,
                Err(e) => final(self)@ == old(self)@ && res == Err::<(), DeleteError>(e),
            },
    {
        let user_id = parse_id_or_zero(user_text);
        let booking_id = parse_id_or_zero(booking_text);
        let ui = match find_user(&self.users, user_id) {
            Some(i) => i,
            None => {
                return Err(DeleteError::UserNotFound);
            },
        };
        let ghost v = self@;
        let ghost old_users = self.users@;
        let ghost s = bookings_view(self.users@[ui as int].bookings@);
        assert(s == v.users[ui as int].bookings);
        let mut kept: Vec<Booking> = Vec::new();
        let mut found = false;
        let mut i: usize = 0;
        let n = self.users[ui].bookings.len();
        while i < n
            invariant
                self.users@ == old_users,
                ui < old_users.len(),
                s == bookings_view(old_users[ui as int].bookings@),
                n == s.len(),
                i <= n,
                bookings_view(kept@) == s.take(i as int).filter(booking_lacks_id(booking_id)),
                found == (first_match(s.take(i as int), booking_has_id(booking_id)) is Some),
            decreases n - i,
        {
            proof {
                lemma_filter_take_step(s, booking_lacks_id(booking_id), i as int);
                assert(s.take(i + 1) =~= s.take(i as int).push(s[i as int]));
                crate::sequences::lemma_first_match_push(
                    s.take(i as int),
                    s[i as int],
                    booking_has_id(booking_id),
                );
            }
            let b = &self.users[ui].bookings[i];
            if b.booking_id != booking_id {
                let ghost prev = kept@;
                kept.push(b.duplicate());
                assert(bookings_view(kept@) =~= bookings_view(prev).push(s[i as int]));
            } else {
                found = true;
            }
            i = i + 1;
        }
        assert(s.take(i as int) =~= s);
        if !found {
            return Err(DeleteError::BookingNotFound);
        }
        self.users[ui].bookings = kept;
        proof {
            let u = v.users[ui as int];
            assert forall|k: int| 0 <= k < old_users.len() && k != ui implies #[trigger] self.users@[k]
                == old_users[k] by {}
            assert(users_view(self.users@) =~= v.users.update(
                ui as int,
                UserView { bookings: u.bookings.filter(booking_lacks_id(booking_id)), ..u },
            ));
        }
        Ok(())
    }

    /// The summary of the first user with the id `id_or_zero(user_text)`:
    /// how many bookings and what they cost together.
    pub fn summary(&self, user_text: &str) -> (res: Option<RentalSummary>)
        requires
            summary_fits(self@, user_text@),
        ensures
            match first_match(self@.users, user_has_id(id_or_zero(user_text@))) {
                None => res is None,
                Some(ui) => res matches Some(r) && r.user_id == id_or_zero(user_text@)
                    && r.username@ == self@.users[ui].username && r.total_bookings
                    == self@.users[ui].bookings.len() && r.total_amount_spent == sum_of(
                    self@.users[ui].bookings,
                    cost_of(),
                ),
            },
    {
        let user_id = parse_id_or_zero(user_text);
        let ui = match find_user(&self.users, user_id) {
            Some(i) => i,
            None => {
                return None;
            },
        };
        let bs = &self.users[ui].bookings;
        let ghost s = bookings_view(bs@);
        assert(s == self@.users[ui as int].bookings);
        let mut total: u64 = 0;
        let mut i: usize = 0;
        while i < bs.len()
            invariant
                s == bookings_view(bs@),
                i <= s.len(),
                sum_of(s, cost_of()) <= u64::MAX,
                total == sum_of(s.take(i as int), cost_of()),
            decreases s.len() - i,
        {
            proof {
                lemma_sum_of_take_step(s, cost_of(), i as int);
                lemma_sum_of_prefix(s, cost_of(), i + 1);
            }
            total = total + bs[i].total_cost;
            i = i + 1;
        }
        assert(s.take(i as int) =~= s);
        Some(
            RentalSummary {
                user_id,
                username: self.users[ui].username.clone(),
                total_bookings: bs.len(),
                total_amount_spent: total,
            },
        )
    }
}

} // verus!
