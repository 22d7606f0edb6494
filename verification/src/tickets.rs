//! The movie ticket booking service: users sign up with an email address,
//! book seats of a movie's show, add seats to a booking, cancel it, and
//! ask for a summary of what they booked.

use vstd::prelude::*;
use crate::sequences::{first_match, lemma_first_match, lemma_first_match_at,
    lemma_first_match_none, lemma_first_match_update, sum_of,
    lemma_sum_of_push, lemma_sum_of_take_step, lemma_sum_of_update, lemma_sum_of_prefix};
use crate::text::chars_of;

verus! {

/// One showing of a movie.
pub struct Show {
    pub show_id: u32,
    pub time: String,
    pub price_per_seat: u32,
    pub available_seats: u32,
}

/// What a `Show` holds.
pub struct ShowView {
    pub show_id: u32,
    pub time: Seq<char>,
    pub price_per_seat: u32,
    pub available_seats: u32,
}

impl View for Show {
    type V = ShowView;

    open spec fn view(&self) -> ShowView {
        ShowView {
            show_id: self.show_id,
            time: self.time@,
            price_per_seat: self.price_per_seat,
            available_seats: self.available_seats,
        }
    }
}

/// A movie and its shows.
pub struct Movie {
    pub id: u32,
    pub title: String,
    pub genre: String,
    pub duration: u32,
    pub shows: Vec<Show>,
}

/// What a `Movie` holds.
pub struct MovieView {
    pub id: u32,
    pub title: Seq<char>,
    pub genre: Seq<char>,
    pub duration: u32,
    pub shows: Seq<ShowView>,
}

/// The views of a sequence of shows.
pub open spec fn shows_view(s: Seq<Show>) -> Seq<ShowView> {
    s.map_values(|x: Show| x@)
}

impl View for Movie {
    type V = MovieView;

    open spec fn view(&self) -> MovieView {
        MovieView {
            id: self.id,
            title: self.title@,
            genre: self.genre@,
            duration: self.duration,
            shows: shows_view(self.shows@),
        }
    }
}

/// The views of a sequence of movies.
pub open spec fn movies_view(s: Seq<Movie>) -> Seq<MovieView> {
    s.map_values(|x: Movie| x@)
}

/// Whether a booking still holds its seats for the user.
#[derive(Clone, Copy, PartialEq, Eq, Structural)]
pub enum BookingStatus {
    Confirmed,
    Cancelled,
}

/// Seats of one show that a user booked.
#[derive(Clone, Copy)]
pub struct Booking {
    pub booking_id: u32,
    pub movie_id: u32,
    pub show_id: u32,
    pub seats: u32,
    pub total_amount: u32,
    pub status: BookingStatus,
}

/// A registered user and the bookings made in the user's name.
pub struct User {
    pub id: u32,
    pub username: String,
    pub email: String,
    pub password: String,
    pub bookings: Vec<Booking>,
}

/// What a `User` holds.
pub struct UserView {
    pub id: u32,
    pub username: Seq<char>,
    pub email: Seq<char>,
    pub password: Seq<char>,
    pub bookings: Seq<Booking>,
}

impl View for User {
    type V = UserView;

    open spec fn view(&self) -> UserView {
        UserView {
            id: self.id,
            username: self.username@,
            email: self.email@,
            password: self.password@,
            bookings: self.bookings@,
        }
    }
}

/// The views of a sequence of users.
pub open spec fn users_view(s: Seq<User>) -> Seq<UserView> {
    s.map_values(|x: User| x@)
}

/// The whole state of the service.
pub struct BookingSystem {
    next_user_id: u32,
    next_booking_id: u32,
    users: Vec<User>,
    movies: Vec<Movie>,
}

/// What a `BookingSystem` holds.
pub struct BookingSystemView {
    pub next_user_id: u32,
    pub next_booking_id: u32,
    pub users: Seq<UserView>,
    pub movies: Seq<MovieView>,
}

impl View for BookingSystem {
    type V = BookingSystemView;

    closed spec fn view(&self) -> BookingSystemView {
        BookingSystemView {
            next_user_id: self.next_user_id,
            next_booking_id: self.next_booking_id,
            users: users_view(self.users@),
            movies: movies_view(self.movies@),
        }
    }
}

/// A show that starts with 50 free seats.
pub open spec fn fresh_show(show_id: u32, time: Seq<char>, price_per_seat: u32) -> ShowView {
    ShowView { show_id, time, price_per_seat, available_seats: 50 }
}

/// The three movies that the service starts with.
pub open spec fn spec_default_movies() -> Seq<MovieView> {
    seq![
        MovieView {
            id: 1,
            title: "Inception"@,
            genre: "Sci-Fi"@,
            duration: 148,
            shows: seq![
                fresh_show(101, "10:00 AM"@, 200),
                fresh_show(102, "2:00 PM"@, 250),
                fresh_show(103, "6:00 PM"@, 300),
            ],
        },
        MovieView {
            id: 2,
            title: "The Dark Knight"@,
            genre: "Action"@,
            duration: 152,
            shows: seq![
                fresh_show(201, "11:00 AM"@, 200),
                fresh_show(202, "3:00 PM"@, 250),
                fresh_show(203, "7:00 PM"@, 300),
            ],
        },
        MovieView {
            id: 3,
            title: "Interstellar"@,
            genre: "Sci-Fi"@,
            duration: 169,
            shows: seq![fresh_show(301, "12:00 PM"@, 250), fresh_show(302, "5:00 PM"@, 300)],
        },
    ]
}

/// A show that starts with 50 free seats.
fn new_show(show_id: u32, time: &str, price_per_seat: u32) -> (res: Show)
    ensures
        res@ == fresh_show(show_id, time@, price_per_seat),
{
    Show { show_id, time: time.to_owned(), price_per_seat, available_seats: 50 }
}

/// The movies and shows that the service starts with.
pub fn default_movies() -> (res: Vec<Movie>)
    ensures
        movies_view(res@) == spec_default_movies(),
{
    let res = vec![
        Movie {
            id: 1,
            title: "Inception".to_owned(),
            genre: "Sci-Fi".to_owned(),
            duration: 148,
            shows: vec![
                new_show(101, "10:00 AM", 200),
                new_show(102, "2:00 PM", 250),
                new_show(103, "6:00 PM", 300),
            ],
        },
        Movie {
            id: 2,
            title: "The Dark Knight".to_owned(),
            genre: "Action".to_owned(),
            duration: 152,
            shows: vec![
                new_show(201, "11:00 AM", 200),
                new_show(202, "3:00 PM", 250),
                new_show(203, "7:00 PM", 300),
            ],
        },
        Movie {
            id: 3,
            title: "Interstellar".to_owned(),
            genre: "Sci-Fi".to_owned(),
            duration: 169,
            shows: vec![new_show(301, "12:00 PM", 250), new_show(302, "5:00 PM", 300)],
        },
    ];
    assert(shows_view(res@[0].shows@) =~= spec_default_movies()[0].shows);
    assert(shows_view(res@[1].shows@) =~= spec_default_movies()[1].shows);
    assert(shows_view(res@[2].shows@) =~= spec_default_movies()[2].shows);
    assert(movies_view(res@) =~= spec_default_movies());
    res
}

/// `e` splits at its `@` at index `k` into a name that is not empty and a
/// domain, the `@` being the only one in `e`.
pub open spec fn email_splits_at(e: Seq<char>, k: int) -> bool {
    &&& 0 < k < e.len()
    &&& e[k] == '@'
    &&& forall|j: int| 0 <= j < e.len() && j != k ==> #[trigger] e[j] != '@'
}

/// A domain holds a `.` and neither starts nor ends with one.
pub open spec fn valid_domain(d: Seq<char>) -> bool {
    &&& d.contains('.')
    &&& d[0] != '.'
    &&& d.last() != '.'
}

/// The address check of sign-up: exactly one `@`, something before it,
/// and a valid domain after it.
pub open spec fn spec_valid_email(e: Seq<char>) -> bool {
    exists|k: int| #[trigger]
        email_splits_at(e, k) && valid_domain(e.subrange(k + 1, e.len() as int))
}

/// Whether `e` passes the address check of sign-up.
pub fn valid_email(e: &str) -> (res: bool)
    ensures
        res == spec_valid_email(e@),
{
    let cs = chars_of(e);
    let mut first: Option<usize> = None;
    let mut second: Option<usize> = None;
    let mut i: usize = 0;
    while i < cs.len()
        invariant
            cs@ == e@,
            i <= cs@.len(),
            match first {
                None => forall|j: int| 0 <= j < i ==> #[trigger] cs@[j] != '@',
                Some(p) => p < i && cs@[p as int] == '@' && match second {
                    None => forall|j: int| 0 <= j < i && j != p ==> #[trigger] cs@[j] != '@',
                    Some(q) => q < i && q != p && cs@[q as int] == '@',
                },
            },
            first is None ==> second is None,
        decreases cs@.len() - i,
    {
        if cs[i] == '@' {
            if first.is_none() {
                first = Some(i);
            } else if second.is_none() {
                second = Some(i);
            }
        }
        i = i + 1;
    }
    let p = match first {
        None => {
            return false;
        },
        Some(p) => p,
    };
    if second.is_some() {
        assert forall|k: int| !#[trigger] email_splits_at(e@, k) by {
            if email_splits_at(e@, k) {
                let q = second->0;
                if k != p {
                    assert(e@[p as int] != '@');
                } else {
                    assert(e@[q as int] != '@');
                }
            }
        }
        return false;
    }
    if p == 0 {
        assert forall|k: int| !#[trigger] email_splits_at(e@, k) by {
            if email_splits_at(e@, k) && k != 0 {
                assert(e@[0] != '@');
            }
        }
        return false;
    }
    let ghost d = e@.subrange(p + 1, e@.len() as int);
    assert(email_splits_at(e@, p as int));
    assert forall|k: int| #[trigger] email_splits_at(e@, k) implies k == p by {
        if k != p {
            assert(e@[p as int] != '@');
        }
    }
    let mut has_dot = false;
    let mut j: usize = p + 1;
    while j < cs.len()
        invariant
            cs@ == e@,
            p < cs@.len(),
            p + 1 <= j <= cs@.len(),
            has_dot == exists|w: int| p + 1 <= w < j && #[trigger] cs@[w] == '.',
        decreases cs@.len() - j,
    {
        if cs[j] == '.' {
            has_dot = true;
        }
        j = j + 1;
    }
    proof {
        if has_dot {
            let w = choose|w: int| p + 1 <= w < j && #[trigger] cs@[w] == '.';
            assert(d[w - p - 1] == '.');
        } else {
            assert forall|w: int| 0 <= w < d.len() implies #[trigger] d[w] != '.' by {
                assert(d[w] == cs@[w + p + 1]);
            }
        }
        assert(has_dot == d.contains('.'));
    }
    if !has_dot {
        return false;
    }
    let res = cs[p + 1] != '.' && cs[cs.len() - 1] != '.';
    assert(d[0] == e@[p + 1]);
    assert(d.last() == e@[e@.len() - 1]);
    if res {
        assert(email_splits_at(e@, p as int) && valid_domain(d));
    }
    res
}

/// A user with the id `id`.
pub open spec fn user_has_id(id: u32) -> spec_fn(UserView) -> bool {
    |u: UserView| u.id == id
}

/// A user with the email address `email`.
pub open spec fn user_has_email(email: Seq<char>) -> spec_fn(UserView) -> bool {
    |u: UserView| u.email == email
}

/// A movie with the id `id`.
pub open spec fn movie_has_id(id: u32) -> spec_fn(MovieView) -> bool {
    |m: MovieView| m.id == id
}

/// A show with the id `id`.
pub open spec fn show_has_id(id: u32) -> spec_fn(ShowView) -> bool {
    |s: ShowView| s.show_id == id
}

/// A booking with the id `id`.
pub open spec fn booking_has_id(id: u32) -> spec_fn(Booking) -> bool {
    |b: Booking| b.booking_id == id
}

/// The text that an optional input holds.
pub open spec fn text_of(o: Option<String>) -> Option<Seq<char>> {
    match o {
        Some(s) => Some(s@),
        None => None,
    }
}

/// Why a sign-up was refused.
#[derive(PartialEq, Eq, Structural)]
pub enum SignupError {
    /// A field is missing or the email address is not valid.
    InvalidInput,
    /// A user with that email address exists.
    UserExists,
}

/// Why a booking request was refused.
#[derive(PartialEq, Eq, Structural)]
pub enum BookingError {
    UserNotFound,
    BookingNotFound,
    MovieNotFound,
    ShowNotFound,
    NotEnoughSeats,
}

/// What a successful booking reports.
pub struct BookingConfirmation {
    pub booking_id: u32,
    pub movie_title: String,
    pub show_time: String,
    pub seats: u32,
    pub total_amount: u32,
}

/// What a `BookingConfirmation` holds.
pub struct ConfirmationView {
    pub booking_id: u32,
    pub movie_title: Seq<char>,
    pub show_time: Seq<char>,
    pub seats: u32,
    pub total_amount: u32,
}

impl View for BookingConfirmation {
    type V = ConfirmationView;

    open spec fn view(&self) -> ConfirmationView {
        ConfirmationView {
            booking_id: self.booking_id,
            movie_title: self.movie_title@,
            show_time: self.show_time@,
            seats: self.seats,
            total_amount: self.total_amount,
        }
    }
}

/// What a successful change of a booking reports.
pub struct BookingUpdate {
    pub booking_id: u32,
    pub seats: u32,
    pub total_amount: u32,
}

/// A user's summary: counts and sums over the user's bookings.
pub struct Summary {
    pub user_id: u32,
    pub username: String,
    pub total_bookings: usize,
    pub total_amount_spent: u32,
    pub confirmed_bookings: u32,
    pub cancelled_bookings: u32,
    pub total_seats_booked: u32,
}

/// The state a fresh service starts with.
pub open spec fn spec_initial() -> BookingSystemView {
    BookingSystemView {
        next_user_id: 1,
        next_booking_id: 1001,
        users: Seq::empty(),
        movies: spec_default_movies(),
    }
}

/// The outcome of a sign-up: the new state, or why it was refused.
pub open spec fn spec_signup(
    v: BookingSystemView,
    username: Option<Seq<char>>,
    email: Option<Seq<char>>,
    password: Option<Seq<char>>,
) -> Result<BookingSystemView, SignupError> {
    if username is None || email is None || password is None || !spec_valid_email(email->0) {
        Err(SignupError::InvalidInput)
    } else if first_match(v.users, user_has_email(email->0)) is Some {
        Err(SignupError::UserExists)
    } else {
        Ok(
            BookingSystemView {
                next_user_id: (v.next_user_id + 1) as u32,
                users: v.users.push(
                    UserView {
                        id: v.next_user_id,
                        username: username->0,
                        email: email->0,
                        password: password->0,
                        bookings: Seq::empty(),
                    },
                ),
                ..v
            },
        )
    }
}

/// The indices of the first movie with the id `movie_id` and of its first
/// show with the id `show_id`.
pub open spec fn spec_locate_show(v: BookingSystemView, movie_id: u32, show_id: u32) -> Result<
    (int, int),
    BookingError,
> {
    match first_match(v.movies, movie_has_id(movie_id)) {
        None => Err(BookingError::MovieNotFound),
        Some(mi) => match first_match(v.movies[mi].shows, show_has_id(show_id)) {
            None => Err(BookingError::ShowNotFound),
            Some(si) => Ok((mi, si)),
        },
    }
}

/// The movies after `seats` seats of show `si` of movie `mi` are taken.
pub open spec fn spec_take_seats(movies: Seq<MovieView>, mi: int, si: int, seats: u32) -> Seq<
    MovieView,
> {
    let m = movies[mi];
    let sh = m.shows[si];
    movies.update(
        mi,
        MovieView {
            shows: m.shows.update(
                si,
                ShowView { available_seats: (sh.available_seats - seats) as u32, ..sh },
            ),
            ..m
        },
    )
}

/// The outcome of booking `seats` seats of a show for a user: the new state
/// and what is reported, or why it was refused.
pub open spec fn spec_create_booking(
    v: BookingSystemView,
    user_id: u32,
    movie_id: u32,
    show_id: u32,
    seats: u32,
) -> Result<(BookingSystemView, ConfirmationView), BookingError> {
    match first_match(v.users, user_has_id(user_id)) {
        None => Err(BookingError::UserNotFound),
        Some(ui) => match spec_locate_show(v, movie_id, show_id) {
            Err(e) => Err(e),
            Ok((mi, si)) => {
                let sh = v.movies[mi].shows[si];
                if sh.available_seats < seats {
                    Err(BookingError::NotEnoughSeats)
                } else {
                    let total = (sh.price_per_seat * seats) as u32;
                    let b = Booking {
                        booking_id: v.next_booking_id,
                        movie_id,
                        show_id,
                        seats,
                        total_amount: total,
                        status: BookingStatus::Confirmed,
                    };
                    let u = v.users[ui];
                    Ok(
                        (
                            BookingSystemView {
                                next_user_id: v.next_user_id,
                                next_booking_id: (v.next_booking_id + 1) as u32,
                                users: v.users.update(
                                    ui,
                                    UserView { bookings: u.bookings.push(b), ..u },
                                ),
                                movies: spec_take_seats(v.movies, mi, si, seats),
                            },
                            ConfirmationView {
                                booking_id: v.next_booking_id,
                                movie_title: v.movies[mi].title,
                                show_time: sh.time,
                                seats,
                                total_amount: total,
                            },
                        ),
                    )
                }
            },
        },
    }
}

/// A booking that would be made stays within the `u32` range: its price
/// and the next booking id (beyond it the service fails).
pub open spec fn create_booking_fits(
    v: BookingSystemView,
    user_id: u32,
    movie_id: u32,
    show_id: u32,
    seats: u32,
) -> bool {
    match first_match(v.users, user_has_id(user_id)) {
        None => true,
        Some(_) => match spec_locate_show(v, movie_id, show_id) {
            Err(_) => true,
            Ok((mi, si)) => {
                let sh = v.movies[mi].shows[si];
                sh.available_seats >= seats ==> sh.price_per_seat * seats <= u32::MAX
                    && v.next_booking_id < u32::MAX
            },
        },
    }
}

/// The indices of the first user with the id `user_id` and of that user's
/// first booking with the id `booking_id`.
pub open spec fn spec_locate_booking(v: BookingSystemView, user_id: u32, booking_id: u32) -> Result<
    (int, int),
    BookingError,
> {
    match first_match(v.users, user_has_id(user_id)) {
        None => Err(BookingError::UserNotFound),
        Some(ui) => match first_match(v.users[ui].bookings, booking_has_id(booking_id)) {
            None => Err(BookingError::BookingNotFound),
            Some(bi) => Ok((ui, bi)),
        },
    }
}

/// The users after booking `bi` of user `ui` is replaced by `b`.
pub open spec fn spec_replace_booking(users: Seq<UserView>, ui: int, bi: int, b: Booking) -> Seq<
    UserView,
> {
    users.update(ui, UserView { bookings: users[ui].bookings.update(bi, b), ..users[ui] })
}

/// The outcome of adding `seats` seats to a booking: the new state and what
/// is reported, or why it was refused.
pub open spec fn spec_update_booking(
    v: BookingSystemView,
    user_id: u32,
    booking_id: u32,
    seats: u32,
) -> Result<(BookingSystemView, BookingUpdate), BookingError> {
    match spec_locate_booking(v, user_id, booking_id) {
        Err(e) => Err(e),
        Ok((ui, bi)) => {
            let b = v.users[ui].bookings[bi];
            match spec_locate_show(v, b.movie_id, b.show_id) {
                Err(e) => Err(e),
                Ok((mi, si)) => {
                    let sh = v.movies[mi].shows[si];
                    if sh.available_seats < seats {
                        Err(BookingError::NotEnoughSeats)
                    } else {
                        let new_seats = (b.seats + seats) as u32;
                        let total = (new_seats * sh.price_per_seat) as u32;
                        let nb = Booking { seats: new_seats, total_amount: total, ..b };
                        Ok(
                            (
                                BookingSystemView {
                                    users: spec_replace_booking(v.users, ui, bi, nb),
                                    movies: spec_take_seats(v.movies, mi, si, seats),
                                    ..v
                                },
                                BookingUpdate {
                                    booking_id: b.booking_id,
                                    seats: new_seats,
                                    total_amount: total,
                                },
                            ),
                        )
                    }
                },
            }
        },
    }
}

/// A change of a booking that would be made stays within the `u32` range:
/// its seats and its price (beyond it the service fails).
pub open spec fn update_booking_fits(
    v: BookingSystemView,
    user_id: u32,
    booking_id: u32,
    seats: u32,
) -> bool {
    match spec_locate_booking(v, user_id, booking_id) {
        Err(_) => true,
        Ok((ui, bi)) => {
            let b = v.users[ui].bookings[bi];
            match spec_locate_show(v, b.movie_id, b.show_id) {
                Err(_) => true,
                Ok((mi, si)) => {
                    let sh = v.movies[mi].shows[si];
                    sh.available_seats >= seats ==> b.seats + seats <= u32::MAX && (b.seats
                        + seats) * sh.price_per_seat <= u32::MAX
                },
            }
        },
    }
}

/// The state after cancelling a booking; `None` where there is no such
/// booking.
pub open spec fn spec_cancel_booking(v: BookingSystemView, user_id: u32, booking_id: u32) -> Option<
    BookingSystemView,
> {
    match spec_locate_booking(v, user_id, booking_id) {
        Err(_) => None,
        Ok((ui, bi)) => {
            let b = v.users[ui].bookings[bi];
            Some(
                BookingSystemView {
                    users: spec_replace_booking(
                        v.users,
                        ui,
                        bi,
                        Booking { status: BookingStatus::Cancelled, ..b },
                    ),
                    ..v
                },
            )
        },
    }
}

/// The amount a booking costs.
pub open spec fn amount_of() -> spec_fn(Booking) -> int {
    |b: Booking| b.total_amount as int
}

/// The seats a booking holds.
pub open spec fn seats_of() -> spec_fn(Booking) -> int {
    |b: Booking| b.seats as int
}

/// 1 for a booking with the status `status`, else 0.
pub open spec fn counts_status(status: BookingStatus) -> spec_fn(Booking) -> int {
    |b: Booking| if b.status == status { 1int } else { 0int }
}

/// The sums of a user's summary stay within the `u32` range (beyond it
/// the service fails).
pub open spec fn summary_fits(v: BookingSystemView, user_id: u32) -> bool {
    match first_match(v.users, user_has_id(user_id)) {
        None => true,
        Some(ui) => {
            let bs = v.users[ui].bookings;
            &&& sum_of(bs, amount_of()) <= u32::MAX
            &&& sum_of(bs, seats_of()) <= u32::MAX
            &&& sum_of(bs, counts_status(BookingStatus::Confirmed)) <= u32::MAX
            &&& sum_of(bs, counts_status(BookingStatus::Cancelled)) <= u32::MAX
        },
    }
}

/// The seats of show `show_id` of movie `movie_id` that a booking holds.
pub open spec fn holds_seats_of(movie_id: u32, show_id: u32) -> spec_fn(Booking) -> int {
    |b: Booking|
        if b.movie_id == movie_id && b.show_id == show_id {
            b.seats as int
        } else {
            0int
        }
}

/// The seats of show `show_id` of movie `movie_id` that a user's bookings
/// hold, whatever their status.
pub open spec fn user_seats_of(movie_id: u32, show_id: u32) -> spec_fn(UserView) -> int {
    |u: UserView| sum_of(u.bookings, holds_seats_of(movie_id, show_id))
}

/// The seats of a show that bookings hold, over all users.
pub open spec fn booked_seats(v: BookingSystemView, movie_id: u32, show_id: u32) -> int {
    sum_of(v.users, user_seats_of(movie_id, show_id))
}

/// The free seats of a show, as bookings find it; 0 where they find none.
pub open spec fn free_seats(v: BookingSystemView, movie_id: u32, show_id: u32) -> int {
    match spec_locate_show(v, movie_id, show_id) {
        Ok((mi, si)) => v.movies[mi].shows[si].available_seats as int,
        Err(_) => 0,
    }
}

/// The seats of a show, free or held by a booking.
pub open spec fn seat_total(v: BookingSystemView, movie_id: u32, show_id: u32) -> int {
    free_seats(v, movie_id, show_id) + booked_seats(v, movie_id, show_id)
}

/// Taking seats of the show that `(movie_id, show_id)` locates lowers that
/// show's free seats by the seats taken, and no other show's.
proof fn lemma_free_seats_after_take(
    v: BookingSystemView,
    w: BookingSystemView,
    movie_id: u32,
    show_id: u32,
    mi: int,
    si: int,
    k: u32,
    m: u32,
    s: u32,
)
    requires
        spec_locate_show(v, movie_id, show_id) == Ok::<(int, int), BookingError>((mi, si)),
        w.movies == spec_take_seats(v.movies, mi, si, k),
        k <= v.movies[mi].shows[si].available_seats,
    ensures
        free_seats(w, m, s) == free_seats(v, m, s) - (if m == movie_id && s == show_id {
            k as int
        } else {
            0
        }),
{
    lemma_first_match(v.movies, movie_has_id(movie_id));
    let mv = v.movies[mi];
    lemma_first_match(mv.shows, show_has_id(show_id));
    let sh = mv.shows[si];
    let new_show = ShowView { available_seats: (sh.available_seats - k) as u32, ..sh };
    let new_movie = MovieView { shows: mv.shows.update(si, new_show), ..mv };
    assert(w.movies == v.movies.update(mi, new_movie));
    lemma_first_match_update(v.movies, mi, new_movie, movie_has_id(m));
    lemma_first_match(v.movies, movie_has_id(m));
    match first_match(v.movies, movie_has_id(m)) {
        None => {},
        Some(mj) => {
            if mj == mi {
                assert(m == movie_id);
                lemma_first_match_update(mv.shows, si, new_show, show_has_id(s));
                lemma_first_match(mv.shows, show_has_id(s));
                assert(w.movies[mi] == new_movie);
                match first_match(mv.shows, show_has_id(s)) {
                    None => {},
                    Some(sj) => {
                        if sj == si {
                            assert(s == show_id);
                        } else {
                            assert(new_movie.shows[sj] == mv.shows[sj]);
                            if s == show_id {
                                assert(sj == si);
                            }
                        }
                    },
                }
            } else {
                assert(w.movies[mj] == v.movies[mj]);
                if m == movie_id {
                    assert(mj == mi);
                }
            }
        },
    }
}

/// Adding a booking to user `ui` adds the seats it holds.
proof fn lemma_booked_after_push(
    users: Seq<UserView>,
    ui: int,
    b: Booking,
    m: u32,
    s: u32,
)
    requires
        0 <= ui < users.len(),
    ensures
        sum_of(
            users.update(ui, UserView { bookings: users[ui].bookings.push(b), ..users[ui] }),
            user_seats_of(m, s),
        ) == sum_of(users, user_seats_of(m, s)) + holds_seats_of(m, s)(b),
{
    let u = users[ui];
    lemma_sum_of_push(u.bookings, b, holds_seats_of(m, s));
    lemma_sum_of_update(
        users,
        ui,
        UserView { bookings: u.bookings.push(b), ..u },
        user_seats_of(m, s),
    );
}

/// Replacing booking `bi` of user `ui` changes the seats held by the
/// difference between the two bookings.
proof fn lemma_booked_after_replace(
    users: Seq<UserView>,
    ui: int,
    bi: int,
    nb: Booking,
    m: u32,
    s: u32,
)
    requires
        0 <= ui < users.len(),
        0 <= bi < users[ui].bookings.len(),
    ensures
        sum_of(spec_replace_booking(users, ui, bi, nb), user_seats_of(m, s)) == sum_of(
            users,
            user_seats_of(m, s),
        ) - holds_seats_of(m, s)(users[ui].bookings[bi]) + holds_seats_of(m, s)(nb),
{
    let u = users[ui];
    lemma_sum_of_update(u.bookings, bi, nb, holds_seats_of(m, s));
    lemma_sum_of_update(
        users,
        ui,
        UserView { bookings: u.bookings.update(bi, nb), ..u },
        user_seats_of(m, s),
    );
}

/// Every default show starts with 50 seats, all free.
pub proof fn law_initial_seat_totals(m: u32, s: u32)
    requires
        spec_locate_show(spec_initial(), m, s) is Ok,
    ensures
        seat_total(spec_initial(), m, s) == 50,
{
    let v = spec_initial();
    lemma_first_match(v.movies, movie_has_id(m));
    let mi = first_match(v.movies, movie_has_id(m))->0;
    lemma_first_match(v.movies[mi].shows, show_has_id(s));
    let si = first_match(v.movies[mi].shows, show_has_id(s))->0;
    assert(v.movies[mi].shows[si].available_seats == 50);
}

/// Booking seats moves them from the show's free seats to the new
/// booking: no show's seat total changes.
pub proof fn law_create_booking_keeps_seat_totals(
    v: BookingSystemView,
    user_id: u32,
    movie_id: u32,
    show_id: u32,
    seats: u32,
    m: u32,
    s: u32,
)
    requires
        create_booking_fits(v, user_id, movie_id, show_id, seats),
        spec_create_booking(v, user_id, movie_id, show_id, seats) is Ok,
    ensures
        seat_total((spec_create_booking(v, user_id, movie_id, show_id, seats)->Ok_0).0, m, s)
            == seat_total(v, m, s),
{
    let w = (spec_create_booking(v, user_id, movie_id, show_id, seats)->Ok_0).0;
    lemma_first_match(v.users, user_has_id(user_id));
    let ui = first_match(v.users, user_has_id(user_id))->0;
    let (mi, si) = spec_locate_show(v, movie_id, show_id)->Ok_0;
    let sh = v.movies[mi].shows[si];
    let b = Booking {
        booking_id: v.next_booking_id,
        movie_id,
        show_id,
        seats,
        total_amount: (sh.price_per_seat * seats) as u32,
        status: BookingStatus::Confirmed,
    };
    lemma_free_seats_after_take(v, w, movie_id, show_id, mi, si, seats, m, s);
    lemma_booked_after_push(v.users, ui, b, m, s);
}

/// Adding seats to a booking moves them from the show's free seats to the
/// booking: no show's seat total changes.
pub proof fn law_update_booking_keeps_seat_totals(
    v: BookingSystemView,
    user_id: u32,
    booking_id: u32,
    seats: u32,
    m: u32,
    s: u32,
)
    requires
        update_booking_fits(v, user_id, booking_id, seats),
        spec_update_booking(v, user_id, booking_id, seats) is Ok,
    ensures
        seat_total((spec_update_booking(v, user_id, booking_id, seats)->Ok_0).0, m, s) == seat_total(
            v,
            m,
            s,
        ),
{
    let w = (spec_update_booking(v, user_id, booking_id, seats)->Ok_0).0;
    lemma_first_match(v.users, user_has_id(user_id));
    let (ui, bi) = spec_locate_booking(v, user_id, booking_id)->Ok_0;
    lemma_first_match(v.users[ui].bookings, booking_has_id(booking_id));
    let b = v.users[ui].bookings[bi];
    let (mi, si) = spec_locate_show(v, b.movie_id, b.show_id)->Ok_0;
    let sh = v.movies[mi].shows[si];
    let new_seats = (b.seats + seats) as u32;
    let nb = Booking {
        seats: new_seats,
        total_amount: (new_seats * sh.price_per_seat) as u32,
        ..b
    };
    lemma_free_seats_after_take(v, w, b.movie_id, b.show_id, mi, si, seats, m, s);
    lemma_booked_after_replace(v.users, ui, bi, nb, m, s);
}

/// Cancelling a booking leaves every show's free and booked seats as they
/// were: the seats stay with the cancelled booking.
pub proof fn law_cancel_keeps_seat_totals(
    v: BookingSystemView,
    user_id: u32,
    booking_id: u32,
    m: u32,
    s: u32,
)
    requires
        spec_cancel_booking(v, user_id, booking_id) is Some,
    ensures
        seat_total(spec_cancel_booking(v, user_id, booking_id)->0, m, s) == seat_total(v, m, s),
{
    lemma_first_match(v.users, user_has_id(user_id));
    let (ui, bi) = spec_locate_booking(v, user_id, booking_id)->Ok_0;
    lemma_first_match(v.users[ui].bookings, booking_has_id(booking_id));
    let b = v.users[ui].bookings[bi];
    lemma_booked_after_replace(
        v.users,
        ui,
        bi,
        Booking { status: BookingStatus::Cancelled, ..b },
        m,
        s,
    );
}

/// Signing up adds a user without bookings: no show's seat total changes.
pub proof fn law_signup_keeps_seat_totals(
    v: BookingSystemView,
    username: Option<Seq<char>>,
    email: Option<Seq<char>>,
    password: Option<Seq<char>>,
    m: u32,
    s: u32,
)
    requires
        spec_signup(v, username, email, password) is Ok,
    ensures
        seat_total(spec_signup(v, username, email, password)->Ok_0, m, s) == seat_total(v, m, s),
{
    let u = UserView {
        id: v.next_user_id,
        username: username->0,
        email: email->0,
        password: password->0,
        bookings: Seq::empty(),
    };
    lemma_sum_of_push(v.users, u, user_seats_of(m, s));
}

/// No two users share an email address.
pub open spec fn emails_distinct(v: BookingSystemView) -> bool {
    forall|i: int, j: int|
        0 <= i < j < v.users.len() ==> #[trigger] v.users[i].email != #[trigger] v.users[j].email
}

/// Signing up never gives a second user an email address in use.
pub proof fn law_signup_keeps_emails_distinct(
    v: BookingSystemView,
    username: Option<Seq<char>>,
    email: Option<Seq<char>>,
    password: Option<Seq<char>>,
)
    requires
        emails_distinct(v),
        spec_signup(v, username, email, password) is Ok,
    ensures
        emails_distinct(spec_signup(v, username, email, password)->Ok_0),
{
    let w = spec_signup(v, username, email, password)->Ok_0;
    lemma_first_match(v.users, user_has_email(email->0));
    assert forall|i: int, j: int| 0 <= i < j < w.users.len() implies #[trigger] w.users[i].email
        != #[trigger] w.users[j].email by {
        assert(w.users[i] == v.users[i]);
        if j < v.users.len() {
            assert(w.users[j] == v.users[j]);
        } else {
            assert(!user_has_email(email->0)(v.users[i]));
        }
    }
}

/// Booking, changing and cancelling leave the users' email addresses as
/// they were.
pub proof fn law_bookings_keep_emails(
    v: BookingSystemView,
    user_id: u32,
    booking_id: u32,
    movie_id: u32,
    show_id: u32,
    seats: u32,
)
    requires
        emails_distinct(v),
    ensures
        spec_create_booking(v, user_id, movie_id, show_id, seats) matches Ok((w, _)) ==> emails_distinct(w),
        spec_update_booking(v, user_id, booking_id, seats) matches Ok((w, _)) ==> emails_distinct(w),
        spec_cancel_booking(v, user_id, booking_id) matches Some(w) ==> emails_distinct(w),
{
    lemma_first_match(v.users, user_has_id(user_id));
    if let Some(ui) = first_match(v.users, user_has_id(user_id)) {
        if let Ok((w, _)) = spec_create_booking(v, user_id, movie_id, show_id, seats) {
            assert forall|i: int| 0 <= i < w.users.len() implies #[trigger] w.users[i].email
                == v.users[i].email by {}
        }
        if let Ok((w, _)) = spec_update_booking(v, user_id, booking_id, seats) {
            assert forall|i: int| 0 <= i < w.users.len() implies #[trigger] w.users[i].email
                == v.users[i].email by {}
        }
        if let Some(w) = spec_cancel_booking(v, user_id, booking_id) {
            assert forall|i: int| 0 <= i < w.users.len() implies #[trigger] w.users[i].email
                == v.users[i].email by {}
        }
    }
}

/// One of the four sums of a summary.
pub enum SummedField {
    Amount,
    Seats,
    Confirmed,
    Cancelled,
}

/// The term that a booking adds to a sum.
pub open spec fn summed(field: SummedField) -> spec_fn(Booking) -> int {
    match field {
        SummedField::Amount => amount_of(),
        SummedField::Seats => seats_of(),
        SummedField::Confirmed => counts_status(BookingStatus::Confirmed),
        SummedField::Cancelled => counts_status(BookingStatus::Cancelled),
    }
}

/// Whether the sum of `field` over `bs` stays within the `u32` range.
fn sum_fits(bs: &Vec<Booking>, field: SummedField) -> (res: bool)
    ensures
        res == (sum_of(bs@, summed(field)) <= u32::MAX),
{
    let ghost s = bs@;
    let ghost f = summed(field);
    let mut total: u32 = 0;
    let mut i: usize = 0;
    while i < bs.len()
        invariant
            s == bs@,
            f == summed(field),
            i <= s.len(),
            total == sum_of(s.take(i as int), f),
        decreases s.len() - i,
    {
        proof {
            lemma_sum_of_take_step(s, f, i as int);
            lemma_sum_of_prefix(s, f, i + 1);
        }
        let b = bs[i];
        let term: u32 = match field {
            SummedField::Amount => b.total_amount,
            SummedField::Seats => b.seats,
            SummedField::Confirmed => if b.status == BookingStatus::Confirmed {
                1
            } else {
                0
            },
            SummedField::Cancelled => if b.status == BookingStatus::Cancelled {
                1
            } else {
                0
            },
        };
        assert(term == f(s[i as int]));
        match total.checked_add(term) {
            Some(t) => {
                total = t;
            },
            None => {
                assert(sum_of(s, f) > u32::MAX);
                return false;
            },
        }
        i = i + 1;
    }
    assert(s.take(i as int) =~= s);
    true
}

/// Every user id is below the next user id, and every booking id below the
/// next booking id.
pub open spec fn ids_below_next(v: BookingSystemView) -> bool {
    &&& forall|i: int| 0 <= i < v.users.len() ==> #[trigger] v.users[i].id < v.next_user_id
    &&& forall|i: int, j: int|
        0 <= i < v.users.len() && 0 <= j < v.users[i].bookings.len()
            ==> #[trigger] v.users[i].bookings[j].booking_id < v.next_booking_id
}

/// A fresh service has no users, hence no ids to clash.
pub proof fn law_initial_ids_below_next()
    ensures
        ids_below_next(spec_initial()),
        emails_distinct(spec_initial()),
{
}

/// Signing up keeps ids below the next ones, and the new user is the one
/// found under the id it was given.
pub proof fn law_signup_then_find(
    v: BookingSystemView,
    username: Option<Seq<char>>,
    email: Option<Seq<char>>,
    password: Option<Seq<char>>,
)
    requires
        ids_below_next(v),
        spec_signup(v, username, email, password) is Ok,
        v.next_user_id < u32::MAX,
    ensures
        ids_below_next(spec_signup(v, username, email, password)->Ok_0),
        first_match(
            spec_signup(v, username, email, password)->Ok_0.users,
            user_has_id(v.next_user_id),
        ) == Some(v.users.len() as int),
{
    let w = spec_signup(v, username, email, password)->Ok_0;
    assert forall|i: int| 0 <= i < v.users.len() implies #[trigger] w.users[i] == v.users[i] by {}
    assert(w.users[v.users.len() as int].bookings.len() == 0);
    assert forall|i: int, j: int|
        0 <= i < w.users.len() && 0 <= j < w.users[i].bookings.len() implies #[trigger] w.users[i].bookings[j].booking_id
        < w.next_booking_id by {
        assert(i < v.users.len());
        assert(w.users[i] == v.users[i]);
    }
    assert forall|j: int| 0 <= j < v.users.len() implies !user_has_id(v.next_user_id)(
        #[trigger] w.users[j],
    ) by {
        assert(w.users[j] == v.users[j]);
    }
    lemma_first_match_at(w.users, user_has_id(v.next_user_id), v.users.len() as int);
}

/// A new booking keeps ids below the next ones and is the one found under
/// its user and its booking id.
pub proof fn law_create_then_find(
    v: BookingSystemView,
    user_id: u32,
    movie_id: u32,
    show_id: u32,
    seats: u32,
)
    requires
        ids_below_next(v),
        create_booking_fits(v, user_id, movie_id, show_id, seats),
        spec_create_booking(v, user_id, movie_id, show_id, seats) is Ok,
    ensures
        ({
            let (w, c) = spec_create_booking(v, user_id, movie_id, show_id, seats)->Ok_0;
            &&& ids_below_next(w)
            &&& spec_locate_booking(w, user_id, c.booking_id) matches Ok((ui, bi))
                && w.users[ui].bookings[bi] == (Booking {
                booking_id: c.booking_id,
                movie_id,
                show_id,
                seats,
                total_amount: c.total_amount,
                status: BookingStatus::Confirmed,
            })
        }),
{
    let (w, c) = spec_create_booking(v, user_id, movie_id, show_id, seats)->Ok_0;
    lemma_first_match(v.users, user_has_id(user_id));
    let ui = first_match(v.users, user_has_id(user_id))->0;
    let u = v.users[ui];
    let b = w.users[ui].bookings.last();
    let nu = UserView { bookings: u.bookings.push(b), ..u };
    assert(w.users == v.users.update(ui, nu));
    lemma_first_match_update(v.users, ui, nu, user_has_id(user_id));
    assert forall|j: int| 0 <= j < u.bookings.len() implies !booking_has_id(v.next_booking_id)(
        #[trigger] nu.bookings[j],
    ) by {
        assert(nu.bookings[j] == v.users[ui].bookings[j]);
    }
    lemma_first_match_at(nu.bookings, booking_has_id(v.next_booking_id), u.bookings.len() as int);
    assert forall|i: int, j: int|
        0 <= i < w.users.len() && 0 <= j < w.users[i].bookings.len() implies #[trigger] w.users[i].bookings[j].booking_id
        < w.next_booking_id by {
        if i != ui {
            assert(w.users[i] == v.users[i]);
        } else if j < u.bookings.len() {
            assert(w.users[i].bookings[j] == v.users[i].bookings[j]);
        }
    }
    assert forall|i: int| 0 <= i < w.users.len() implies #[trigger] w.users[i].id < w.next_user_id by {
        if i != ui {
            assert(w.users[i] == v.users[i]);
        }
    }
}

/// Adding seats to a booking and cancelling one keep ids below the next
/// ones.
pub proof fn law_changes_keep_ids_below_next(
    v: BookingSystemView,
    user_id: u32,
    booking_id: u32,
    seats: u32,
)
    requires
        ids_below_next(v),
    ensures
        spec_update_booking(v, user_id, booking_id, seats) matches Ok((w, _)) ==> ids_below_next(w),
        spec_cancel_booking(v, user_id, booking_id) matches Some(w) ==> ids_below_next(w),
{
    lemma_first_match(v.users, user_has_id(user_id));
    if let Some(ui) = first_match(v.users, user_has_id(user_id)) {
        lemma_first_match(v.users[ui].bookings, booking_has_id(booking_id));
        if let Ok((w, _)) = spec_update_booking(v, user_id, booking_id, seats) {
            assert forall|i: int, j: int|
                0 <= i < w.users.len() && 0 <= j < w.users[i].bookings.len() implies #[trigger] w.users[i].bookings[j].booking_id
                < w.next_booking_id by {
                if i != ui {
                    assert(w.users[i] == v.users[i]);
                } else {
                    assert(w.users[i].bookings[j].booking_id == v.users[i].bookings[j].booking_id);
                }
            }
            assert forall|i: int| 0 <= i < w.users.len() implies #[trigger] w.users[i].id
                < w.next_user_id by {
                assert(w.users[i].id == v.users[i].id);
            }
        }
        if let Some(w) = spec_cancel_booking(v, user_id, booking_id) {
            assert forall|i: int, j: int|
                0 <= i < w.users.len() && 0 <= j < w.users[i].bookings.len() implies #[trigger] w.users[i].bookings[j].booking_id
                < w.next_booking_id by {
                if i != ui {
                    assert(w.users[i] == v.users[i]);
                } else {
                    assert(w.users[i].bookings[j].booking_id == v.users[i].bookings[j].booking_id);
                }
            }
            assert forall|i: int| 0 <= i < w.users.len() implies #[trigger] w.users[i].id
                < w.next_user_id by {
                assert(w.users[i].id == v.users[i].id);
            }
        }
    }
}

/// Every booking whose show can be found costs its seats times that show's
/// price per seat.
pub open spec fn amounts_consistent(v: BookingSystemView) -> bool {
    forall|i: int, j: int|
        0 <= i < v.users.len() && 0 <= j < v.users[i].bookings.len() ==> {
            let b = #[trigger] v.users[i].bookings[j];
            spec_locate_show(v, b.movie_id, b.show_id) matches Ok((mi, si)) ==> b.total_amount
                == b.seats * v.movies[mi].shows[si].price_per_seat
        }
}

/// Taking seats moves no movie or show and changes no price.
proof fn lemma_take_seats_keeps_prices(
    v: BookingSystemView,
    w: BookingSystemView,
    movie_id: u32,
    show_id: u32,
    mi: int,
    si: int,
    k: u32,
    m: u32,
    s: u32,
)
    requires
        spec_locate_show(v, movie_id, show_id) == Ok::<(int, int), BookingError>((mi, si)),
        w.movies == spec_take_seats(v.movies, mi, si, k),
    ensures
        spec_locate_show(w, m, s) == spec_locate_show(v, m, s),
        spec_locate_show(v, m, s) matches Ok((a, b)) ==> w.movies[a].shows[b].price_per_seat
            == v.movies[a].shows[b].price_per_seat,
{
    lemma_first_match(v.movies, movie_has_id(movie_id));
    let mv = v.movies[mi];
    lemma_first_match(mv.shows, show_has_id(show_id));
    let sh = mv.shows[si];
    let new_show = ShowView { available_seats: (sh.available_seats - k) as u32, ..sh };
    let new_movie = MovieView { shows: mv.shows.update(si, new_show), ..mv };
    assert(w.movies == v.movies.update(mi, new_movie));
    lemma_first_match_update(v.movies, mi, new_movie, movie_has_id(m));
    lemma_first_match_update(mv.shows, si, new_show, show_has_id(s));
    lemma_first_match(v.movies, movie_has_id(m));
    if let Some(mj) = first_match(v.movies, movie_has_id(m)) {
        if mj != mi {
            assert(w.movies[mj] == v.movies[mj]);
        } else {
            assert(w.movies[mj] == new_movie);
            lemma_first_match(mv.shows, show_has_id(s));
        }
    }
}

/// A fresh service holds no bookings.
pub proof fn law_initial_amounts_consistent()
    ensures
        amounts_consistent(spec_initial()),
{
}

/// Booking prices the new booking at its show's price and keeps every
/// other booking's price: amounts stay consistent.
pub proof fn law_create_booking_keeps_amounts(
    v: BookingSystemView,
    user_id: u32,
    movie_id: u32,
    show_id: u32,
    seats: u32,
)
    requires
        amounts_consistent(v),
        create_booking_fits(v, user_id, movie_id, show_id, seats),
        spec_create_booking(v, user_id, movie_id, show_id, seats) is Ok,
    ensures
        amounts_consistent((spec_create_booking(v, user_id, movie_id, show_id, seats)->Ok_0).0),
{
    let w = (spec_create_booking(v, user_id, movie_id, show_id, seats)->Ok_0).0;
    lemma_first_match(v.users, user_has_id(user_id));
    let ui = first_match(v.users, user_has_id(user_id))->0;
    let (mi, si) = spec_locate_show(v, movie_id, show_id)->Ok_0;
    assert forall|i: int, j: int|
        0 <= i < w.users.len() && 0 <= j < w.users[i].bookings.len() implies {
        let b = #[trigger] w.users[i].bookings[j];
        spec_locate_show(w, b.movie_id, b.show_id) matches Ok((a, c)) ==> b.total_amount == b.seats
            * w.movies[a].shows[c].price_per_seat
    } by {
        let b = w.users[i].bookings[j];
        lemma_take_seats_keeps_prices(v, w, movie_id, show_id, mi, si, seats, b.movie_id, b.show_id);
        if i != ui {
            assert(w.users[i] == v.users[i]);
        } else if j < v.users[i].bookings.len() {
            assert(w.users[i].bookings[j] == v.users[i].bookings[j]);
        } else {
            let price = v.movies[mi].shows[si].price_per_seat;
            assert(b.movie_id == movie_id && b.show_id == show_id);
            assert(b.total_amount == price * seats);
            assert(price * seats == seats * price) by (nonlinear_arith);
        }
    }
}

/// Adding seats prices the booking again at its show's price: amounts
/// stay consistent.
pub proof fn law_update_booking_keeps_amounts(
    v: BookingSystemView,
    user_id: u32,
    booking_id: u32,
    seats: u32,
)
    requires
        amounts_consistent(v),
        update_booking_fits(v, user_id, booking_id, seats),
        spec_update_booking(v, user_id, booking_id, seats) is Ok,
    ensures
        amounts_consistent((spec_update_booking(v, user_id, booking_id, seats)->Ok_0).0),
{
    let w = (spec_update_booking(v, user_id, booking_id, seats)->Ok_0).0;
    lemma_first_match(v.users, user_has_id(user_id));
    let (ui, bi) = spec_locate_booking(v, user_id, booking_id)->Ok_0;
    lemma_first_match(v.users[ui].bookings, booking_has_id(booking_id));
    let ob = v.users[ui].bookings[bi];
    let (mi, si) = spec_locate_show(v, ob.movie_id, ob.show_id)->Ok_0;
    assert forall|i: int, j: int|
        0 <= i < w.users.len() && 0 <= j < w.users[i].bookings.len() implies {
        let b = #[trigger] w.users[i].bookings[j];
        spec_locate_show(w, b.movie_id, b.show_id) matches Ok((a, c)) ==> b.total_amount == b.seats
            * w.movies[a].shows[c].price_per_seat
    } by {
        let b = w.users[i].bookings[j];
        lemma_take_seats_keeps_prices(v, w, ob.movie_id, ob.show_id, mi, si, seats, b.movie_id, b.show_id);
        if i != ui {
            assert(w.users[i] == v.users[i]);
        } else if j != bi {
            assert(w.users[i].bookings[j] == v.users[i].bookings[j]);
        }
    }
}

/// Cancelling changes no amount, and signing up adds a user without
/// bookings: amounts stay consistent.
pub proof fn law_cancel_and_signup_keep_amounts(
    v: BookingSystemView,
    user_id: u32,
    booking_id: u32,
    username: Option<Seq<char>>,
    email: Option<Seq<char>>,
    password: Option<Seq<char>>,
)
    requires
        amounts_consistent(v),
    ensures
        spec_cancel_booking(v, user_id, booking_id) matches Some(w) ==> amounts_consistent(w),
        spec_signup(v, username, email, password) matches Ok(w) ==> amounts_consistent(w),
{
    lemma_first_match(v.users, user_has_id(user_id));
    if let Some(w) = spec_cancel_booking(v, user_id, booking_id) {
        let (ui, bi) = spec_locate_booking(v, user_id, booking_id)->Ok_0;
        lemma_first_match(v.users[ui].bookings, booking_has_id(booking_id));
        assert forall|i: int, j: int|
            0 <= i < w.users.len() && 0 <= j < w.users[i].bookings.len() implies {
            let b = #[trigger] w.users[i].bookings[j];
            spec_locate_show(w, b.movie_id, b.show_id) matches Ok((a, c)) ==> b.total_amount
                == b.seats * w.movies[a].shows[c].price_per_seat
        } by {
            if i != ui {
                assert(w.users[i] == v.users[i]);
            } else if j != bi {
                assert(w.users[i].bookings[j] == v.users[i].bookings[j]);
            }
        }
    }
    if let Ok(w) = spec_signup(v, username, email, password) {
        assert forall|i: int, j: int|
            0 <= i < w.users.len() && 0 <= j < w.users[i].bookings.len() implies {
            let b = #[trigger] w.users[i].bookings[j];
            spec_locate_show(w, b.movie_id, b.show_id) matches Ok((a, c)) ==> b.total_amount
                == b.seats * w.movies[a].shows[c].price_per_seat
        } by {
            assert(i < v.users.len());
            assert(w.users[i] == v.users[i]);
        }
    }
}

/// A movie is the first one with the id `mid`.
pub open spec fn is_first_movie(movies: Seq<MovieView>, i: int, mid: u32) -> bool {
    &&& 0 <= i < movies.len()
    &&& movies[i].id == mid
    &&& forall|k: int| 0 <= k < i ==> #[trigger] movies[k].id != mid
}

/// A show is the first one with the id `sid` of its movie.
pub open spec fn is_first_show(shows: Seq<ShowView>, j: int, sid: u32) -> bool {
    &&& 0 <= j < shows.len()
    &&& shows[j].show_id == sid
    &&& forall|k: int| 0 <= k < j ==> #[trigger] shows[k].show_id != sid
}

/// A user is the first one with the id `uid`.
pub open spec fn is_first_user(users: Seq<UserView>, i: int, uid: u32) -> bool {
    &&& 0 <= i < users.len()
    &&& users[i].id == uid
    &&& forall|k: int| 0 <= k < i ==> #[trigger] users[k].id != uid
}

/// A booking is the first one with the id `bid` in its list.
pub open spec fn is_first_booking(bookings: Seq<Booking>, j: int, bid: u32) -> bool {
    &&& 0 <= j < bookings.len()
    &&& bookings[j].booking_id == bid
    &&& forall|k: int| 0 <= k < j ==> #[trigger] bookings[k].booking_id != bid
}

/// A booking is made for the show asked for: the confirmation names the
/// first movie with the booked movie id and that movie's first show with the
/// booked show id, charges that show's price for each seat, and that show
/// had the seats free and now has that many fewer. The first user with the
/// user id gets one more booking, confirmed, with these values.
pub proof fn law_create_booking_confirms_the_booked_show(
    v: BookingSystemView,
    user_id: u32,
    movie_id: u32,
    show_id: u32,
    seats: u32,
)
    requires
        create_booking_fits(v, user_id, movie_id, show_id, seats),
        spec_create_booking(v, user_id, movie_id, show_id, seats) is Ok,
    ensures
        ({
            let (w, c) = spec_create_booking(v, user_id, movie_id, show_id, seats)->Ok_0;
            &&& c.booking_id == v.next_booking_id
            &&& c.seats == seats
            &&& w.next_booking_id == v.next_booking_id + 1
            &&& w.users.len() == v.users.len()
            &&& w.movies.len() == v.movies.len()
            &&& exists|mi: int, si: int|
                #![trigger v.movies[mi].shows[si]]
                is_first_movie(v.movies, mi, movie_id) && is_first_show(
                    v.movies[mi].shows,
                    si,
                    show_id,
                ) && {
                    let sh = v.movies[mi].shows[si];
                    &&& c.movie_title == v.movies[mi].title
                    &&& c.show_time == sh.time
                    &&& c.total_amount == sh.price_per_seat * seats
                    &&& seats <= sh.available_seats
                    &&& w.movies[mi].shows[si].available_seats == sh.available_seats - seats
                }
            &&& exists|ui: int|
                #![trigger v.users[ui]]
                is_first_user(v.users, ui, user_id) && w.users[ui].bookings == v.users[ui].bookings.push(
                    Booking {
                        booking_id: c.booking_id,
                        movie_id,
                        show_id,
                        seats,
                        total_amount: c.total_amount,
                        status: BookingStatus::Confirmed,
                    },
                )
        }),
{
    let (w, c) = spec_create_booking(v, user_id, movie_id, show_id, seats)->Ok_0;
    lemma_first_match(v.users, user_has_id(user_id));
    let ui = first_match(v.users, user_has_id(user_id))->0;
    lemma_first_match(v.movies, movie_has_id(movie_id));
    let mi = first_match(v.movies, movie_has_id(movie_id))->0;
    lemma_first_match(v.movies[mi].shows, show_has_id(show_id));
    let si = first_match(v.movies[mi].shows, show_has_id(show_id))->0;
    assert(is_first_user(v.users, ui, user_id));
    assert(is_first_movie(v.movies, mi, movie_id));
    assert(is_first_show(v.movies[mi].shows, si, show_id));
    let sh = v.movies[mi].shows[si];
    assert(w.movies[mi].shows[si].available_seats == sh.available_seats - seats);
    assert(c.movie_title == v.movies[mi].title);
    assert(w.users[ui].bookings == v.users[ui].bookings.push(
        Booking {
            booking_id: c.booking_id,
            movie_id,
            show_id,
            seats,
            total_amount: c.total_amount,
            status: BookingStatus::Confirmed,
        },
    ));
}

/// Adding seats changes only the first booking with the given id of the
/// first user with the given id, and of it only its seats, which grow by
/// the seats added, and its total, which is the new seat count times the
/// price of its show: its ids and its status stay.
pub proof fn law_update_booking_changes_only_seats(
    v: BookingSystemView,
    user_id: u32,
    booking_id: u32,
    seats: u32,
)
    requires
        update_booking_fits(v, user_id, booking_id, seats),
        spec_update_booking(v, user_id, booking_id, seats) is Ok,
    ensures
        ({
            let (w, r) = spec_update_booking(v, user_id, booking_id, seats)->Ok_0;
            &&& w.next_booking_id == v.next_booking_id
            &&& w.next_user_id == v.next_user_id
            &&& w.users.len() == v.users.len()
            &&& forall|k: int|
                0 <= k < v.users.len() ==> #[trigger] w.users[k].bookings.len()
                    == v.users[k].bookings.len() && w.users[k].id == v.users[k].id
                    && w.users[k].email == v.users[k].email
            &&& forall|k: int, l: int|
                0 <= k < v.users.len() && 0 <= l < v.users[k].bookings.len() ==> {
                    let a = v.users[k].bookings[l];
                    let b = #[trigger] w.users[k].bookings[l];
                    &&& b.booking_id == a.booking_id
                    &&& b.movie_id == a.movie_id
                    &&& b.show_id == a.show_id
                    &&& b.status == a.status
                }
            &&& exists|i: int, j: int|
                #![trigger v.users[i].bookings[j]]
                is_first_user(v.users, i, user_id) && is_first_booking(
                    v.users[i].bookings,
                    j,
                    booking_id,
                ) && {
                    let a = v.users[i].bookings[j];
                    let b = w.users[i].bookings[j];
                    &&& b.seats == a.seats + seats
                    &&& r.booking_id == booking_id
                    &&& r.seats == b.seats
                    &&& r.total_amount == b.total_amount
                    &&& forall|k: int, l: int|
                        0 <= k < v.users.len() && 0 <= l < v.users[k].bookings.len() && (k != i
                            || l != j) ==> #[trigger] w.users[k].bookings[l]
                            == v.users[k].bookings[l]
                }
        }),
{
    let (w, r) = spec_update_booking(v, user_id, booking_id, seats)->Ok_0;
    lemma_first_match(v.users, user_has_id(user_id));
    let (i, j) = spec_locate_booking(v, user_id, booking_id)->Ok_0;
    lemma_first_match(v.users[i].bookings, booking_has_id(booking_id));
    assert(is_first_user(v.users, i, user_id));
    assert(is_first_booking(v.users[i].bookings, j, booking_id));
    assert forall|k: int, l: int|
        0 <= k < v.users.len() && 0 <= l < v.users[k].bookings.len() && (k != i || l != j) implies #[trigger] w.users[k].bookings[l]
        == v.users[k].bookings[l] by {
        if k != i {
            assert(w.users[k] == v.users[k]);
        }
    }
    assert forall|k: int| 0 <= k < v.users.len() implies #[trigger] w.users[k].bookings.len()
        == v.users[k].bookings.len() && w.users[k].id == v.users[k].id && w.users[k].email
        == v.users[k].email by {
        if k != i {
            assert(w.users[k] == v.users[k]);
        }
    }
    assert forall|k: int, l: int| 0 <= k < v.users.len() && 0 <= l < v.users[k].bookings.len() implies {
        let a = v.users[k].bookings[l];
        let b = #[trigger] w.users[k].bookings[l];
        &&& b.booking_id == a.booking_id
        &&& b.movie_id == a.movie_id
        &&& b.show_id == a.show_id
        &&& b.status == a.status
    } by {
        if k != i {
            assert(w.users[k] == v.users[k]);
        }
    }
    let a = v.users[i].bookings[j];
    let b = w.users[i].bookings[j];
    assert(b.seats == a.seats + seats);
}

/// The index of the first user with the id `id`.
fn find_user(users: &Vec<User>, id: u32) -> (res: Option<usize>)
    ensures
        match res {
            Some(i) => i < users@.len() && first_match(users_view(users@), user_has_id(id)) == Some(
                i as int,
            ),
            None => first_match(users_view(users@), user_has_id(id)) is None,
        },
{
    let ghost s = users_view(users@);
    let mut i: usize = 0;
    while i < users.len()
        invariant
            s == users_view(users@),
            i <= users@.len(),
            forall|j: int| 0 <= j < i ==> !user_has_id(id)(#[trigger] s[j]),
        decreases users@.len() - i,
    {
        if users[i].id == id {
            proof {
                lemma_first_match_at(s, user_has_id(id), i as int);
            }
            return Some(i);
        }
        i = i + 1;
    }
    proof {
        lemma_first_match_none(s, user_has_id(id));
    }
    None
}

/// The index of the first user with the email address `email`.
fn find_email(users: &Vec<User>, email: &String) -> (res: Option<usize>)
    ensures
        match res {
            Some(i) => i < users@.len() && first_match(users_view(users@), user_has_email(email@))
                == Some(i as int),
            None => first_match(users_view(users@), user_has_email(email@)) is None,
        },
{
    let ghost s = users_view(users@);
    let mut i: usize = 0;
    while i < users.len()
        invariant
            s == users_view(users@),
            i <= users@.len(),
            forall|j: int| 0 <= j < i ==> !user_has_email(email@)(#[trigger] s[j]),
        decreases users@.len() - i,
    {
        if users[i].email == *email {
            proof {
                lemma_first_match_at(s, user_has_email(email@), i as int);
            }
            return Some(i);
        }
        i = i + 1;
    }
    proof {
        lemma_first_match_none(s, user_has_email(email@));
    }
    None
}

/// The index of the first movie with the id `id`.
fn find_movie(movies: &Vec<Movie>, id: u32) -> (res: Option<usize>)
    ensures
        match res {
            Some(i) => i < movies@.len() && first_match(movies_view(movies@), movie_has_id(id))
                == Some(i as int),
            None => first_match(movies_view(movies@), movie_has_id(id)) is None,
        },
{
    let ghost s = movies_view(movies@);
    let mut i: usize = 0;
    while i < movies.len()
        invariant
            s == movies_view(movies@),
            i <= movies@.len(),
            forall|j: int| 0 <= j < i ==> !movie_has_id(id)(#[trigger] s[j]),
        decreases movies@.len() - i,
    {
        if movies[i].id == id {
            proof {
                lemma_first_match_at(s, movie_has_id(id), i as int);
            }
            return Some(i);
        }
        i = i + 1;
    }
    proof {
        lemma_first_match_none(s, movie_has_id(id));
    }
    None
}

/// The index of the first show with the id `id`.
fn find_show(shows: &Vec<Show>, id: u32) -> (res: Option<usize>)
    ensures
        match res {
            Some(i) => i < shows@.len() && first_match(shows_view(shows@), show_has_id(id)) == Some(
                i as int,
            ),
            None => first_match(shows_view(shows@), show_has_id(id)) is None,
        },
{
    let ghost s = shows_view(shows@);
    let mut i: usize = 0;
    while i < shows.len()
        invariant
            s == shows_view(shows@),
            i <= shows@.len(),
            forall|j: int| 0 <= j < i ==> !show_has_id(id)(#[trigger] s[j]),
        decreases shows@.len() - i,
    {
        if shows[i].show_id == id {
            proof {
                lemma_first_match_at(s, show_has_id(id), i as int);
            }
            return Some(i);
        }
        i = i + 1;
    }
    proof {
        lemma_first_match_none(s, show_has_id(id));
    }
    None
}

/// The index of the first booking with the id `id`.
fn find_booking(bookings: &Vec<Booking>, id: u32) -> (res: Option<usize>)
    ensures
        match res {
            Some(i) => i < bookings@.len() && first_match(bookings@, booking_has_id(id)) == Some(
                i as int,
            ),
            None => first_match(bookings@, booking_has_id(id)) is None,
        },
{
    let mut i: usize = 0;
    while i < bookings.len()
        invariant
            i <= bookings@.len(),
            forall|j: int| 0 <= j < i ==> !booking_has_id(id)(#[trigger] bookings@[j]),
        decreases bookings@.len() - i,
    {
        if bookings[i].booking_id == id {
            proof {
                lemma_first_match_at(bookings@, booking_has_id(id), i as int);
            }
            return Some(i);
        }
        i = i + 1;
    }
    proof {
        lemma_first_match_none(bookings@, booking_has_id(id));
    }
    None
}

impl Show {
    /// A copy of this show.
    pub fn duplicate(&self) -> (res: Show)
        ensures
            res@ == self@,
    {
        Show {
            show_id: self.show_id,
            time: self.time.clone(),
            price_per_seat: self.price_per_seat,
            available_seats: self.available_seats,
        }
    }
}

/// A copy of the shows `s`.
fn copy_shows(s: &Vec<Show>) -> (res: Vec<Show>)
    ensures
        shows_view(res@) == shows_view(s@),
{
    let mut res: Vec<Show> = Vec::new();
    let mut i: usize = 0;
    while i < s.len()
        invariant
            i <= s@.len(),
            res@.len() == i,
            shows_view(res@) == shows_view(s@).take(i as int),
        decreases s@.len() - i,
    {
        let ghost prev = res@;
        res.push(s[i].duplicate());
        assert forall|k: int| 0 <= k < i + 1 implies #[trigger] shows_view(res@)[k] == shows_view(
            s@,
        ).take(i + 1)[k] by {
            if k < i {
                assert(res@[k] == prev[k]);
                assert(shows_view(prev)[k] == shows_view(s@).take(i as int)[k]);
            }
        }
        assert(shows_view(res@) =~= shows_view(s@).take(i + 1));
        i = i + 1;
    }
    assert(shows_view(s@).take(i as int) =~= shows_view(s@));
    res
}

impl Movie {
    /// A copy of this movie and its shows.
    pub fn duplicate(&self) -> (res: Movie)
        ensures
            res@ == self@,
    {
        Movie {
            id: self.id,
            title: self.title.clone(),
            genre: self.genre.clone(),
            duration: self.duration,
            shows: copy_shows(&self.shows),
        }
    }
}

/// A copy of the bookings `s`.
fn copy_bookings(s: &Vec<Booking>) -> (res: Vec<Booking>)
    ensures
        res@ == s@,
{
    let mut res: Vec<Booking> = Vec::new();
    let mut i: usize = 0;
    while i < s.len()
        invariant
            i <= s@.len(),
            res@ == s@.take(i as int),
        decreases s@.len() - i,
    {
        res.push(s[i]);
        assert(res@ =~= s@.take(i + 1));
        i = i + 1;
    }
    assert(s@.take(i as int) =~= s@);
    res
}

impl BookingSystem {
    /// The service as it starts: no users, the default movies, user ids
    /// from 1 and booking ids from 1001.
    pub fn new() -> (res: BookingSystem)
        ensures
            res@ == spec_initial(),
    {
        let res = BookingSystem {
            next_user_id: 1,
            next_booking_id: 1001,
            users: Vec::new(),
            movies: default_movies(),
        };
        assert(users_view(res.users@) =~= Seq::<UserView>::empty());
        res
    }

    /// Registers a user; the email address must be valid and belong
    /// to no registered user. Returns the new user's id.
    pub fn signup(
        &mut self,
        username: Option<String>,
        email: Option<String>,
        password: Option<String>,
    ) -> (res: Result<u32, SignupError>)
        requires
            spec_signup(old(self)@, text_of(username), text_of(email), text_of(password)) is Ok
                ==> old(self)@.next_user_id < u32::MAX,
        ensures
            match spec_signup(old(self)@, text_of(username), text_of(email), text_of(password)) {
                Ok(w) => final(self)@ == w && res == Ok::<u32, SignupError>(old(self)@.next_user_id),
                Err(e) => final(self)@ == old(self)@ && res == Err::<u32, SignupError>(e),
            },
    {
        let (username, email, password) = match (username, email, password) {
            (Some(u), Some(e), Some(p)) => (u, e, p),
            _ => {
                return Err(SignupError::InvalidInput);
            },
        };
        if !valid_email(email.as_str()) {
            return Err(SignupError::InvalidInput);
        }
        if find_email(&self.users, &email).is_some() {
            return Err(SignupError::UserExists);
        }
        let ghost s = users_view(self.users@);
        let id = self.next_user_id;
        self.next_user_id = self.next_user_id + 1;
        self.users.push(User { id, username, email, password, bookings: Vec::new() });
        assert(users_view(self.users@) =~= s.push(self.users@.last()@));
        Ok(id)
    }

    /// The id that the next user gets.
    pub fn next_user_id(&self) -> (res: u32)
        ensures
            res == self@.next_user_id,
    {
        self.next_user_id
    }

    /// The id that the next booking gets.
    pub fn next_booking_id(&self) -> (res: u32)
        ensures
            res == self@.next_booking_id,
    {
        self.next_booking_id
    }

    /// Whether `signup` may be called with these inputs: a sign-up that
    /// would succeed needs a next user id below the `u32` maximum.
    pub fn signup_fits(
        &self,
        username: &Option<String>,
        email: &Option<String>,
        password: &Option<String>,
    ) -> (res: bool)
        ensures
            res == (spec_signup(self@, text_of(*username), text_of(*email), text_of(*password)) is Ok
                ==> self@.next_user_id < u32::MAX),
    {
        if self.next_user_id < u32::MAX {
            return true;
        }
        match (username, email, password) {
            (Some(_), Some(e), Some(_)) => !valid_email(e.as_str()) || find_email(
                &self.users,
                e,
            ).is_some(),
            _ => true,
        }
    }

    /// Whether `create_booking` may be called with these inputs.
    pub fn create_booking_fits(&self, user_id: u32, movie_id: u32, show_id: u32, seats: u32) -> (res:
        bool)
        ensures
            res == create_booking_fits(self@, user_id, movie_id, show_id, seats),
    {
        let ghost v = self@;
        if find_user(&self.users, user_id).is_none() {
            return true;
        }
        let mi = match find_movie(&self.movies, movie_id) {
            Some(i) => i,
            None => {
                return true;
            },
        };
        assert(v.movies[mi as int] == self.movies@[mi as int]@);
        let si = match find_show(&self.movies[mi].shows, show_id) {
            Some(i) => i,
            None => {
                return true;
            },
        };
        assert(v.movies[mi as int].shows[si as int] == self.movies@[mi as int].shows@[si as int]@);
        let sh = &self.movies[mi].shows[si];
        sh.available_seats < seats || (sh.price_per_seat.checked_mul(seats).is_some()
            && self.next_booking_id < u32::MAX)
    }

    /// Whether `update_booking` may be called with these inputs.
    pub fn update_booking_fits(&self, user_id: u32, booking_id: u32, seats: u32) -> (res: bool)
        ensures
            res == update_booking_fits(self@, user_id, booking_id, seats),
    {
        let ghost v = self@;
        let ui = match find_user(&self.users, user_id) {
            Some(i) => i,
            None => {
                return true;
            },
        };
        assert(v.users[ui as int].bookings == self.users@[ui as int].bookings@);
        let bi = match find_booking(&self.users[ui].bookings, booking_id) {
            Some(i) => i,
            None => {
                return true;
            },
        };
        let b = self.users[ui].bookings[bi];
        let mi = match find_movie(&self.movies, b.movie_id) {
            Some(i) => i,
            None => {
                return true;
            },
        };
        assert(v.movies[mi as int] == self.movies@[mi as int]@);
        let si = match find_show(&self.movies[mi].shows, b.show_id) {
            Some(i) => i,
            None => {
                return true;
            },
        };
        assert(v.movies[mi as int].shows[si as int] == self.movies@[mi as int].shows@[si as int]@);
        let sh = &self.movies[mi].shows[si];
        if sh.available_seats < seats {
            return true;
        }
        match b.seats.checked_add(seats) {
            None => false,
            Some(n) => n.checked_mul(sh.price_per_seat).is_some(),
        }
    }

    /// Whether `summary` may be called for `user_id`.
    pub fn summary_fits(&self, user_id: u32) -> (res: bool)
        ensures
            res == summary_fits(self@, user_id),
    {
        let ui = match find_user(&self.users, user_id) {
            Some(i) => i,
            None => {
                return true;
            },
        };
        let bs = &self.users[ui].bookings;
        let ghost s = bs@;
        assert(s == self@.users[ui as int].bookings);
        sum_fits(bs, SummedField::Amount) && sum_fits(bs, SummedField::Seats) && sum_fits(
            bs,
            SummedField::Confirmed,
        ) && sum_fits(bs, SummedField::Cancelled)
    }

    /// All movies with their shows.
    pub fn list_movies(&self) -> (res: &Vec<Movie>)
        ensures
            movies_view(res@) == self@.movies,
    {
        &self.movies
    }

    /// The first movie with the id `id`.
    pub fn movie_by_id(&self, id: u32) -> (res: Option<Movie>)
        ensures
            match first_match(self@.movies, movie_has_id(id)) {
                Some(i) => res is Some && res->0@ == self@.movies[i],
                None => res is None,
            },
    {
        match find_movie(&self.movies, id) {
            Some(i) => Some(self.movies[i].duplicate()),
            None => None,
        }
    }

    /// The shows of the first movie with the id `id`.
    pub fn movie_shows(&self, id: u32) -> (res: Option<Vec<Show>>)
        ensures
            match first_match(self@.movies, movie_has_id(id)) {
                Some(i) => res is Some && shows_view(res->0@) == self@.movies[i].shows,
                None => res is None,
            },
    {
        match find_movie(&self.movies, id) {
            Some(i) => Some(copy_shows(&self.movies[i].shows)),
            None => None,
        }
    }

    /// The bookings of the first user with the id `user_id`.
    pub fn get_user_bookings(&self, user_id: u32) -> (res: Option<Vec<Booking>>)
        ensures
            match first_match(self@.users, user_has_id(user_id)) {
                Some(i) => res is Some && res->0@ == self@.users[i].bookings,
                None => res is None,
            },
    {
        match find_user(&self.users, user_id) {
            Some(i) => Some(copy_bookings(&self.users[i].bookings)),
            None => None,
        }
    }

    /// Books `seats` seats of show `show_id` of movie `movie_id` for user
    /// `user_id`: the show's free seats drop by `seats` and the user gets a
    /// confirmed booking under the next booking id.
    pub fn create_booking(&mut self, user_id: u32, movie_id: u32, show_id: u32, seats: u32) -> (res:
        Result<BookingConfirmation, BookingError>)
        requires
            create_booking_fits(old(self)@, user_id, movie_id, show_id, seats),
        ensures
            match spec_create_booking(old(self)@, user_id, movie_id, show_id, seats) {
                Ok((w, c)) => final(self)@ == w && (res matches Ok(r) && r@ == c),
                Err(e) => final(self)@ == old(self)@ && (res matches Err(f) && f == e),
            },
    {
        let ghost v = self@;
        let ui = match find_user(&self.users, user_id) {
            Some(i) => i,
            None => {
                return Err(BookingError::UserNotFound);
            },
        };
        let mi = match find_movie(&self.movies, movie_id) {
            Some(i) => i,
            None => {
                return Err(BookingError::MovieNotFound);
            },
        };
        assert(v.movies[mi as int] == self.movies@[mi as int]@);
        let si = match find_show(&self.movies[mi].shows, show_id) {
            Some(i) => i,
            None => {
                return Err(BookingError::ShowNotFound);
            },
        };
        assert(v.movies[mi as int].shows[si as int] == self.movies@[mi as int].shows@[si as int]@);
        let available = self.movies[mi].shows[si].available_seats;
        if available < seats {
            return Err(BookingError::NotEnoughSeats);
        }
        let price = self.movies[mi].shows[si].price_per_seat;
        let total = price * seats;
        let movie_title = self.movies[mi].title.clone();
        let show_time = self.movies[mi].shows[si].time.clone();
        let ghost old_shows = self.movies@[mi as int].shows@;
        let ghost old_users = self.users@;
        let ghost old_movies = self.movies@;
        self.movies[mi].shows[si].available_seats = available - seats;
        let booking_id = self.next_booking_id;
        self.next_booking_id = self.next_booking_id + 1;
        let booking = Booking {
            booking_id,
            movie_id,
            show_id,
            seats,
            total_amount: total,
            status: BookingStatus::Confirmed,
        };
        self.users[ui].bookings.push(booking);
        proof {
            let m = v.movies[mi as int];
            let sh = m.shows[si as int];
            let new_shows = m.shows.update(
                si as int,
                ShowView { available_seats: (sh.available_seats - seats) as u32, ..sh },
            );
            assert(shows_view(self.movies@[mi as int].shows@) =~= new_shows) by {
                assert forall|k: int| 0 <= k < old_shows.len() && k != si implies #[trigger] self.movies@[
                    mi as int].shows@[k] == old_shows[k] by {}
            }
            assert forall|k: int| 0 <= k < old_movies.len() && k != mi implies #[trigger] self.movies@[k]
                == old_movies[k] by {}
            assert(movies_view(self.movies@) =~= spec_take_seats(v.movies, mi as int, si as int, seats));
            let u = v.users[ui as int];
            assert forall|k: int| 0 <= k < old_users.len() && k != ui implies #[trigger] self.users@[k]
                == old_users[k] by {}
            assert(users_view(self.users@) =~= v.users.update(
                ui as int,
                UserView { bookings: u.bookings.push(booking), ..u },
            ));
        }
        Ok(BookingConfirmation { booking_id, movie_title, show_time, seats, total_amount: total })
    }

    /// Adds `seats` seats to booking `booking_id` of user `user_id`: the
    /// booked show's free seats drop by `seats`, and the booking's total is
    /// its new seat count times the show's price.
    pub fn update_booking(&mut self, user_id: u32, booking_id: u32, seats: u32) -> (res: Result<
        BookingUpdate,
        BookingError,
    >)
        requires
            update_booking_fits(old(self)@, user_id, booking_id, seats),
        ensures
            match spec_update_booking(old(self)@, user_id, booking_id, seats) {
                Ok((w, r)) => final(self)@ == w && (res matches Ok(q) && q == r),
                Err(e) => final(self)@ == old(self)@ && (res matches Err(f) && f == e),
            },
    {
        let ghost v = self@;
        let ui = match find_user(&self.users, user_id) {
            Some(i) => i,
            None => {
                return Err(BookingError::UserNotFound);
            },
        };
        assert(v.users[ui as int].bookings == self.users@[ui as int].bookings@);
        let bi = match find_booking(&self.users[ui].bookings, booking_id) {
            Some(i) => i,
            None => {
                return Err(BookingError::BookingNotFound);
            },
        };
        let b = self.users[ui].bookings[bi];
        let mi = match find_movie(&self.movies, b.movie_id) {
            Some(i) => i,
            None => {
                return Err(BookingError::MovieNotFound);
            },
        };
        assert(v.movies[mi as int] == self.movies@[mi as int]@);
        let si = match find_show(&self.movies[mi].shows, b.show_id) {
            Some(i) => i,
            None => {
                return Err(BookingError::ShowNotFound);
            },
        };
        assert(v.movies[mi as int].shows[si as int] == self.movies@[mi as int].shows@[si as int]@);
        let available = self.movies[mi].shows[si].available_seats;
        if available < seats {
            return Err(BookingError::NotEnoughSeats);
        }
        let price = self.movies[mi].shows[si].price_per_seat;
        let ghost old_shows = self.movies@[mi as int].shows@;
        let ghost old_users = self.users@;
        let ghost old_movies = self.movies@;
        self.movies[mi].shows[si].available_seats = available - seats;
        let new_seats = b.seats + seats;
        let total = new_seats * price;
        let nb = Booking {
            booking_id: b.booking_id,
            movie_id: b.movie_id,
            show_id: b.show_id,
            seats: new_seats,
            total_amount: total,
            status: b.status,
        };
        self.users[ui].bookings.set(bi, nb);
        proof {
            let m = v.movies[mi as int];
            let sh = m.shows[si as int];
            let new_shows = m.shows.update(
                si as int,
                ShowView { available_seats: (sh.available_seats - seats) as u32, ..sh },
            );
            assert(shows_view(self.movies@[mi as int].shows@) =~= new_shows) by {
                assert forall|k: int| 0 <= k < old_shows.len() && k != si implies #[trigger] self.movies@[
                    mi as int].shows@[k] == old_shows[k] by {}
            }
            assert forall|k: int| 0 <= k < old_movies.len() && k != mi implies #[trigger] self.movies@[k]
                == old_movies[k] by {}
            assert(movies_view(self.movies@) =~= spec_take_seats(v.movies, mi as int, si as int, seats));
            assert forall|k: int| 0 <= k < old_users.len() && k != ui implies #[trigger] self.users@[k]
                == old_users[k] by {}
            assert(users_view(self.users@) =~= spec_replace_booking(v.users, ui as int, bi as int, nb));
        }
        Ok(BookingUpdate { booking_id: b.booking_id, seats: new_seats, total_amount: total })
    }

    /// Cancels booking `booking_id` of user `user_id`; returns whether there
    /// was such a booking. The seats are not given back to the show.
    pub fn delete_booking(&mut self, user_id: u32, booking_id: u32) -> (cancelled: bool)
        ensures
            match spec_cancel_booking(old(self)@, user_id, booking_id) {
                Some(w) => final(self)@ == w && cancelled,
                None => final(self)@ == old(self)@ && !cancelled,
            },
    {
        let ghost v = self@;
        let ui = match find_user(&self.users, user_id) {
            Some(i) => i,
            None => {
                return false;
            },
        };
        assert(v.users[ui as int].bookings == self.users@[ui as int].bookings@);
        let bi = match find_booking(&self.users[ui].bookings, booking_id) {
            Some(i) => i,
            None => {
                return false;
            },
        };
        let ghost old_users = self.users@;
        let b = self.users[ui].bookings[bi];
        let nb = Booking {
            booking_id: b.booking_id,
            movie_id: b.movie_id,
            show_id: b.show_id,
            seats: b.seats,
            total_amount: b.total_amount,
            status: BookingStatus::Cancelled,
        };
        self.users[ui].bookings.set(bi, nb);
        proof {
            assert forall|k: int| 0 <= k < old_users.len() && k != ui implies #[trigger] self.users@[k]
                == old_users[k] by {}
            assert(users_view(self.users@) =~= spec_replace_booking(v.users, ui as int, bi as int, nb));
        }
        true
    }

    /// The summary of the first user with the id `user_id`: how many
    /// bookings, what they cost, how many are confirmed and cancelled, and
    /// how many seats they hold.
    pub fn summary(&self, user_id: u32) -> (res: Option<Summary>)
        requires
            summary_fits(self@, user_id),
        ensures
            match first_match(self@.users, user_has_id(user_id)) {
                None => res is None,
                Some(ui) => res matches Some(r) && {
                    let u = self@.users[ui];
                    &&& r.user_id == user_id
                    &&& r.username@ == u.username
                    &&& r.total_bookings == u.bookings.len()
                    &&& r.total_amount_spent == sum_of(u.bookings, amount_of())
                    &&& r.confirmed_bookings == sum_of(
                        u.bookings,
                        counts_status(BookingStatus::Confirmed),
                    )
                    &&& r.cancelled_bookings == sum_of(
                        u.bookings,
                        counts_status(BookingStatus::Cancelled),
                    )
                    &&& r.total_seats_booked == sum_of(u.bookings, seats_of())
                },
            },
    {
        let ui = match find_user(&self.users, user_id) {
            Some(i) => i,
            None => {
                return None;
            },
        };
        let bs = &self.users[ui].bookings;
        let ghost s = bs@;
        assert(s == self@.users[ui as int].bookings);
        let mut total_amount: u32 = 0;
        let mut confirmed: u32 = 0;
        let mut cancelled: u32 = 0;
        let mut total_seats: u32 = 0;
        let mut i: usize = 0;
        proof {
            assert(s.take(0) =~= Seq::<Booking>::empty());
        }
        while i < bs.len()
            invariant
                s == bs@,
                i <= s.len(),
                sum_of(s, amount_of()) <= u32::MAX,
                sum_of(s, seats_of()) <= u32::MAX,
                sum_of(s, counts_status(BookingStatus::Confirmed)) <= u32::MAX,
                sum_of(s, counts_status(BookingStatus::Cancelled)) <= u32::MAX,
                total_amount == sum_of(s.take(i as int), amount_of()),
                total_seats == sum_of(s.take(i as int), seats_of()),
                confirmed == sum_of(s.take(i as int), counts_status(BookingStatus::Confirmed)),
                cancelled == sum_of(s.take(i as int), counts_status(BookingStatus::Cancelled)),
            decreases s.len() - i,
        {
            proof {
                lemma_sum_of_take_step(s, amount_of(), i as int);
                lemma_sum_of_take_step(s, seats_of(), i as int);
                lemma_sum_of_take_step(s, counts_status(BookingStatus::Confirmed), i as int);
                lemma_sum_of_take_step(s, counts_status(BookingStatus::Cancelled), i as int);
                lemma_sum_of_prefix(s, amount_of(), i + 1);
                lemma_sum_of_prefix(s, seats_of(), i + 1);
                lemma_sum_of_prefix(s, counts_status(BookingStatus::Confirmed), i + 1);
                lemma_sum_of_prefix(s, counts_status(BookingStatus::Cancelled), i + 1);
            }
            let b = bs[i];
            total_amount = total_amount + b.total_amount;
            total_seats = total_seats + b.seats;
            match b.status {
                BookingStatus::Confirmed => {
                    confirmed = confirmed + 1;
                },
                BookingStatus::Cancelled => {
                    cancelled = cancelled + 1;
                },
            }
            i = i + 1;
        }
        assert(s.take(i as int) =~= s);
        Some(
            Summary {
                user_id,
                username: self.users[ui].username.clone(),
                total_bookings: bs.len(),
                total_amount_spent: total_amount,
                confirmed_bookings: confirmed,
                cancelled_bookings: cancelled,
                total_seats_booked: total_seats,
            },
        )
    }

    /// The first booking with the id `booking_id` of the first user with
    /// the id `user_id`.
    pub fn get_specific_booking(&self, user_id: u32, booking_id: u32) -> (res: Option<Booking>)
        ensures
            res == match spec_locate_booking(self@, user_id, booking_id) {
                Ok((ui, bi)) => Some(self@.users[ui].bookings[bi]),
                Err(_) => None,
            },
    {
        match find_user(&self.users, user_id) {
            None => None,
            Some(i) => match find_booking(&self.users[i].bookings, booking_id) {
                Some(j) => Some(self.users[i].bookings[j]),
                None => None,
            },
        }
    }
}

} // verus!
