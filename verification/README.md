# http_rust

The request-handling logic of five small HTTP backends, verified with Verus:

- `src/notes.rs`: greetings, a list of users, and age checks that say who is
  blocked (the latest check of a name decides).
- `src/todo.rs`: a to-do list with numbered tasks; lookup, completion,
  deletion, filtering, statistics, and replacing the whole list.
- `src/rentals.rs`: car rental bookings per user; a booking's cost is its
  days times its rent per day.
- `src/tickets.rs`: movie ticket bookings; every show's seats are either free
  or held by a booking.
- `src/text.rs`: integer parsing as `str::parse` does it, text comparison,
  and the characters of a string.
- `src/sequences.rs`: first/last match, filters and sums over sequences.

Each state type has a view, each operation a spec function that its
`ensures` uses, and the invariants the services keep are stated and proved
as `law_*` proof functions.

`app/` holds the HTTP servers (actix-web, serde, serde_json); the first
command-line argument picks one: `file-system`, `filesystem`, `todo`,
`car-rental` or `ticket-booking`.
