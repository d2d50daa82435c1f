# spotlyt

A concert finder: users sign in (with a username and password, or with Google), link
their Spotify account, and get upcoming concerts of their top Spotify artists from
Ticketmaster. A desktop variant signs in to Spotify through the browser and prints the
concerts.

## Layout

- `src/` is the library, written in Verus and verified. It holds the logic of the server
  and of the desktop client, with contracts over mathematical models:
  - `cookies`: reading the `Cookie` header and building `Set-Cookie` values;
  - `auth`: Google and Spotify sign-in URLs, client settings, token responses;
  - `handlers`: what each HTTP handler decides (registration, login, callbacks, status);
  - `ticketmaster`, `spotify`, `types`: search results, merging concerts, artist-name
    normalisation, token freshness and refresh;
  - `db`, `session`, `error`, `time`: token writes, sessions, error responses, instants;
  - `desktop`: the desktop client's sign-in callback and concert list;
  - `text`: white space, trimming and words, shared by the parsers.
  The laws of the library (cookies read back as written, normalisation is idempotent,
  merged concerts never share an event, a registered password logs in, ...) are public
  proof functions whose names start with `law_`.
- `app/` is the program around the library: the axum server, the database queries, the
  HTTP calls to Spotify, Google and Ticketmaster, and the desktop sign-in loop.
- `tests/` runs the library on concrete values.
