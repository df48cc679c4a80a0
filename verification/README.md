# forum

A small discussion forum: users log in, open topics and post messages in
them. The library (`src/`) holds the forum's logic with its contracts, proved
by Verus; `app/` is the web server around it (routing, cookies, SQLite).

- `text`: characters, trimming, decimal numbers, UTF-8 length.
- `auth`: the session cookie, CSRF tokens, passwords, the login decisions.
- `slug`: topic slugs and the search for a free one.
- `handlers`: the checks of the topic, post and delete forms.
- `views`, `html`, `timestamp`: the HTML pages.
- `error`, `config`, `seed`: error pages, settings, seeding topics.

The same binary runs the server, or the `hash` and `seed` helpers when it is
invoked under those names.
