# red_browser

The verified core of RedBrowser, a browser whose only connection is a DNS tunnel, and
of its content proxy server.

`src/` is the library, verified with Verus:

- `protocol`: the request and response messages, and their framing (a big-endian `u32`
  length, then the payload), with the read-back laws.
- `router`: where each request goes, and the decisions of a connection (oversized and
  undecodable requests); `instagram`, `telegram`, `whatsapp`: their placeholder answers.
- `liteweb`: the page pipeline's logic: accepting fetched pages, readability extraction,
  sanitizing (dangerous elements, handlers, tracking attributes, tracking links and
  images, with final guards, in `liteweb::inert`, under which the output provably opens
  no dangerous element and no tag in it holds an event handler or a script link), the
  tracker list, image rewriting, the page template, the final page, and the
  least-recently-used page cache.
- `search`: query encoding and the compact result page.
- `text`, `pattern`, `urls`, `dom`, `codec`: character-level helpers, and the calls into
  `regex`, `url`, `scraper`, `flate2` and `base64`, each behind a trusted wrapper (the
  cache calls `lru` the same way).

`app/` is the server program: the listener, HTTP requests, image downloads and
re-encoding, the lock around the page cache, and the CBOR wire form of the messages.
