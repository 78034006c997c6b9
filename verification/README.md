# gateway

A small HTTP gateway. Requests are routed by their path, `/module/method`,
to the methods that each module serves: `auth` (users joining with a
mentoring key, authenticating, deleted and listed; passwords are kept as
Argon2 hashes in a `sled` tree, which `app/` reads and writes as the
library's handlers ask) and `static` (files streamed from a
directory). Access and refresh tokens are JWTs signed with HS256. A second
server reads raw HTTP/1.x request lines and headers over TCP.

Layout:

- `src/` is the library, verified with Verus: `text` (whitespace splitting,
  decimal numbers), `table` (a string-keyed map with distinct keys), `http`
  (request line, header lines, response text), `proto` (routing a request
  path, `Content-Length`), `modules` (the routing table), `security`
  (making tokens, and reading the user of a request from its access
  token), `login` and `staticfs` (the two modules' decisions), `utils`,
  `contact`.
- `app/` is the program around it: the hyper server, the raw TCP server,
  the store and the file I/O, and the contact service client.
- `tests/` runs the library.
