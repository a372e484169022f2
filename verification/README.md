# http-cmp

A small comparison of HTTP servers: a counter behind `axum`, the same counter behind
`hyper` on top of `tokio-uring`, and a tester that runs against either and tells the round
trip times.

## Layout

- `src/` is the verified library. Verus proves of its functions that they meet their
  contracts. The exceptions are the small wrappers around calls into other crates and the
  standard library's atomics: what they claim is relied on, and each says what that is.
  - `counter`: the shared counter, its requests and responses.
  - `service`: what the HTTP service answers, and in which steps.
  - `drain`: collecting a body that arrives in frames.
  - `outgoing`, `incoming`, `uring_compat`: the two halves of a connection over a stream
    that takes and gives whole buffers, and the connection itself.
  - `hyper_tokio_compat`: the holder of a connection that the HTTP server is given.
  - `scenario`, `client`, `statistics`: one run of the tester and a series of them, what it
    reads out of a response, and what many runs amount to.
  - `text`: comparing and reading text.
  - `body`, `bytes_buffer`, `message`, `read_cursor`: what is relied on of the crates
    `bytes`, `http-body-util`, `hyper` and `tokio`.
- `app/` is the program around it: sockets, runtimes, JSON and printing. It is run as
  `http-cmp axum-server`, `http-cmp uring-hyper` or `http-cmp tester`, in a directory with
  the page `index.html`.
- `tests/` runs the library on concrete values.

## What is proved of the whole

The public proof functions whose names begin with `law_` state it. Among others:

- Whatever is written and flushed and however much the stream takes at a time, accepted
  bytes go out in the order of acceptance, and none is lost or sent twice.
- Readers are served the bytes of the stream in order, each of them once.
- A body comes out as its chunks one after the other.
- The count is the last value put in place and all later additions together, in whatever
  order they happen. Where nobody else changes it meanwhile, every answer about it tells
  the count that the requests before left behind, and a run of the tester leaves the same
  count behind, whatever it found.
- The mean of the measured times lies between the smallest and the largest, and the order
  of the runs plays no part.
