# transparency

The decisions of a transparent proxy, verified with Verus, and the I/O around them.

Connections are redirected to the proxy without their clients knowing of it. The proxy looks at
the first bytes of a connection to tell HTTP/1, HTTP/2 and everything else apart; what is not
HTTP is forwarded to where it was going. Requests that come by HTTP/1 get an absolute target and
lose the header fields that are meant for one connection only before the proxy's service sees
them.

- `src/` is the verified library. Each function states in its contract what it decides; the
  `law_` functions state what holds of several of them together. Calls into `http`, `httparse`,
  `bytes` and `h2` stand behind small functions marked `external_body`, whose contracts are
  believed.
- `app/` drives the library with futures, `hyper` and an HTTP/2 implementation. The parts of a
  proxy that it needs besides are the traits in `app/seams.rs`. The traits `Service` and
  `NewService` come from `tower-service`, the crate of `tower`'s service traits.
- `tests/` runs the library on concrete values.
