A basic HTTP CONNECT proxy whose decisions are verified with [Verus](https://github.com/verus-lang/verus).

- `src/` is the library: it reads requests (`parse_req`), words the proxy's own responses (`resp`)
  and decides, step by step, what happens to a client connection (`connect`). It does no I/O.
  `laws` proves what holds of every connection, and `outside` holds what is believed of `httparse`.
- `app/` is the proxy itself: it does the I/O that the library asks for.
- `tests/` runs the library.

To try it, start the proxy, then point a client at it:

```shell
curl -v -x http://127.0.0.1:8080 https://www.google.com
```
