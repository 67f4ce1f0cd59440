# Hook

A very simple webhook inspection service. All you need is `curl`.

Listen to a hook with `curl -L hook.snd.one/my/hook`; the path can be just about
anything. Any HTTP requests to the same path are then streamed to your console,
for example that of `curl -L hook.snd.one/my/hook -d hello=world`. Only a `GET`,
which listens or shows a page, and `OPTIONS`, which is answered, are not. The
paths are global, and nothing is stored.

## Layout

- `src/` is the library, verified with Verus: routing, the table of listeners,
  passing requests on, what a listener is sent, redirection to HTTPS, and the
  configuration of the certificate.
- `app/` is the server around it: sockets, files and the environment. It serves
  `templates/view.html` and `favicon.ico` from the directory it is started in.
- `tests/` run the library.

The contracts of the functions that call hyper, serde_json, colored_json, rustls
and rustls-pemfile are stated in `src/`, beside the calls, and not proved.
