# encodec_api

The logic of a service that encodes uploaded audio with EnCodec, in Verus.

An ingress takes requests at `/encode`, `/encode/ecdc` and `/encode/stream`, turns what it
is sent into canonical samples, and caches them. Workers fetch the cached requests, encode
them, and answer with the encoded audio, with a picture that holds it, or with a stream of
events, one JSON object to a line.

`src/` is the library. Every function states what it returns and is proved to return it, on
the strength of what is stated of the calls into other crates.

| Module | What it holds |
| --- | --- |
| `text`, `digest`, `json`, `headers` | text, SHA-256, JSON and header maps, over the crates that provide them |
| `error`, `response` | errors, and how they are answered |
| `options`, `seconds` | what a client may choose |
| `request`, `form` | reading requests |
| `protocol`, `prepared`, `samples` | prepared programs, how they are handed from ingress to worker, and their samples |
| `config`, `router` | the configuration and the routes |
| `ingress`, `upload` | exchanges with clients, and uploads |
| `picture` | the picture, the artifacts and the headers of a response |
| `events`, `artifacts`, `session` | the events of a streamed encoding |
| `relay` | relaying a response to a websocket |
| `worker` | the answers of a worker |

`app/` is the program around the library: the command line, the connections, the encoder,
and all that is calculated in floating point. `tests/` runs the library.
