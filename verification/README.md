# api_req

Make API calls easier: a payload says how it travels (method, path, headers,
body format, a step before the response is deserialized), a caller says
where (base URL, client settings), and a request walks through the steps of
one call.

- `src/` is the verified library. `request` is the state machine of one
  call: the first poll builds the request and hands it out to be sent, the
  outcome of sending and the body come back as events, and each step says
  what to do next. `simple` is the simpler form of the same machine (method
  given by name, URL made by concatenation, GET payloads in the query
  string). `derive` and `template` hold what the `Payload` and `ApiCaller`
  derives make of their attribute (`api_req(...)`, or `payload(...)` and
  `api(...)`; lists of pairs written as tuples or arrays). `attr_input`
  reads a derive's input tokens with `syn` into plain values and turns
  them into the attribute items the derives read, with exact contracts
  from what was read to the items. A streaming request starts with
  `poll_stream`, which reads the payload's path once. `macros` holds an
  example caller and payload.
- `app/` runs the steps with `reqwest` and `serde`, and writes the derives'
  impls with `quote`; it also holds the shared cookie jar (`keep_cookies`).
- Header names are compared without regard to ASCII case and kept in small
  letters. The header map holds names and values as text; the app turns it
  into `reqwest`'s map when a request is sent, and a name or value that is
  no header panics there. A payload that chooses no body format takes that of its method:
  GET sends its fields in the query string, POST as a JSON body, and other
  methods are not supported. A body the deserializer refuses gives
  `ApiErr::Serde` holding that body.
- The contracts speak of what a payload's and a caller's methods return
  (`call_ensures`): an implementation verified in the library says in its
  own `ensures` what that is, and the impls that the derives generate, plain
  Rust outside the verifier, are held to what they do. The trait methods
  that have defaults (headers, path, body format, the step before
  deserializing, the client) state what the defaults give.
