# onvif_discovery

Finds ONVIF cameras with WS-Discovery and asks them for their RTSP streams.

`src/` is a Verus library. It holds everything that is decided: which probes are sent, what a
ProbeMatch says, which devices are kept, which requests an interrogation makes and what follows
from each reply. Verus proves the contracts, but for those of the small functions named below the
table.

| module | what it is about |
| --- | --- |
| `text`, `addr`, `time` | text, IPv4 addresses, spans of time |
| `xml`, `elements` | documents as rows of events, text by element |
| `discovery` | options, results and errors of a discovery |
| `soap`, `auth` | the messages that are sent, and their authentication |
| `tags`, `disclosure` | that a password does not stand in a message as a text of its own |
| `subnet`, `plan` | which addresses are probed, and in which order |
| `probe_match`, `scopes`, `probe` | from an answer to a device |
| `collector` | the devices found so far, and when to stop |
| `device` | what is known about a device |
| `url_parts`, `http` | the HTTP exchange that carries a request |
| `responses`, `services`, `profiles` | what the replies of a device say |
| `interrogation` | the course of an interrogation |

What the library takes from other crates (`quick-xml`, `url`, `base64`, `sha1`, `chrono`, `rand`,
`uuid`) goes through small functions marked `#[verifier::external_body]`; so do lossy decoding of
UTF-8, case mapping and the parsing of a `u8`, which come from std. `String::push` has a contract of
its own. All these contracts are believed, and each says in its comment what it claims.

`app/` does the input and output: sockets, timeouts, clocks and logging, and the copies of the
results that can be serialised.
