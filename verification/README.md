# smb_io

An SMB2/SMB3 client engine for fast positional file I/O, written in Rust and verified with Verus.

The core is a set of state machines over bytes: a request is worked out and handed to the caller, the
response is handed back, and the next request or the result comes out. Nothing in the library does
I/O, so everything it decides is stated in a contract and proved.

## Layout

```text
src/            the library
  bytes.rs        little-endian fields, and where bytes stand in a message
  text.rs         UTF-16 and small text operations
  crypto.rs       hashes, message authentication codes, random bytes, zeroizing storage
  clock.rs        spans of time and the system clock
  wire/           encoding and decoding of SMB2 messages, and TCP framing
  auth/           SPNEGO, anonymous NTLM, NTLMv2
  client/         connections, sessions, credits, signing, reads, reconnect
  fs/             file and directory queries
  stream/         read-ahead, caching, and the video broker
  android/        opaque handles, read recovery, and what the JNI functions decide
  testkit.rs      a transport that plays a script
  probe.rs        what the command-line probe works out
app/            sockets, tasks, queues, JNI and the command line around the library
tests/          tests of the library
```

## What is proved

- Public functions say when they succeed, what they return, and which error comes on which input. Where
  the clock, the random source or an authentication provider decides, the contract says what becomes of
  each of its answers.
- The data of a read, serial, pipelined or cancelable, is what stands in the file where the read
  begins, without a gap, whatever the order in which responses arrive.
- An error of the server or a cancellation ends a read only when no request of it is outstanding.
- MessageIds are never used twice, and no request is sent without the credits that it costs.
- What was signed verifies, and signing touches only the flags and the signature.
- A reconnect accepts only the file that was open before, and a read is replayed at most once.
- Cached data is the file's, and a seek makes all earlier plans stale.

What comes from other crates (hashes, codes, random bytes, zeroizing storage) and from the standard
library is trusted: each such item names the function that it stands for and says what is claimed.

SMB1 is not supported.
