# rebels

The radio, the logging and the version rules of the Rebels client, with
contracts that Verus proves.

- `src/audio/music_player.rs`: stations, and what play, pause, next and previous
  call for.
- `src/audio/playback.rs`: the shared state of playback and the commands of the
  audio thread.
- `src/audio/stream.rs`, `connection.rs`, `radio_stream.rs`: station URLs, the
  request and its answer, the bytes of the body.
- `src/audio/decode.rs`, `resample.rs`, `radio_buffer.rs`: the decoder's
  decisions, the conversion to stereo, the bounded queue of samples.
- `src/logging.rs`, `src/decimal.rs`: log lines and setup, version numbers.
- `app/`: the threads, sockets and files around the library.

The library is sequential: each function is one step of one thread. `app/` runs
the steps under a lock and does what they ask for. The proof functions whose
names begin with `law_` state what the steps do together.
