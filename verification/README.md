# stream-playback

Receives an audio stream over UDP and plays its first channel through the default output device,
with a web interface to watch it and to edit its configuration.

The library under `src/` is written in [Verus](https://github.com/verus-lang/verus): what each
function does is stated in its contract, and Verus proves it. The program under `app/` is ordinary
Rust around it: sockets, files, timers, the sound device and the web server.

## Layout

| Path | What |
| --- | --- |
| `src/config.rs` | settings from the command line, the configuration file and the defaults |
| `src/receiver.rs` | which datagrams count, what was lost, and the samples of the first channel |
| `src/playback.rs`, `src/ring.rs` | the ring buffer, and what is heard in each frame of the device |
| `src/stats.rs` | packet counters and the line that reports them |
| `src/gui/` | access by password, login, configuration, counters, waveform frames |
| `src/bytes.rs`, `src/text.rs` | little-endian numbers, numbers as text |

Proof functions whose names begin with `law_` state what holds of the library as a whole.

What is trusted rather than proved stands where it is used, with a comment that says what it
claims: the ring buffer of `ringbuf` (`src/ring.rs`), base64 and constant-time comparison
(`src/gui/auth.rs`), JSON and TOML (`src/gui/json.rs`), and two functions of the standard library.

## Packets

Twelve bytes of header, of which the last four are the packet number, and then the channels one
after the other, each a block of 16-bit samples. All numbers are little-endian. The expected size
is `12 + channels * samples_per_packet * 2` bytes, unless `--pkt-len` says otherwise.

## Report

Once a second, in UTC:

```
[12:34:57] recv/s=500   lost/s=0     total_recv=500   total_lost=0   pkt_id=499
```
