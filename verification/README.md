# xiaoai_agent

The logic of a voice agent that runs on a smart speaker, written in Verus: every
function of `src/` carries a contract that Verus proves. `app/` is the ordinary
Rust around it: sockets, processes, timers, the network and the vendor's native
libraries.

## The library

- `wire`, `speech`, `native`: the protobuf messages of the speech front end, the
  state of its service, and the vendor's processes and sockets beside it.
- `vad`, `capture`, `audio`, `asr`: finding speech in audio, recording an
  utterance, resampling and WAV files, and speech recognition.
- `session`, `agent`: a conversation from the wake word to its end, and the
  memory of the language model.
- `music`, `songs`, `playlist`, `jobs`: what is asked of the music services, what
  they answer, the queue, and requests that take several steps.
- `weather`, `mcp`, `legacy_sse`, `airplay`: the other services.
- `kws`, `vpm`, `vpm_probe`, `asr_probe`, `aivs`: the wake-word monitor and the
  probes.
- `config`, `device`, `shell`: settings, and the scripts that drive the speaker.
- `text`, `json`, `urls`, `paths`, `faults`, `sorting`: the vocabulary of the
  contracts.

Functions that would wait for something return what is to be done instead, as a
list of actions, and are told what came of it as an event. `app/` performs the
actions. Each module states the laws of its part as public proof functions whose
names begin with `law_`.

## What is not proved

Calls into other crates and into parts of the standard library are believed to do
what the contract beside them says. Each such item is marked
`external_body` or is an `assume_specification`, and its comment names the
function that is called. Where the result takes pages to describe (a parsed JSON
text, a URL, a digest), it is given a name, and contracts speak of that name.

Floating point stays in `app/`: gain, the root mean square of a block, decibels,
and settings in seconds. Resampling is done in whole numbers that round as double
precision does. Levels enter the library as numbers that order as the
levels do, and times as nanoseconds.
