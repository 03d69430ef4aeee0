# Joya

Joya is a real-time voice-to-voice interpreter. It listens to the other side of a
call, transcribes what is said, has a model translate it, and speaks the translation
into your headphones. At the same time it can do the reverse with your own voice, and
translate foreign text on the screen in place.

## Layout

- `src/` is the library: everything that decides something. It is written in
  [Verus](https://github.com/verus-lang/verus). Its functions carry contracts, which
  are proved except where another crate is called (see below).
- `app/` is the program around it: audio devices, sockets, HTTP, windows, the
  configuration file, and the arithmetic on audio samples.
- `tests/` runs the library on concrete values.

## The library

| Module | What it decides |
| --- | --- |
| `config` | settings and their defaults; the languages of the two directions |
| `devices` | which device to capture or to play to, and how devices are listed |
| `audio` | where utterances start and end; input levels; sample queues |
| `stt` | the messages of a realtime transcription session and their order |
| `translate`, `chat` | the request for a translation, and the reply |
| `tts`, `wav` | the voice, the request for speech, and the audio that comes back |
| `playback` | the outputs of a direction, and how they are filled |
| `pipeline` | one utterance from its transcript to its speech, and what the user is told |
| `app` | which directions start, and what the main window shows |
| `screen_capture`, `monitor` | which output to capture, and the display that goes with it |
| `screen_translate` | the request for what changed on the screen, and the reply |
| `overlay_board`, `screen_overlay` | the overlays that are shown, and when the screen is captured |
| `json`, `encoding`, `http`, `text`, `single`, `sequence` | what the others share |

State that lives on is modelled as a machine: a ghost state, a spec function `after`
from state and event to the next state, and a spec function that says what is to be
done. The executable type shows that state as its view.

Floating-point numbers do not occur in the library. Where one decides something (a
probability of speech, an input level, a position on the screen), the library takes
its bit pattern and compares it as `single` defines.

## What is taken on trust

Functions of other crates are called through wrappers, marked
`#[verifier::external_body]`, whose doc comments say what is claimed of them:
`serde_json` in `json`, `base64` in `encoding`, `image` in `screen_capture`, `uuid` in
`monitor`, and three functions of the standard library in `text`.
