# Petto

A small companion that lives in a window on the desktop. It idles, reacts, sleeps late at night,
talks through a local language model, and speaks up by itself when nobody has talked to it for a
while.

`src/` is the library, verified with Verus: every function states what it does, and Verus proves
it. A few functions are trusted instead: they are marked `external_body` or stand in an
`assume_specification`, call into `serde_json`, `chrono`, `image` or the standard library, and say
above them what is believed of the call without proof.

- `text`: trimming, splitting, numbers as text.
- `json`: JSON values, and the calls into `serde_json`.
- `llm`: messages, what is made of the model's answers, example dialogues, requests.
- `clock`: what the library learns from the clock, with `chrono`.
- `catalog`: items by name.
- `animation`: clips and the player that steps through their frames.
- `state`, `state_laws`: how the companion feels and what it is doing, and what holds of it
  whatever happens.
- `assets`: pictures, decoded by `image`, and how sprite files become clips.
- `app`, `app_laws`: the conversation, its logs and bubbles, one frame of the application, and
  what holds of them whatever happens.

Times are in nanoseconds, closeness and stress in millionths of a point, frame rates in
millionths of a frame per second.

A function that reads the clock has a sibling that takes what the clock said as arguments, with a
contract that says exactly what happens: `PetApp::update` and `PetApp::update_at`, for example.

`app/` is the program around the library: windows with `eframe`, files, and HTTP with `ureq`.
