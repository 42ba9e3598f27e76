# backmeup

An emergency back-up tool driven by mouse gestures. Tracing the border of
the screen (top-left, top-right, bottom-right, bottom-left corner) arms it;
then a slide from the bottom-left corner to the bottom-right corner runs the
back-up, one up to the top-left corner cancels it, and a diagonal to the
top-right corner reopens the configuration.

- `src/` is the verified library (Verus):
  - `gesture`: corner proximity and the recognition of the arming and
    deciding gestures;
  - `tracker`: the state kept between mouse moves and the action each move
    triggers, with the laws that tie the moves together;
  - `text`: whitespace, trimming, splitting and substring search over
    characters;
  - `config`: the configuration record and how the form fills it in;
  - `backup`: back-up kinds, errors, which entries are copied, and byte
    totals;
  - `service`: the Windows service's answers to control requests and what it
    reads from `tasklist` and `query session`;
  - `platform`: sound file names and screen-size scaling;
  - `window`: the flag that closes the confirmation window.
- `app/` holds the programs around it (mouse listener, sounds, file copying,
  windows, services, installer); the first command-line argument chooses one.
- `tests/` runs the library on concrete inputs.
