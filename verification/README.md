# skekbot_rs

A Discord bot with Luau scripting and a small web API. The decisions the bot takes are
written in Verus and proved against their contracts; the program around them (Discord, the
Luau runtime, the database, the web server, image drawing) calls into that library.

- `src/` — the verified library: text handling, configuration, the dad joke, the hidden
  joke, the quote card's wrapping and layout, the commands' games and replies, the web API's
  authorization and request plans, the script callbacks, `require` resolution and the Luau
  module declarations.
- `tests/` — tests of the library on concrete values.
- `app/` — the program: `main`, the Discord framework and event handlers, the Luau
  environment, the database, the web server and the image drawing.
