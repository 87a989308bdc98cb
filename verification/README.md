# NIH-plug Playground

A small development environment for audio plugins written with NIH-plug: make
or open a project, edit it, build it, and play the resulting CLAP plugin with
the computer's own audio and MIDI devices.

- `src/` is the library. It holds the state and the rules: the project and its
  files, scaffolding, the build, the audio and MIDI engines, the plugin host,
  and what each panel shows of them and does to them. It is written in Verus,
  and each function's contract is proved.
- `app/` is the program around it: the window with its fixed labels and layout,
  the files, the devices and the plugin's own code. It does what the library
  asks for and reports back what came of it.
- `tests/` runs the library on concrete values.

Contracts are stated over text and sequences. Functions named `law_...` state
what holds of several operations together, such as that the message for a note
becomes that note for the plugin, or that captured samples come out in the order
in which they went in.

What the library takes on trust is marked `external_body` or written as an
`assume_specification`, and the comment above each such item says what is
believed of the code that it calls. Names for what such code returns or holds
are declared `uninterp`: nothing is known of them but what those items say.
