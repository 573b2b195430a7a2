# haiku

Write, check and collect 5-7-5 haikus, with a command line and a
full-screen terminal interface. Syllable counts come from a spelling
heuristic (vowel groups, corrected for a silent trailing `e`, a syllabic
`-le` and a silent `-ed`).

The library in `src/` is verified with Verus:

- `text` — Unicode whitespace, trimming, words, non-blank lines, substring search
- `syllables` — syllables of a word and of a line
- `line_check` — a line's count against its target, with a per-word breakdown
- `haiku` — the haiku model: building from three lines, parsing free text, validation
- `import` — classifying the entries of a JSON array of haiku texts
- `store` — the rules of the saved collection (no duplicates, random pick)
- `style` — the color palette, theme-file colors, painting text
- `feedback` — the styled text the command line prints
- `tui` — the state machine behind the full-screen interface

`app/` is the program around it: argument parsing, prompts, the store on
disk, the theme file, the terminal and its rendering.
