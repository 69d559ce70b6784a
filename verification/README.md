# Ordis

A Discord bot for tabletop role-playing (the Mir system): dice rolling,
character sheets, mana and spell tracking, status readouts, colour and emoji
helpers, word games, and chat through a language model.

- `src/` is the library, written in Verus: the rules of the bot (reading dice
  terms and rolling them, spell casting and end-of-turn mana, status and
  level-up messages, colour matching, formula reading, the word games) with
  their contracts and the laws that hold across them.
- `tests/` exercises the library with the real outside crates linked.
- `app/` is the bot itself: commands, events, the database and the calls to
  Discord and the language-model service, handing plain values to the library.
