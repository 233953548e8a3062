# endless_ui

The game-interface rules of a town-siege strategy game, verified with Verus:
what the panels, windows and the casino table decide, independent of how
they are drawn.

- `src/` — the verified library, one module per panel or window:
  `blackjack`, `cards`, `betting`, `table_view` (the casino table),
  `combat_log`, `hud`, `atlas`, `inspector`, `building`, `build_menu`,
  `left_panel`, `roster`, `sorting`, `inventory`, `tech_tree`, `squads`,
  `factions`, `snapshots`, `policies`, `patrols`, `mining`, `main_menu`, `town_view`,
  `labels` and `text`. Public proof functions (`lemma_*`) state the
  library's laws: card conservation in the shoe, blackjack payouts, the
  zero-sum gold transfer of a round, one town per AI slot, recruits moving
  between squads, a sale taking exactly one item out of a stock, and
  others.
- `tests/` — tests on concrete values.
- `app/` — the egui drawing around the library (not verified).
