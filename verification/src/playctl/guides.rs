//! The template guides that `playctl print-template` prints, one per kind of
//! playground.
use vstd::prelude::*;

verus! {

/// The `design-playground` guide.
pub const DESIGN_PLAYGROUND: &'static str = r###"# design-playground

Use this template when the user wants to tune visual / spatial design parameters
(radius, shadow, spacing, color, typography) and see the result update live.

## Required HTML structure

- Single file (`index.html`), no external resources.
- Dark theme by default, but honor `prefers-color-scheme: light`.
- Two-column layout on viewports ≥ 800px:
  - Left: `<form>` with one labelled `<input>` per parameter.
  - Right: `<div id="preview">` with the artifact being designed.
- Below the columns: a `<pre id="prompt">` block followed by a copy button.

## Controls

- Always provide presets (3-5 named buttons that set all controls at once).
- All numeric controls use `<input type="range">` paired with a numeric display.
- Color uses `<input type="color">`.

## Live update

- Wire control changes to a single `update()` function that reads all values, mutates the preview, and rewrites the prompt block.
- Run `update()` once on load.

## Prompt output

- The prompt block is a complete sentence (or short paragraph) the user can paste back into chat.
- Avoid value dumps. Translate values to design intent: "soft shadow, generous corner radius" — not "shadow=12px, radius=24px".
- Include a copy button that reads from the `<pre>` and writes to clipboard, with a 2-second "copied!" feedback.

## Anti-patterns

- External CDN (use system font stack only).
- No presets.
- Prompt = key=value list of all sliders.
- Preview only updates on submit.
"###;

/// The `data-explorer` guide.
pub const DATA_EXPLORER: &'static str = r###"# data-explorer

Use this template when the user wants to filter, sort, and inspect a small dataset
(usually 10-1000 rows) interactively to extract a query or rule.

## Required HTML structure

- Top: filter bar (text search + faceted checkboxes / range sliders).
- Middle: result table or card grid with sortable columns.
- Bottom: `<pre id="prompt">` describing the user's selection criteria + copy button.

## Data source

- Inline the dataset as a `const DATA = [...]` JSON literal in `<script>`. No fetch.
- For datasets > 1000 rows, sample down before inlining.

## Live update

- Each filter event recomputes the visible rows and updates a count: "12 of 487 rows".
- The prompt block always describes the *current* filter state, not the row count.

## Anti-patterns

- Async data load that requires a backend.
- Silent zero-result state with no explanation.
- Prompt that emits the entire result set instead of the rule.
"###;

/// The `concept-map` guide.
pub const CONCEPT_MAP: &'static str = r###"# concept-map

Use this template when the user is exploring how concepts in a domain relate, and
wants to mark which they understand / care about / want to dive into.

## Required HTML structure

- One node per concept, rendered as a card with: title, 1-line summary, status pill.
- Click a card to cycle status: `unknown → learning → solid → dive-deeper`.
- Connecting lines drawn in SVG between related concepts.

## Live update

- The prompt block summarizes: "I'm solid on X, Y. Currently learning Z. Want to go deeper on W." Construct it from the per-card status.

## Anti-patterns

- Force-directed graph (overengineered; use a static layout).
- Hidden statuses behind a menu — surface them on the card itself.
"###;

/// The `document-critique` guide.
pub const DOCUMENT_CRITIQUE: &'static str = r###"# document-critique

Use this template when the user wants to walk through a document section by section
and approve / reject / comment on each piece.

## Required HTML structure

- Sections rendered top-to-bottom, each with: heading, body, and three buttons: ✓ approve, ✗ reject, 💬 comment.
- A comment button opens an inline `<textarea>`.
- A summary panel at the bottom: counts (approved/rejected/commented) and the prompt block.

## Live update

- Recompute counts and the prompt on every action.
- Prompt format: "Approved §1, §3. Rejected §2 (reason: …). Comments on §4: …"

## Anti-patterns

- Modal dialog for comments — keep them inline.
- Lose state on reload (local storage is fine but optional).
"###;

/// The `diff-review` guide.
pub const DIFF_REVIEW: &'static str = r###"# diff-review

Use this template when the user wants to comment on a unified diff, line by line.

## Required HTML structure

- Render diff with monospace font; preserve `+ / - / context` coloring.
- Each `+` / `-` line gets a click target opening an inline comment box.
- Sidebar: list of comments with line refs, click to scroll to the line.

## Live update

- Comment additions update the sidebar and the prompt instantly.
- Prompt format: a list of `file:line` entries each followed by the comment.

## Anti-patterns

- Single textarea collecting all comments (defeats the point).
- Diff parsed at runtime — accept already-parsed structure passed in via `const DIFF = [...]`.
"###;

/// The `code-map` guide.
pub const CODE_MAP: &'static str = r###"# code-map

Use this template when the user wants a navigable, annotated map of a codebase or
module — files as cards, with relationships shown.

## Required HTML structure

- Group files by directory; render each as a card with: file name, 1-line role summary, key exports.
- Lines connecting cards represent imports / calls (use SVG, kept simple).
- A search box filters cards by name or summary.

## Live update

- Click a card to "pin" it — only show cards within N hops. Adjust N via a slider.
- Prompt block describes the user's focus: "I'm trying to understand the path from <entry> to <leaf>."

## Anti-patterns

- Live AST parsing in the browser.
- 2D physics layout — too many cards, too much motion.
"###;

} // verus!
