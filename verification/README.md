# gpui_shell

The rules behind a desktop shell whose applications are written in JavaScript.

A script describes its interface with elements, keeps views and component states across frames,
imports modules, and answers events. This library decides what it may do: which file an import
names, what a value becomes on its way to the native side, who may update or release a view, when a
function may still be called, and what is undone when a step fails. Every function has a contract
that [Verus](https://github.com/verus-lang/verus) checks, and what holds across functions is stated
as a proved law next to them (`law_...`).

- `src/` is the library. `runtime` ties its parts together: `modules` and `exports` for imports,
  `nested`, `entities`, `tasks` and `jobs` for views and what they own, `callbacks`, `context`,
  `dispatch` and `payload` for events, `prelude` and `prelude_text` for what scripts find in place,
  `arena`, `apply`, `methods` and `constructors` for descriptions, `calls`, `schema` and `states`
  for components, `argument`, `data` and `value` for script values, `error` for all that a script
  can be told.
- `app/` runs the scripts with QuickJS and performs what the library decides. The user interface
  toolkit is behind a trait.
- `tests/` runs the library on concrete values.
