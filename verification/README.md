# bumaga

A user interface library that describes views with HTML and CSS: this crate holds its
verified core.

- `html`: the document model and its reader (`read_html`), with bindings to a view model
  written `{ path | transformer }`.
- `css`: the style sheet model, its reader (`read_css`, `read_inline_css`), the property
  names, and selector matching over a tree of elements.
- `variables` and `cascade`: custom properties, the computation of values that use them,
  shorthand properties, and the cascade of the style rules that apply to an element.
- `styles`, `layout`, `animation`: the values of keywords, colors and font weights.
- `apply`: applying a computed value of a property to the style of an element (its
  look, its box, its transitions and animations by index), with lengths kept as the
  style sheet wrote them.
- `controls`: buttons, hover areas and text fields that turn user input into messages.
- `decimal`: exact decimal numbers, used for every number a style sheet writes.
- `view`: the view model (a JSON value of its own; binding a new value onto it and the
  bound paths that react), the reaction of each kind of binding and the message of a
  handler call, the schema that a rendered view binds to, the binding table that
  rendering a template makes (nodes, bound paths, repeats with their item names), what
  one input event does to hover, focus, press and drag and which handlers it calls, the
  options of a select and the value of a text input, and which children a visibility
  or repeat change shows; the reactions of the bindings to the changed values, what an
  element keeps of its bindings (attributes, bound texts, listeners, inline style), and
  the message a listener sends with its arguments read from the model by JSON pointer.

The functions carry contracts that Verus proves; the readers are specified by a grammar
written as spec functions. `app/` holds the parts that read files and produce JSON, converts serde_json values
to the view model's, resolves lengths against font and viewport sizes in floating point,
runs the transformers of binding pipes, and drives input events through the library.
