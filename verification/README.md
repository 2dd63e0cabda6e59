# frontend

The satellite telemetry dashboard: a browser application that polls the
backend for satellites, their sensors and their measurements, and shows them
as live charts, cards, an orbit view, a health page and a control page.

- `src/` is the verified core, checked with Verus: the endpoint addresses, the
  counting of newly received measurements across overlapping polls, the
  layout decisions of the sensor charts (series grouping and order, time axis,
  line breaks at missing values, legend), the step functions of the pages'
  polling loops, and the texts the pages build.
- `app/` is the browser application around it: the Leptos components, the
  HTTP requests, timers, the JavaScript animation bridge, and the
  floating-point work on measured values (scaling, orbit mechanics, number
  formatting).
- `tests/` exercises the core on concrete values.
