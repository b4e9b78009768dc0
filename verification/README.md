# whip

Screen-time supervision for a child's Windows account, as two cooperating
programs: a service that watches the clock and the weekly calendar and asks
for the screen to be locked, and an executor, running as the child, that
performs the actions it is asked for over a local TCP connection.

- `src/` is the verified library: the calendar, the settings and their stored
  form, the engine's decisions as a state machine (`engine`), the action
  protocol between the two programs, request handling in the executor, and
  the small parsers and string helpers they need. Each public function
  carries its contract; the laws of the library are proof functions beside
  the functions they speak of.
- `app/` holds what talks to the operating system: the Windows service, the
  registry, shared memory, processes, the performance counter and the
  sockets. It performs the effects that the engine orders and answers its
  questions.
- `tests/` runs the library on concrete values.
