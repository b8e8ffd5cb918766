# Fire-Alarm Website

People subscribe here to the stations of a rail network. Whoever wants to change
a subscription first proves that an email address is theirs, by a one-time
passcode that is sent there.

- `src/` is the logic, verified with Verus: passcodes and their shutdown
  (`otp`, `auth`), the message that carries a code (`mail`), the requests
  (`service`), and their way back and forth with the database (`workflow`,
  `selection`, `network`). `tables` states what the requests make of the
  database's contents. What is taken on trust from other crates stands in
  `outside`.
- `app/` is the server around it: command line, HTTP, database, mail transport
  and timers.
- `tests/` runs the library on concrete values.
