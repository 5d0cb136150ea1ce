# siphon

The scripting interface of a SIP server as a verified library: digest and AKA
authentication, Diameter clients and servers, IPsec security associations,
calls and their routing, gateways, number policies, charging records, caches,
metrics and lawful interception.

- `src/` holds the rules. Every function there states what it returns or changes,
  and Verus proves it. Work that leaves the process is not done in `src/`: a
  function says what is to be done, and another takes the result.
- `app/` is the scripting module around the library: Python classes, timers,
  HTTP, and the traits through which a running server provides its services.
- `tests/` runs the library on concrete values.
