# freertos_rs

A Rust wrapper for FreeRTOS, with its logic verified by Verus.

- `src/` is the verified library: error values (`base`), tick durations
  (`units`), the calls a mutex makes on the kernel's semaphores and what their
  results mean (`mutex`), the messages and the client registry of the processor
  pattern (`patterns::processor`), the shim's size checks and C strings
  (`utils`), the string helpers of the QEMU test runner (`text`, `builder`,
  `runner`) and the tests' random number generator (`rnd`).
- `app/` performs the calls into the FreeRTOS C shim, owns the values that the
  kernel guards (mutex data, queues, processor clients) and runs the build
  tools and the emulator for the on-board tests.
- `tests/` exercises the library on the host.
