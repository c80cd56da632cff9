# Ruston Mail

A desktop client for Proton Mail. The logic of the client — the mailbox and
its requests, the reader, the composer, sign-in steps, the fictional demo
mailbox, HTML bodies turned into readable blocks, and the small decisions
between them — is a library whose behaviour is stated in contracts and
proved with Verus.

- `src/` is the verified library. Each module starts with a note on what it
  decides.
- `tests/` runs the library on concrete mail.
- `app/` is the program around it: settings on disk, saving attachments,
  the worker runtime, and the event loop that performs what the library
  decides. It opens the fictional mailbox (`RUSTON_DEMO=1`).
