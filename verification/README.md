# async_exercises

A verified library behind a set of small async exercises (hand-written
futures, a `Join` combinator and a busy-polling executor) and a Word add-in
installer (reading the add-in manifest, building the document that sideloads
it, naming the share and registry entries).

- `src/` is the library, verified with Verus. Futures are state machines
  whose polls are stated step by step; their laws (when a countdown, a join
  or an executor finishes, that a timer starts at most once, that no wake-up
  is lost) are proved there.
- `tests/` runs the library on concrete inputs.
- `app/` is the program around it: tokio runtimes, threads, wakers, the
  network download, files, the Windows registry and processes.

The no-lost-wake-up laws, for the flag future (`flag::lemma_no_lost_wakeup`)
and for the delay (`delay::lemma_delay_no_lost_wakeup`), are proved of a
model in which the poll's two looks and its registration of the waker, and
the other thread's store and take, are points in one order of events. That a
poll registers its waker between its two looks, and that the other thread
stores before it takes, is what `app/demos.rs` does with the real atomic,
locks and thread; that code is not verified.

Writing the document relies on zip succeeding on an in-memory cursor; the
trusted contracts in `src/docx.rs` state when it does, from zip's and
miniz_oxide's sources.
