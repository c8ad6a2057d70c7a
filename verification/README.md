# parbench

Kernels of a small parallel-programming benchmark suite, verified with Verus:
histograms (sequential, per-worker tables merged by a reduction, one table
behind a lock, and chunked byte pages), the minimum of an array, an integer
matrix product computed row by row in parallel, and row-major grid indexing.
The parallel forms run on rayon thread pools; the calls into rayon, the
clock and `std::sync::Mutex` are the trusted boundary.

- `src/` the verified library (`histogram`, `page_histogram`, `array_min`,
  `matrix`, `grid`, `programmability`, and the trusted `pool` and `clock`).
- `app/` the command-line programs, the floating-point kernels (heat
  diffusion, `f64` matrix product) and the data-race demonstration.
- `tests/` runs the library on concrete inputs.
