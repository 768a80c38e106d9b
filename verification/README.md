# early_kernel

Early memory services of a small kernel, verified with [Verus](https://github.com/verus-lang/verus).

- `align`: rounding addresses to an alignment.
- `region`, `early_alloc`, `alloc_laws`: a double-ended allocator over one memory range. Bytes
  grow from the start, pages from the end.
- `words`, `errno`, `syscall`: from argument words to system calls, and from results to what
  the user gets.
- `mman`, `file_fill`, `mmap`, `mmap_laws`: mapping memory into the address space of a user, as
  a machine that says what to do next and takes what came of it.
- `page_fault`: which page faults go to the address space.

`app/` plugs the library into the rest of the kernel: it implements the allocator traits, and
carries out what the library decides through the services in `app/kernel.rs`.
