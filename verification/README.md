# ironspdk

Rust building blocks for SPDK applications and SPDK block devices, with their logic verified by
[Verus](https://github.com/verus-lang/verus).

* `src/` is the verified library. It does not call SPDK: addresses of SPDK's structures are plain
  numbers, and an answer of SPDK is handed in as a value or as a function that asks.
  * `iovs`, `io`, `split`: scatter/gather lists, zero-copy views of requests, owned buffers, and
    splitting a request into consecutive children.
  * `dma`: buffers in DMA memory.
  * `bdev_io`, `bdev`, `lbdev`, `future`: requests and their completion, the registry of block
    devices, and I/O on lower-layer devices.
  * `tcb`, `sched`, `tls`, `thread`: the run queue of an SPDK thread, what holds of its tasks
    together, thread-local storage, and handles of threads.
  * `rpc`, `opts`, `names`, `text`, `error`: commands, their arguments and replies.
  * `app`, `link`: the life cycle of an application, and the directives for linking with SPDK.
  * `raid1`: a mirror over several block devices.
* `tests/` runs the library on concrete values.
* `app/` is the SPDK side: the C interface, the executor of futures, the entry points that SPDK
  calls, and the mirror as an application.

What is believed without proof is small: the wrappers of `smallvec` in `iovs`, the lossy UTF-8
decoding in `rpc`, and the specifications of two functions of the standard library in `io`.
