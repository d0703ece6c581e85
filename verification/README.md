# ternary_fence

Synchronization fences: signal/wait fences, pools that hand fences out again, managers that
track them, timeouts, and ordered production and consumption. What each operation does is
stated as a contract and proved by Verus.

## Devices and sessions

Fences live on a `Device`. A thread opens a `Session` on it and passes the session to every
operation. While it is open, no other thread is on the device; a thread that waits for a fence
gives the device up for as long as it sleeps.

```rust
use ternary_fence::{Device, Fence};

let device = Device::new();
let mut session = device.open();

let fence = Fence::new(&mut session);
fence.signal(&mut session);
fence.wait(&mut session); // returns at once: the fence is signaled
assert!(fence.is_signaled(&session));
```

A `Fence`, `FencePool`, `FenceManager` or `ProducerConsumer` is a handle that belongs to the
device it was made on; on another device the same handle names something else. A device keeps
what was made on it until the device itself is dropped. A session must be closed before the same
thread opens another one on the same device.

`app/` wraps the library for a process with a single device: the same types, without sessions.

## What is proved

`model.rs` describes a device as a mathematical value, `DeviceView`, and each operation as a
function on it. The contract of every function says which operation it performs on the device
that its session sees, and what its session has done that concerns other threads
(`Session::log`): which device it opened and how the others had left it, that it woke the threads
that sleep on that device, and that it slept there itself, until which fence was signaled or for
how long at most, and how it found the device when it woke. A session starts on exactly what the
others had left. A function that waits leaves the device as the sleep found it, but for the
status that a manager records.

`laws.rs` proves what follows for many operations in a row: a fence is signaled as of its latest
signal until it is reset, in whichever session, and until then every wait for it is over at once;
the fences that are made on a device are numbered from 1 on and have ids of their own; a pool
hands out the fence that was released last; the created and reused fences of a pool add up to the
acquisitions; cleaning up returns exactly the completed fences; a timed wait that no other thread
interferes with changes nothing but the status; waiting for all active fences waits for each of
them; what was consumed and what still waits is what was produced, in order.

Not proved is what rests on time (that a timeout which the condition variable reports comes no
earlier than its limit, and that the instant which the clock gave for a signal lies between those
before and after it) and on the other threads (what they leave on the device for a session that
opens or wakes). Each device numbers its fences from 1: ids tell the fences of one device apart. A
thread that panics while its session is open does not disturb the others.

## Layout

- `src/sync.rs`: devices, sessions, and everything taken on trust from `std::sync` and `std::time`
- `src/state.rs`, `src/table.rs`: what a device holds
- `src/fence.rs`, `src/pool.rs`, `src/manager.rs`, `src/producer_consumer.rs`: the operations
- `src/model.rs`, `src/laws.rs`: the model and the laws
- `tests/`: tests on concrete values
- `app/`: the types on one device for the whole process
