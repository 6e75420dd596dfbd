# flasher

Programs the flash memory of a microcontroller by a flash algorithm: a blob of routines that is
loaded into the RAM of the target and called there. The library decides what is said to the
target and what its replies mean. It is written in Verus, and what it promises is proved.

The library does not talk to the target. Each operation is a procedure that names the next
command, is handed the reply, and so on until it is finished. A debug probe carries the commands
out.

- `src/target.rs`: the registers of the target, the commands and the replies
- `src/procedure.rs`: procedures, and how each reply leads on
- `src/active.rs`: the operations of an algorithm that is loaded: erasing, programming, reading
- `src/flasher.rs`: loading and initialising an algorithm, and work that is ended again
- `src/config.rs`: the layout of a flash memory, and what is known of an algorithm
- `src/disassembly.rs`, `src/bytes.rs`: the listing of an algorithm
- `src/laws.rs`: what holds of the operations as a whole
- `app/`: carries the operations out on a debug probe, and logs them
