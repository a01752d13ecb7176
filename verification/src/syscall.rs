use vstd::prelude::*;

verus! {

pub const SYSCALL_READ: usize = 63;
pub const SYSCALL_WRITE: usize = 64;
pub const SYSCALL_YIELD: usize = 124;
pub const SYSCALL_COROUTINE_CREATE: usize = 4000;
pub const SYSCALL_YIELD_COROUTINE: usize = 4010;

/// A system call to make: its number and its three arguments (in registers a0 to a2).
pub struct SyscallRequest {
    pub id: usize,
    pub args: [usize; 3],
}

/// The address of `buffer`'s first byte (`<[u8]>::as_ptr`); nothing is claimed of its value.
#[verifier::external_body]
fn buffer_address(buffer: &[u8]) -> usize {
    buffer.as_ptr() as usize
}

/// The request to read `len` bytes from file `fd` into the buffer at address `addr`.
pub fn read_request(fd: usize, addr: usize, len: usize) -> (r: SyscallRequest)
    ensures
        r.id == SYSCALL_READ,
        r.args@ == seq![fd, addr, len],
{
    SyscallRequest { id: SYSCALL_READ, args: [fd, addr, len] }
}

/// The request to write the `len` bytes at address `addr` to file `fd`.
pub fn write_request(fd: usize, addr: usize, len: usize) -> (r: SyscallRequest)
    ensures
        r.id == SYSCALL_WRITE,
        r.args@ == seq![fd, addr, len],
{
    SyscallRequest { id: SYSCALL_WRITE, args: [fd, addr, len] }
}

/// Reading into `buffer` from file `fd`: the request that `read_request` builds from `fd`,
/// the buffer's address and its length. The address is where the buffer lies in memory,
/// which the machine decides; the request carries it unchanged.
pub fn sys_read(fd: usize, buffer: &mut [u8]) -> (r: SyscallRequest)
    ensures
        r.id == SYSCALL_READ,
        r.args@.len() == 3,
        r.args@[0] == fd,
        r.args@[2] == old(buffer)@.len(),
        final(buffer)@ == old(buffer)@,
{
    let len = buffer.len();
    let addr = buffer_address(&*buffer);
    read_request(fd, addr, len)
}

/// Writing `buffer` to file `fd`: the request that `write_request` builds from `fd`, the
/// buffer's address and its length. The address is where the buffer lies in memory, which
/// the machine decides; the request carries it unchanged.
pub fn sys_write(fd: usize, buffer: &[u8]) -> (r: SyscallRequest)
    ensures
        r.id == SYSCALL_WRITE,
        r.args@.len() == 3,
        r.args@[0] == fd,
        r.args@[2] == buffer@.len(),
{
    let addr = buffer_address(buffer);
    write_request(fd, addr, buffer.len())
}

/// Creating a coroutine that starts at `entry` with argument `arg`.
pub fn sys_coroutine_create(entry: usize, arg: usize) -> (r: SyscallRequest)
    ensures
        r.id == SYSCALL_COROUTINE_CREATE,
        r.args@ == seq![entry, arg, 0usize],
{
    SyscallRequest { id: SYSCALL_COROUTINE_CREATE, args: [entry, arg, 0] }
}

/// Yielding the processor.
pub fn sys_yield() -> (r: SyscallRequest)
    ensures
        r.id == SYSCALL_YIELD,
        r.args@ == seq![0usize, 0usize, 0usize],
{
    SyscallRequest { id: SYSCALL_YIELD, args: [0, 0, 0] }
}

/// Yielding the processor to let a coroutine of higher priority run.
pub fn sys_yield_coroutine() -> (r: SyscallRequest)
    ensures
        r.id == SYSCALL_YIELD_COROUTINE,
        r.args@ == seq![0usize, 0usize, 0usize],
{
    SyscallRequest { id: SYSCALL_YIELD_COROUTINE, args: [0, 0, 0] }
}

/// The id word that the kernel reports for the current coroutine: the process id in the
/// bits from 20 up; the thread and coroutine fields (bits 10 to 19 and 0 to 9) are 0.
pub fn sys_getcid(pid: isize) -> (id: isize)
    ensures
        id == pid << 20isize,
{
    let tid: isize = 0;
    let cid: isize = 0;
    let id = (pid << 20isize) | (tid << 10isize) | cid;
    assert(id == pid << 20isize) by (bit_vector)
        requires
            id == (pid << 20isize) | (tid << 10isize) | cid,
            tid == 0,
            cid == 0,
    ;
    id
}

/// Splits an id word into process id (bits from 20 up), thread id (bits 10 to 19) and
/// coroutine id (bits 0 to 9).
pub fn split_cid(id: isize) -> (r: (isize, isize, isize))
    ensures
        r == (id >> 20isize, (id >> 10isize) & 0x3ff, id & 0x3ff),
{
    (id >> 20isize, (id >> 10isize) & 0x3ff, id & 0x3ff)
}

/// Splitting the id word that `sys_getcid` reports for process `pid` gives back `pid`, with
/// thread and coroutine fields 0, for every `pid` whose word fits: below 2^43 on 64-bit targets, below 2^11 on 32-bit ones.
pub proof fn law_getcid_split_round_trip(pid: isize)
    requires
        0 <= pid,
        usize::BITS == 64 ==> pid < 0x800_0000_0000,
        usize::BITS == 32 ==> pid < 0x800,
    ensures
        (pid << 20isize) >> 20isize == pid,
        ((pid << 20isize) >> 10isize) & 0x3ff == 0,
        (pid << 20isize) & 0x3ff == 0,
{
    assert((pid << 20isize) >> 20isize == pid) by (bit_vector)
        requires
            0 <= pid,
            usize::BITS == 64 ==> pid < 0x800_0000_0000,
            usize::BITS == 32 ==> pid < 0x800,
    ;
    assert(((pid << 20isize) >> 10isize) & 0x3ff == 0) by (bit_vector);
    assert((pid << 20isize) & 0x3ff == 0) by (bit_vector);
}

} // verus!
