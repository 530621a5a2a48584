//! The virtual machine: a fixed-size linear memory shared by code and the
//! operand stack, two cursors into it, and the fetch-decode-execute loop.
//!
//! Every transition is specified against a mathematical snapshot of the
//! machine (`VmSnap`) and a pure transition function (`spec_step`), so that
//! the encoding round-trips and the run loop can be reasoned about exactly.

use vstd::prelude::*;

use crate::instructions::{instruction_for, spec_instruction_for, ParamType, EXIT, GOTO};

verus! {

/// The run-time error taxonomy. Every invalid memory index or undecodable
/// opcode becomes one of these values; no operation panics or wraps around.
#[derive(Clone, Copy, Debug, PartialEq, Eq)]
pub enum VmError {
    /// A write, fetch or operand read at or beyond the end of memory.
    OutOfBounds,
    /// A push would advance the stack cursor past the end of memory.
    StackOverflow,
    /// The fetched opcode names no instruction; `position` is where it was fetched.
    UnknownOpcode { position: usize },
}

/// Mathematical snapshot of a machine: the memory contents and the two
/// cursors. The capacity is `mem.len()`.
#[verifier::ext_equal]
pub ghost struct VmSnap {
    pub mem: Seq<u8>,
    pub sp: int,
    pub pp: int,
}

/// `mem` with `bytes` laid over it starting at `pos`; positions outside that
/// range keep their old contents. The length never changes.
pub open spec fn spec_store(mem: Seq<u8>, pos: int, bytes: Seq<u8>) -> Seq<u8> {
    Seq::new(mem.len(), |i: int| if pos <= i < pos + bytes.len() { bytes[i - pos] } else { mem[i] })
}

/// Shape-driven operand decoding, as a pure function: the operand bytes that
/// a read starting at `s.pp` yields, and the state after it, or `None` when
/// the read would leave memory.
pub open spec fn spec_read_params(s: VmSnap, param_type: ParamType) -> Option<(Seq<u8>, VmSnap)> {
    match param_type {
        ParamType::Nil => Some((Seq::<u8>::empty(), s)),
        ParamType::Static(n) => if 0 <= s.pp && s.pp + n <= s.mem.len() {
            Some((s.mem.subrange(s.pp, s.pp + n), VmSnap { pp: s.pp + n, ..s }))
        } else {
            None
        },
        ParamType::Variadic(n) => if 0 <= s.pp && s.pp + n + 1 <= s.mem.len() {
            let len = s.mem[s.pp + n] as int;
            if s.pp + n + 1 + len <= s.mem.len() {
                Some(
                    (
                        s.mem.subrange(s.pp, s.pp + n) + s.mem.subrange(
                            s.pp + n + 1,
                            s.pp + n + 1 + len,
                        ),
                        VmSnap { pp: s.pp + n + 1 + len, ..s },
                    ),
                )
            } else {
                None
            }
        } else {
            None
        },
    }
}

/// Outcome of one transition: the machine keeps running, halted, or stopped
/// on a run-time error.
pub ghost enum StepOut {
    Running(VmSnap),
    Halted(VmSnap),
    Failed(VmSnap, VmError),
}

/// One fetch-decode-execute transition, as a pure function of the snapshot:
/// fetch the opcode at `pp`, look its shape up in the instruction table, read
/// the operands, and dispatch.
pub open spec fn spec_step(s: VmSnap) -> StepOut {
    if !(0 <= s.pp < s.mem.len()) {
        StepOut::Failed(s, VmError::OutOfBounds)
    } else {
        let opcode = s.mem[s.pp];
        let s1 = VmSnap { pp: s.pp + 1, ..s };
        match spec_instruction_for(opcode) {
            None => StepOut::Failed(s1, VmError::UnknownOpcode { position: s.pp as usize }),
            Some(inst) => match spec_read_params(s1, inst.param_type) {
                None => StepOut::Failed(s1, VmError::OutOfBounds),
                Some((params, s2)) => if opcode == EXIT {
                    StepOut::Halted(s2)
                } else if opcode == GOTO {
                    StepOut::Running(VmSnap { pp: params[0] as int, ..s2 })
                } else {
                    StepOut::Running(s2)
                },
            },
        }
    }
}

/// `b` is reached from `a` by exactly `n` transitions, every one of which
/// kept the machine running.
pub open spec fn spec_runs_to(a: VmSnap, b: VmSnap, n: nat) -> bool
    decreases n,
{
    if n == 0 {
        a == b
    } else {
        spec_step(a) matches StepOut::Running(m) && spec_runs_to(m, b, (n - 1) as nat)
    }
}

/// A running chain extends by one more running transition.
pub proof fn lemma_runs_to_extend(a: VmSnap, b: VmSnap, c: VmSnap, n: nat)
    requires
        spec_runs_to(a, b, n),
        spec_step(b) == StepOut::Running(c),
    ensures
        spec_runs_to(a, c, n + 1),
    decreases n,
{
    if n == 0 {
        assert(spec_runs_to(c, c, 0));
    } else {
        match spec_step(a) {
            StepOut::Running(m) => {
                lemma_runs_to_extend(m, b, c, (n - 1) as nat);
            },
            _ => {
                assert(false);
            },
        }
    }
}

/// The byte emission capability: append at the stack cursor, or overwrite an
/// already-allocated position without moving any cursor (back-patching).
pub trait ByteStack: Sized {
    /// The whole backing store; its length is the fixed capacity.
    spec fn bytes(&self) -> Seq<u8>;

    /// The next free position for push-style writes.
    spec fn cursor(&self) -> int;

    /// The fetch cursor over the same store; no emission operation moves it.
    spec fn pcursor(&self) -> int;

    /// The store keeps its fixed size and the cursor stays inside it.
    spec fn inv(&self) -> bool;

    /// Appends one byte at the cursor and advances it; refused with
    /// `StackOverflow` once the cursor has reached the end of memory.
    fn push(&mut self, byte: u8) -> (r: Result<(), VmError>)
        requires
            old(self).inv(),
        ensures
            final(self).inv(),
            final(self).pcursor() == old(self).pcursor(),
            if old(self).cursor() < old(self).bytes().len() {
                r == Ok::<(), VmError>(()) && final(self).bytes() == old(self).bytes().update(
                    old(self).cursor(),
                    byte,
                ) && final(self).cursor() == old(self).cursor() + 1
            } else {
                r == Err::<(), VmError>(VmError::StackOverflow) && final(self).bytes() == old(
                    self,
                ).bytes() && final(self).cursor() == old(self).cursor()
            },
    ;

    /// Appends each byte in order; detected up front, so on `StackOverflow`
    /// nothing is written.
    fn push_array(&mut self, bytes: &[u8]) -> (r: Result<(), VmError>)
        requires
            old(self).inv(),
        ensures
            final(self).inv(),
            final(self).pcursor() == old(self).pcursor(),
            if old(self).cursor() + bytes@.len() <= old(self).bytes().len() {
                r == Ok::<(), VmError>(()) && final(self).bytes() == spec_store(
                    old(self).bytes(),
                    old(self).cursor(),
                    bytes@,
                ) && final(self).cursor() == old(self).cursor() + bytes@.len()
            } else {
                r == Err::<(), VmError>(VmError::StackOverflow) && final(self).bytes() == old(
                    self,
                ).bytes() && final(self).cursor() == old(self).cursor()
            },
    ;

    /// Overwrites the byte at `position` without moving any cursor; refused
    /// with `OutOfBounds` at or beyond the end of memory.
    fn write(&mut self, position: usize, byte: u8) -> (r: Result<(), VmError>)
        requires
            old(self).inv(),
        ensures
            final(self).inv(),
            final(self).pcursor() == old(self).pcursor(),
            final(self).cursor() == old(self).cursor(),
            if position < old(self).bytes().len() {
                r == Ok::<(), VmError>(()) && final(self).bytes() == old(self).bytes().update(
                    position as int,
                    byte,
                )
            } else {
                r == Err::<(), VmError>(VmError::OutOfBounds) && final(self).bytes() == old(
                    self,
                ).bytes()
            },
    ;

    /// Sequential overwrite starting at `position`; detected up front, so on
    /// `OutOfBounds` nothing is written.
    fn write_array(&mut self, position: usize, bytes: &[u8]) -> (r: Result<(), VmError>)
        requires
            old(self).inv(),
        ensures
            final(self).inv(),
            final(self).pcursor() == old(self).pcursor(),
            final(self).cursor() == old(self).cursor(),
            if position + bytes@.len() <= old(self).bytes().len() {
                r == Ok::<(), VmError>(()) && final(self).bytes() == spec_store(
                    old(self).bytes(),
                    position as int,
                    bytes@,
                )
            } else {
                r == Err::<(), VmError>(VmError::OutOfBounds) && final(self).bytes() == old(
                    self,
                ).bytes()
            },
    ;
}

/// The snapshot that a program store presents: its memory, stack cursor and
/// program cursor.
pub open spec fn snap_of<P: ByteStack>(p: &P) -> VmSnap {
    VmSnap { mem: p.bytes(), sp: p.cursor(), pp: p.pcursor() }
}

/// The execution surface: shape-driven operand reading and the
/// fetch-decode-execute loop, specified by `spec_step`.
pub trait Program: ByteStack {
    /// Reads the operand bytes that `param_type` calls for, starting at the
    /// program cursor, and advances it past them. On `OutOfBounds` the
    /// machine is left unchanged.
    fn read_params(&mut self, param_type: ParamType) -> (r: Result<Vec<u8>, VmError>)
        requires
            old(self).inv(),
        ensures
            final(self).inv(),
            match spec_read_params(snap_of(old(self)), param_type) {
                Some(pair) => r matches Ok(v) && v@ == pair.0 && snap_of(final(self)) == pair.1,
                None => r == Err::<Vec<u8>, VmError>(VmError::OutOfBounds) && snap_of(final(self))
                    == snap_of(old(self)),
            },
    ;

    /// One transition. `Ok(true)` means the machine is still running,
    /// `Ok(false)` that it halted on this step; a run-time error is returned
    /// as a value, never a crash.
    fn step(&mut self) -> (r: Result<bool, VmError>)
        requires
            old(self).inv(),
        ensures
            final(self).inv(),
            match spec_step(snap_of(old(self))) {
                StepOut::Running(s2) => r == Ok::<bool, VmError>(true) && snap_of(final(self))
                    == s2,
                StepOut::Halted(s2) => r == Ok::<bool, VmError>(false) && snap_of(final(self))
                    == s2,
                StepOut::Failed(s2, e) => r == Err::<bool, VmError>(e) && snap_of(final(self))
                    == s2,
            },
    ;

    /// Runs `step` until the machine halts, a run-time error occurs, or
    /// `max_steps` transitions have been taken. `Ok(true)` means the machine
    /// halted; `Ok(false)` that the budget ran out with the machine still
    /// running; an error halts the run at once.
    fn exec(&mut self, max_steps: usize) -> (r: Result<bool, VmError>)
        requires
            old(self).inv(),
        ensures
            final(self).inv(),
            r == Ok::<bool, VmError>(true) ==> exists|n: nat, s: VmSnap|
                n < max_steps && #[trigger] spec_runs_to(snap_of(old(self)), s, n) && spec_step(s)
                    == StepOut::Halted(snap_of(final(self))),
            r == Ok::<bool, VmError>(false) ==> spec_runs_to(
                snap_of(old(self)),
                snap_of(final(self)),
                max_steps as nat,
            ),
            r matches Err(e) ==> exists|n: nat, s: VmSnap|
                n < max_steps && #[trigger] spec_runs_to(snap_of(old(self)), s, n) && spec_step(s)
                    == StepOut::Failed(snap_of(final(self)), e),
    ;
}

/// A machine: one flat byte array holding both code and the operand stack,
/// with the stack cursor and the program cursor into it. Nothing partitions
/// the two regions; a growing stack can reach not-yet-executed code, a known
/// limitation of the shared address space.
#[derive(Debug)]
pub struct VirtualMachine<const MEM_SIZE: usize> {
    pub memory: Vec<u8>,
    pub stack_pointer: usize,
    pub program_pointer: usize,
}

impl<const MEM_SIZE: usize> VirtualMachine<MEM_SIZE> {
    /// The machine's mathematical snapshot.
    pub open spec fn snap(&self) -> VmSnap {
        VmSnap {
            mem: self.memory@,
            sp: self.stack_pointer as int,
            pp: self.program_pointer as int,
        }
    }

    /// A fresh machine: memory all zero, both cursors at zero.
    pub fn new() -> (r: Self)
        ensures
            r.inv(),
            r.memory@ == Seq::new(MEM_SIZE as nat, |i: int| 0u8),
            r.stack_pointer == 0,
            r.program_pointer == 0,
    {
        let mut memory: Vec<u8> = Vec::new();
        while memory.len() < MEM_SIZE
            invariant
                memory@.len() <= MEM_SIZE,
                forall|i: int| 0 <= i < memory@.len() ==> memory@[i] == 0u8,
            decreases MEM_SIZE - memory.len(),
        {
            memory.push(0u8);
        }
        proof {
            assert(memory@ =~= Seq::new(MEM_SIZE as nat, |i: int| 0u8));
        }
        VirtualMachine { memory, stack_pointer: 0, program_pointer: 0 }
    }
}

impl<const MEM_SIZE: usize> ByteStack for VirtualMachine<MEM_SIZE> {
    open spec fn bytes(&self) -> Seq<u8> {
        self.memory@
    }

    open spec fn cursor(&self) -> int {
        self.stack_pointer as int
    }

    open spec fn pcursor(&self) -> int {
        self.program_pointer as int
    }

    open spec fn inv(&self) -> bool {
        self.memory@.len() == MEM_SIZE && self.stack_pointer <= MEM_SIZE
    }

    fn push(&mut self, byte: u8) -> (r: Result<(), VmError>) {
        if self.stack_pointer < MEM_SIZE {
            self.memory.set(self.stack_pointer, byte);
            self.stack_pointer = self.stack_pointer + 1;
            Ok(())
        } else {
            Err(VmError::StackOverflow)
        }
    }

    fn push_array(&mut self, bytes: &[u8]) -> (r: Result<(), VmError>) {
        if bytes.len() > MEM_SIZE - self.stack_pointer {
            return Err(VmError::StackOverflow);
        }
        let ghost mem0 = self.memory@;
        let ghost sp0 = self.stack_pointer as int;
        let mut i: usize = 0;
        while i < bytes.len()
            invariant
                self.inv(),
                i <= bytes@.len(),
                sp0 + bytes@.len() <= MEM_SIZE,
                self.stack_pointer == sp0 + i,
                self.program_pointer == old(self).program_pointer,
                self.memory@ =~= spec_store(mem0, sp0, bytes@.take(i as int)),
            decreases bytes.len() - i,
        {
            let res = self.push(bytes[i]);
            proof {
                assert(res is Ok);
                assert(self.memory@ =~= spec_store(mem0, sp0, bytes@.take(i + 1)));
            }
            i = i + 1;
        }
        proof {
            assert(bytes@.take(bytes@.len() as int) =~= bytes@);
        }
        Ok(())
    }

    fn write(&mut self, position: usize, byte: u8) -> (r: Result<(), VmError>) {
        if position < MEM_SIZE {
            self.memory.set(position, byte);
            Ok(())
        } else {
            Err(VmError::OutOfBounds)
        }
    }

    fn write_array(&mut self, position: usize, bytes: &[u8]) -> (r: Result<(), VmError>) {
        if position > MEM_SIZE || bytes.len() > MEM_SIZE - position {
            return Err(VmError::OutOfBounds);
        }
        let ghost mem0 = self.memory@;
        let mut cursor = position;
        let mut i: usize = 0;
        while i < bytes.len()
            invariant
                self.inv(),
                i <= bytes@.len(),
                position + bytes@.len() <= MEM_SIZE,
                cursor == position + i,
                self.stack_pointer == old(self).stack_pointer,
                self.program_pointer == old(self).program_pointer,
                self.memory@ =~= spec_store(mem0, position as int, bytes@.take(i as int)),
            decreases bytes.len() - i,
        {
            let res = self.write(cursor, bytes[i]);
            proof {
                assert(res is Ok);
                assert(self.memory@ =~= spec_store(mem0, position as int, bytes@.take(i + 1)));
            }
            cursor = cursor + 1;
            i = i + 1;
        }
        proof {
            assert(bytes@.take(bytes@.len() as int) =~= bytes@);
        }
        Ok(())
    }
}

impl<const MEM_SIZE: usize> Program for VirtualMachine<MEM_SIZE> {
    fn read_params(&mut self, param_type: ParamType) -> (r: Result<Vec<u8>, VmError>) {
        match param_type {
            ParamType::Nil => {
                let v: Vec<u8> = Vec::new();
                proof {
                    assert(v@ =~= Seq::<u8>::empty());
                }
                Ok(v)
            },
            ParamType::Static(n) => {
                let count = n as usize;
                if self.program_pointer > MEM_SIZE || count > MEM_SIZE - self.program_pointer {
                    return Err(VmError::OutOfBounds);
                }
                let ghost pp0 = self.program_pointer as int;
                let mut v: Vec<u8> = Vec::new();
                let mut i: usize = 0;
                while i < count
                    invariant
                        self.inv(),
                        i <= count,
                        0 <= pp0,
                        pp0 + count <= MEM_SIZE,
                        self.program_pointer == pp0 + i,
                        self.memory@ == old(self).memory@,
                        self.stack_pointer == old(self).stack_pointer,
                        v@ =~= self.memory@.subrange(pp0, pp0 + i),
                    decreases count - i,
                {
                    v.push(self.memory[self.program_pointer]);
                    self.program_pointer = self.program_pointer + 1;
                    i = i + 1;
                }
                Ok(v)
            },
            ParamType::Variadic(n) => {
                let count = n as usize;
                if self.program_pointer > MEM_SIZE || count + 1 > MEM_SIZE - self.program_pointer {
                    return Err(VmError::OutOfBounds);
                }
                let len_pos = self.program_pointer + count;
                let payload = self.memory[len_pos] as usize;
                if payload > MEM_SIZE - (len_pos + 1) {
                    return Err(VmError::OutOfBounds);
                }
                let ghost pp0 = self.program_pointer as int;
                let mut v: Vec<u8> = Vec::new();
                let mut i: usize = 0;
                while i < count
                    invariant
                        self.inv(),
                        i <= count,
                        0 <= pp0,
                        pp0 + count + 1 + payload <= MEM_SIZE,
                        self.program_pointer == pp0 + i,
                        self.memory@ == old(self).memory@,
                        self.stack_pointer == old(self).stack_pointer,
                        v@ =~= self.memory@.subrange(pp0, pp0 + i),
                    decreases count - i,
                {
                    v.push(self.memory[self.program_pointer]);
                    self.program_pointer = self.program_pointer + 1;
                    i = i + 1;
                }
                self.program_pointer = self.program_pointer + 1;
                let mut j: usize = 0;
                while j < payload
                    invariant
                        self.inv(),
                        j <= payload,
                        0 <= pp0,
                        pp0 + count + 1 + payload <= MEM_SIZE,
                        self.program_pointer == pp0 + count + 1 + j,
                        self.memory@ == old(self).memory@,
                        self.stack_pointer == old(self).stack_pointer,
                        v@ =~= self.memory@.subrange(pp0, pp0 + count) + self.memory@.subrange(
                            pp0 + count + 1,
                            pp0 + count + 1 + j,
                        ),
                    decreases payload - j,
                {
                    v.push(self.memory[self.program_pointer]);
                    self.program_pointer = self.program_pointer + 1;
                    j = j + 1;
                }
                Ok(v)
            },
        }
    }

    fn step(&mut self) -> (r: Result<bool, VmError>) {
        if self.program_pointer >= MEM_SIZE {
            return Err(VmError::OutOfBounds);
        }
        let position = self.program_pointer;
        let opcode = self.memory[position];
        self.program_pointer = position + 1;
        match instruction_for(opcode) {
            None => Err(VmError::UnknownOpcode { position }),
            Some(inst) => match self.read_params(inst.param_type) {
                Err(e) => Err(e),
                Ok(params) => if opcode == EXIT {
                    Ok(false)
                } else if opcode == GOTO {
                    self.program_pointer = params[0] as usize;
                    Ok(true)
                } else {
                    Ok(true)
                },
            },
        }
    }

    fn exec(&mut self, max_steps: usize) -> (r: Result<bool, VmError>) {
        let ghost s0 = self.snap();
        let mut i: usize = 0;
        while i < max_steps
            invariant
                self.inv(),
                i <= max_steps,
                s0 == snap_of(old(self)),
                spec_runs_to(s0, self.snap(), i as nat),
            decreases max_steps - i,
        {
            let ghost pre = self.snap();
            match self.step() {
                Ok(true) => {
                    proof {
                        lemma_runs_to_extend(s0, pre, self.snap(), i as nat);
                    }
                    i = i + 1;
                },
                Ok(false) => {
                    proof {
                        assert(spec_runs_to(snap_of(old(self)), pre, i as nat));
                    }
                    return Ok(true);
                },
                Err(e) => {
                    proof {
                        assert(spec_runs_to(snap_of(old(self)), pre, i as nat));
                    }
                    return Err(e);
                },
            }
        }
        Ok(false)
    }
}

/// Round trip for a `Static(n)` operand: laying `n` operand bytes over
/// memory at `pos` and then decoding with shape `Static(n)` from a program
/// cursor at `pos` reproduces exactly those bytes and advances the cursor by
/// exactly `n`.
pub proof fn lemma_static_round_trip(mem: Seq<u8>, sp: int, pos: int, bytes: Seq<u8>)
    requires
        0 <= pos,
        pos + bytes.len() <= mem.len(),
        bytes.len() <= 255,
    ensures
        ({
            let stored = spec_store(mem, pos, bytes);
            spec_read_params(
                VmSnap { mem: stored, sp, pp: pos },
                ParamType::Static(bytes.len() as u8),
            ) == Some((bytes, VmSnap { mem: stored, sp, pp: pos + bytes.len() }))
        }),
{
    let stored = spec_store(mem, pos, bytes);
    assert(stored.subrange(pos, pos + bytes.len()) =~= bytes);
}

/// Round trip for a `Variadic(n)` operand: laying `n` header bytes, the
/// length byte, and that many payload bytes over memory at `pos` and then
/// decoding with shape `Variadic(n)` reproduces the header and payload bytes
/// (without the length byte) and advances the cursor past all of them.
pub proof fn lemma_variadic_round_trip(
    mem: Seq<u8>,
    sp: int,
    pos: int,
    header: Seq<u8>,
    payload: Seq<u8>,
)
    requires
        0 <= pos,
        header.len() <= 255,
        payload.len() <= 255,
        pos + header.len() + 1 + payload.len() <= mem.len(),
    ensures
        ({
            let encoded = header + seq![payload.len() as u8] + payload;
            let stored = spec_store(mem, pos, encoded);
            spec_read_params(
                VmSnap { mem: stored, sp, pp: pos },
                ParamType::Variadic(header.len() as u8),
            ) == Some(
                (
                    header + payload,
                    VmSnap { mem: stored, sp, pp: pos + header.len() + 1 + payload.len() },
                ),
            )
        }),
{
    let n = header.len() as int;
    let l = payload.len() as int;
    let encoded = header + seq![payload.len() as u8] + payload;
    let stored = spec_store(mem, pos, encoded);
    assert(stored[pos + n] == payload.len() as u8);
    assert(stored.subrange(pos, pos + n) =~= header);
    assert(stored.subrange(pos + n + 1, pos + n + 1 + l) =~= payload);
    assert(stored.subrange(pos, pos + n) + stored.subrange(pos + n + 1, pos + n + 1 + l) =~= header
        + payload);
}

} // verus!
