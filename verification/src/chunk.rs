//! The bytecode container.

use vstd::prelude::*;
use crate::opcode::OpCode;

verus! {

/// Whether `code`, read from `offset`, is made of whole instructions, each
/// constant operand among them an index into a pool of `pool` constants.
pub open spec fn decodes(code: Seq<u8>, pool: nat, offset: int) -> bool
    decreases code.len() - offset,
{
    if offset >= code.len() {
        offset == code.len()
    } else {
        match OpCode::decode(code[offset]) {
            None => false,
            Some(OpCode::OpConstant) => {
                &&& offset + 1 < code.len()
                &&& code[offset + 1] < pool
                &&& decodes(code, pool, offset + 2)
            },
            Some(_) => decodes(code, pool, offset + 1),
        }
    }
}

/// Code that decodes still does with whole instructions appended and with a
/// larger pool.
pub proof fn lemma_decodes_append(code: Seq<u8>, pool: nat, offset: int, more: Seq<u8>, larger: nat)
    requires
        0 <= offset <= code.len(),
        decodes(code, pool, offset),
        decodes(more, larger, 0),
        pool <= larger,
    ensures
        decodes(code + more, larger, offset),
    decreases code.len() - offset,
{
    let all = code + more;
    if offset == code.len() {
        lemma_decodes_shift(more, larger, 0, code);
    } else {
        assert(all[offset] == code[offset]);
        match OpCode::decode(code[offset]) {
            None => {},
            Some(OpCode::OpConstant) => {
                assert(all[offset + 1] == code[offset + 1]);
                lemma_decodes_append(code, pool, offset + 2, more, larger);
            },
            Some(_) => {
                lemma_decodes_append(code, pool, offset + 1, more, larger);
            },
        }
    }
}

/// Whether code decodes does not depend on what stands before it.
pub proof fn lemma_decodes_shift(more: Seq<u8>, pool: nat, offset: int, before: Seq<u8>)
    requires
        0 <= offset <= more.len(),
        decodes(more, pool, offset),
    ensures
        decodes(before + more, pool, before.len() + offset),
    decreases more.len() - offset,
{
    let all = before + more;
    if offset < more.len() {
        assert(all[before.len() + offset] == more[offset]);
        match OpCode::decode(more[offset]) {
            None => {},
            Some(OpCode::OpConstant) => {
                assert(all[before.len() + offset + 1] == more[offset + 1]);
                lemma_decodes_shift(more, pool, offset + 2, before);
            },
            Some(_) => {
                lemma_decodes_shift(more, pool, offset + 1, before);
            },
        }
    }
}

/// How many values the stack holds behind the code from `offset` on, where it
/// holds `depth` before: each constant load adds one, each binary
/// instruction takes one away, negation leaves the number. There is no
/// answer where a byte is no instruction, an operand is missing or names no
/// constant of a pool of `pool`, an instruction finds too few values, or
/// the code returns.
pub open spec fn depth_after(code: Seq<u8>, pool: nat, offset: int, depth: nat) -> Option<nat>
    decreases code.len() - offset,
{
    if offset >= code.len() {
        if offset == code.len() {
            Some(depth)
        } else {
            None
        }
    } else {
        match OpCode::decode(code[offset]) {
            None => None,
            Some(OpCode::OpReturn) => None,
            Some(OpCode::OpConstant) => {
                if offset + 1 < code.len() && code[offset + 1] < pool {
                    depth_after(code, pool, offset + 2, depth + 1)
                } else {
                    None
                }
            },
            Some(OpCode::OpNegate) => {
                if depth >= 1 {
                    depth_after(code, pool, offset + 1, depth)
                } else {
                    None
                }
            },
            Some(_) => {
                if depth >= 2 {
                    depth_after(code, pool, offset + 1, (depth - 1) as nat)
                } else {
                    None
                }
            },
        }
    }
}

/// The depth behind code with more code appended is the depth behind the
/// appended code, begun at the depth behind the first; a larger pool does
/// no harm.
pub proof fn lemma_depth_append(
    code: Seq<u8>,
    pool: nat,
    offset: int,
    depth: nat,
    more: Seq<u8>,
    larger: nat,
)
    requires
        0 <= offset <= code.len(),
        depth_after(code, pool, offset, depth) is Some,
        pool <= larger,
    ensures
        depth_after(code + more, larger, offset, depth) == depth_after(
            more,
            larger,
            0,
            depth_after(code, pool, offset, depth)->0,
        ),
    decreases code.len() - offset,
{
    let all = code + more;
    if offset == code.len() {
        lemma_depth_shift(more, larger, 0, depth, code);
    } else {
        assert(all[offset] == code[offset]);
        match OpCode::decode(code[offset]) {
            None => {},
            Some(OpCode::OpReturn) => {},
            Some(OpCode::OpConstant) => {
                assert(all[offset + 1] == code[offset + 1]);
                lemma_depth_append(code, pool, offset + 2, depth + 1, more, larger);
            },
            Some(OpCode::OpNegate) => {
                lemma_depth_append(code, pool, offset + 1, depth, more, larger);
            },
            Some(_) => {
                lemma_depth_append(code, pool, offset + 1, (depth - 1) as nat, more, larger);
            },
        }
    }
}

/// The depth behind code does not depend on what stands before it.
pub proof fn lemma_depth_shift(more: Seq<u8>, pool: nat, offset: int, depth: nat, before: Seq<u8>)
    requires
        0 <= offset <= more.len(),
    ensures
        depth_after(before + more, pool, before.len() + offset, depth) == depth_after(
            more,
            pool,
            offset,
            depth,
        ),
    decreases more.len() - offset,
{
    let all = before + more;
    if offset < more.len() {
        assert(all[before.len() + offset] == more[offset]);
        match OpCode::decode(more[offset]) {
            None => {},
            Some(OpCode::OpReturn) => {},
            Some(OpCode::OpConstant) => {
                if offset + 1 < more.len() {
                    assert(all[before.len() + offset + 1] == more[offset + 1]);
                    lemma_depth_shift(more, pool, offset + 2, depth + 1, before);
                }
            },
            Some(OpCode::OpNegate) => {
                lemma_depth_shift(more, pool, offset + 1, depth, before);
            },
            Some(_) => {
                if depth >= 2 {
                    lemma_depth_shift(more, pool, offset + 1, (depth - 1) as nat, before);
                }
            },
        }
    }
}

/// The code and the lines after the bytes of `writes` were written behind
/// them in order, each with its line.
pub open spec fn written(code: Seq<u8>, lines: Seq<u64>, writes: Seq<(u8, u64)>) -> (Seq<u8>, Seq<u64>)
    decreases writes.len(),
{
    if writes.len() == 0 {
        (code, lines)
    } else {
        let (before, tags) = written(code, lines, writes.drop_last());
        (before.push(writes.last().0), tags.push(writes.last().1))
    }
}

/// After any sequence of writes there are as many lines as bytes of code,
/// where there were before.
pub proof fn lemma_lines_follow_code(code: Seq<u8>, lines: Seq<u64>, writes: Seq<(u8, u64)>)
    requires
        lines.len() == code.len(),
    ensures
        written(code, lines, writes).1.len() == written(code, lines, writes).0.len(),
        written(code, lines, writes).0.len() == code.len() + writes.len(),
    decreases writes.len(),
{
    if writes.len() > 0 {
        lemma_lines_follow_code(code, lines, writes.drop_last());
    }
}

/// A unit of bytecode: instruction bytes, the pool of constants that they
/// refer to, and for every byte the source line that it came from.
///
/// A constant is a double, held as the 64 bits of its IEEE 754 encoding.
#[derive(Debug, Clone)]
pub struct Chunk {
    pub code: Vec<u8>,
    pub constants: Vec<u64>,
    pub lines: Vec<u64>,
}

/// The largest number of constants that one operand byte can address.
pub const MAX_CONSTANTS: usize = 256;

impl Chunk {
    /// Every byte of code has its line.
    pub open spec fn wf(&self) -> bool {
        self.lines@.len() == self.code@.len()
    }

    /// The code is made of whole instructions, and every constant that one
    /// of them loads is in the pool.
    pub open spec fn sound(&self) -> bool {
        decodes(self.code@, self.constants@.len(), 0)
    }

    /// An empty chunk.
    pub fn new() -> (chunk: Self)
        ensures
            chunk.wf(),
            chunk.sound(),
            chunk.code@ == Seq::<u8>::empty(),
            chunk.constants@ == Seq::<u64>::empty(),
            chunk.lines@ == Seq::<u64>::empty(),
    {
        Chunk { code: Vec::new(), constants: Vec::new(), lines: Vec::new() }
    }

    /// Appends one byte of code and the line it belongs to.
    pub fn write_chunk(&mut self, byte: u8, line: u64)
        requires
            old(self).wf(),
        ensures
            final(self).wf(),
            final(self).code@ == old(self).code@.push(byte),
            final(self).lines@ == old(self).lines@.push(line),
            final(self).constants@ == old(self).constants@,
            (final(self).code@, final(self).lines@) == written(
                old(self).code@,
                old(self).lines@,
                seq![(byte, line)],
            ),
    {
        proof {
            let one = seq![(byte, line)];
            assert(one.drop_last() =~= Seq::<(u8, u64)>::empty());
            assert(written(self.code@, self.lines@, one.drop_last()) == (self.code@, self.lines@));
        }
        self.code.push(byte);
        self.lines.push(line);
    }

    /// Appends a constant to the pool and returns its index.
    pub fn add_constant(&mut self, value: u64) -> (index: usize)
        ensures
            index == old(self).constants@.len(),
            final(self).constants@ == old(self).constants@.push(value),
            final(self).code@ == old(self).code@,
            final(self).lines@ == old(self).lines@,
    {
        self.constants.push(value);
        return self.constants.len() - 1;
    }
}

} // verus!
