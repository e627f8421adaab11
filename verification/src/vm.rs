use vstd::prelude::*;

use crate::bytecode::{spec_op_of_byte, Chunk, Op};
use crate::value::{views_of, Value};

verus! {

/// The interpreter's terminal failure kinds.
#[derive(Clone, Copy, Debug, PartialEq, Eq, Structural)]
pub enum InterpreterError {
    /// Reserved for the external compiler stage; this core never raises it.
    AtCompileTime,
    /// The fetch-execute loop read a byte it could not execute.
    AtRunTime,
}

/// The diagnostic text for `e`.
pub open spec fn spec_interpreter_error_message(e: InterpreterError) -> Seq<char> {
    match e {
        InterpreterError::AtCompileTime => "An error has occurred at compile-time."@,
        InterpreterError::AtRunTime => "An error has occurred at runtime."@,
    }
}

impl InterpreterError {
    /// The diagnostic text for `self`.
    pub fn message(&self) -> (r: String)
        ensures
            r@ == spec_interpreter_error_message(*self),
    {
        match self {
            InterpreterError::AtCompileTime => String::from_str(
                "An error has occurred at compile-time.",
            ),
            InterpreterError::AtRunTime => String::from_str("An error has occurred at runtime."),
        }
    }
}

/// Whether one fetch-execute pass over `code` reaches a terminal
/// instruction: the first byte must encode an operation, a `Constant` must
/// have its operand byte present, and that operand must index inside a pool
/// of `nconsts` entries.
pub open spec fn spec_run_ok(code: Seq<u8>, nconsts: int) -> bool {
    &&& code.len() > 0
    &&& match spec_op_of_byte(code[0]) {
        None => false,
        Some(Op::Return) => true,
        Some(Op::Constant) => code.len() >= 2 && code[1] < nconsts,
    }
}

/// The renderings of the values a successful pass reports: the referenced
/// pool entry when the first instruction is `Constant`, nothing otherwise.
pub open spec fn spec_reports(code: Seq<u8>, consts: Seq<Value>) -> Seq<Seq<char>> {
    if spec_run_ok(code, consts.len() as int) && spec_op_of_byte(code[0]) == Some(Op::Constant) {
        seq![consts[code[1] as int]@]
    } else {
        Seq::empty()
    }
}

/// Where the read cursor stands when the pass ends: past the bytes it
/// consumed before succeeding or failing.
pub open spec fn spec_final_ip(code: Seq<u8>) -> int {
    if code.len() == 0 {
        0
    } else {
        match spec_op_of_byte(code[0]) {
            None => 1,
            Some(Op::Return) => 1,
            Some(Op::Constant) => if code.len() < 2 {
                1
            } else {
                2
            },
        }
    }
}

/// Law: a chunk whose only instruction is `Return` interprets successfully
/// and reports nothing.
pub proof fn lemma_interpret_return_reports_nothing(code: Seq<u8>, consts: Seq<Value>)
    requires
        code == seq![crate::bytecode::spec_op_byte(Op::Return)],
    ensures
        spec_run_ok(code, consts.len() as int),
        spec_reports(code, consts) == Seq::<Seq<char>>::empty(),
{
}

/// Law: a chunk of one `Constant` instruction whose operand indexes inside
/// the pool interprets successfully and reports exactly that pool entry's
/// rendering, once.
pub proof fn lemma_interpret_constant_reports_once(code: Seq<u8>, consts: Seq<Value>, idx: u8)
    requires
        code == seq![crate::bytecode::spec_op_byte(Op::Constant), idx],
        (idx as int) < consts.len(),
    ensures
        spec_run_ok(code, consts.len() as int),
        spec_reports(code, consts) == seq![consts[idx as int]@],
{
}

/// Law: a chunk whose first byte encodes no operation fails at run time and
/// reports nothing.
pub proof fn lemma_interpret_bad_opcode_reports_nothing(code: Seq<u8>, consts: Seq<Value>)
    requires
        code.len() > 0,
        spec_op_of_byte(code[0]) is None,
    ensures
        !spec_run_ok(code, consts.len() as int),
        spec_reports(code, consts) == Seq::<Seq<char>>::empty(),
{
}

/// Executes chunks: owns a read cursor into the chunk under execution and
/// collects the values that executed `Constant` instructions report, for
/// the caller to hand to its output sink.
pub struct VM {
    /// The read cursor: a byte offset into the current chunk's code.
    pub ip: usize,
    /// The values reported by the most recent `interpret` call, in order.
    pub reported: Vec<Value>,
}

impl Default for VM {
    /// A machine with its cursor at the start and nothing reported.
    fn default() -> (r: Self)
        ensures
            r.ip == 0,
            r.reported@ == Seq::<Value>::empty(),
    {
        VM { ip: 0, reported: Vec::new() }
    }
}

impl VM {
    /// Resets the cursor and the report list, then runs one fetch-execute
    /// pass over `chunk`: reads the byte at the cursor, advances, and
    /// dispatches. `Return` terminates with success; `Constant` reads its
    /// operand byte, reports the pool entry it references, and terminates
    /// with success. A byte that encodes no operation, an operand cut off
    /// by the end of the code, or an operand that indexes outside the pool
    /// terminates with a runtime failure, and nothing is reported.
    pub fn interpret(&mut self, chunk: &Chunk) -> (r: Result<(), InterpreterError>)
        ensures
            r is Ok <==> spec_run_ok(chunk.code@, chunk.constants@.len() as int),
            r is Err ==> r == Result::<(), InterpreterError>::Err(InterpreterError::AtRunTime),
            views_of(final(self).reported@) == spec_reports(chunk.code@, chunk.constants@),
            final(self).ip == spec_final_ip(chunk.code@),
    {
        self.ip = 0;
        self.reported = Vec::new();
        self.run(chunk)
    }

    /// One fetch-execute pass from the current cursor, which the caller has
    /// reset to the start of `chunk`'s code.
    fn run(&mut self, chunk: &Chunk) -> (r: Result<(), InterpreterError>)
        requires
            old(self).ip == 0,
            old(self).reported@ == Seq::<Value>::empty(),
        ensures
            r is Ok <==> spec_run_ok(chunk.code@, chunk.constants@.len() as int),
            r is Err ==> r == Result::<(), InterpreterError>::Err(InterpreterError::AtRunTime),
            views_of(final(self).reported@) == spec_reports(chunk.code@, chunk.constants@),
            final(self).ip == spec_final_ip(chunk.code@),
    {
        proof {
            assert(views_of(Seq::<Value>::empty()) =~= Seq::<Seq<char>>::empty());
        }
        if self.ip >= chunk.code.len() {
            return Err(InterpreterError::AtRunTime);
        }
        let b = chunk.code[self.ip];
        self.ip = self.ip + 1;
        match Op::from_byte(b) {
            None => Err(InterpreterError::AtRunTime),
            Some(Op::Return) => Ok(()),
            Some(Op::Constant) => {
                if self.ip >= chunk.code.len() {
                    return Err(InterpreterError::AtRunTime);
                }
                let index = chunk.code[self.ip];
                self.ip = self.ip + 1;
                if index as usize >= chunk.constants.len() {
                    return Err(InterpreterError::AtRunTime);
                }
                let constant = chunk.constants[index as usize].clone();
                self.reported.push(constant);
                proof {
                    assert(views_of(self.reported@) =~= spec_reports(
                        chunk.code@,
                        chunk.constants@,
                    ));
                }
                Ok(())
            },
        }
    }
}

} // verus!
