//! The bytecode machine: a data stack, a return stack, the function that is
//! running and the position in its code.
//!
//! What cannot be carried out (too few values on the data stack, a division
//! by zero, a call or fetch that leads nowhere) leaves the machine as it
//! was, or as far as it got, and is returned as a [`Fault`] for the caller
//! to report. A return needs a caller on the return stack: the interpreter
//! looks before it returns, and reports the fault where there is none.

use vstd::prelude::*;
use vstd::string::*;
use crate::arith::{quot, wrap32, wrapping_difference, wrapping_product, wrapping_quotient,
    wrapping_sum};
use crate::function::{Callback, Directive, Function, FunctionTable, FunctionView, Primitive,
    lookup};
use crate::text::{stack_text, top_text, write_stack, write_top};

verus! {

/// Whether words run at once or are appended to a definition.
#[derive(Clone, Copy, PartialEq, Eq, Debug, Structural)]
pub enum Mode {
    /// Words run at once.
    Execute,
    /// Words are appended to the function under definition.
    Compile,
}

/// Where to resume a caller: its function and its program counter.
#[derive(Clone, Copy, PartialEq, Eq, Debug, Structural)]
pub struct ReturnData {
    /// The id of the calling function.
    pub id: usize,
    /// The caller's program counter at the call.
    pub pc: isize,
}

/// Why an operation could not be carried out.
#[derive(Clone, Copy, PartialEq, Eq, Debug, Structural)]
pub enum Fault {
    /// The data stack holds fewer values than the operation takes.
    StackUnderflow,
    /// The divisor is zero.
    DivisionByZero,
    /// A call names no function of the dictionary.
    UnknownFunction,
    /// A return with an empty return stack.
    ReturnUnderflow,
    /// The program counter left the code of the running function.
    CodeOverrun,
    /// A word was to be compiled, but no definition is open.
    NoDefinition,
    /// A call was to be compiled, but the function's id does not fit an operand.
    OperandRange,
}

impl Fault {
    /// A fatal fault halts the machine; after any other it goes on.
    pub open spec fn fatal(self) -> bool {
        self is ReturnUnderflow || self is CodeOverrun
    }

    /// The diagnostic that reports the fault.
    pub open spec fn text(self) -> Seq<char> {
        match self {
            Fault::StackUnderflow => "Error: stack underflow"@,
            Fault::DivisionByZero => "Error: division by zero"@,
            Fault::UnknownFunction => "Error: call of an unknown function"@,
            Fault::ReturnUnderflow => "Error: return without a caller"@,
            Fault::CodeOverrun => "Error: program counter outside the code"@,
            Fault::NoDefinition => "Error: no definition in progress"@,
            Fault::OperandRange => "Error: function id does not fit an operand"@,
        }
    }

    /// Whether the fault halts the machine.
    pub fn is_fatal(self) -> (r: bool)
        ensures
            r == self.fatal(),
    {
        match self {
            Fault::ReturnUnderflow => true,
            Fault::CodeOverrun => true,
            _ => false,
        }
    }

    /// The diagnostic that reports the fault.
    pub fn message(self) -> (s: String)
        ensures
            s@ == self.text(),
    {
        match self {
            Fault::StackUnderflow => String::from_str("Error: stack underflow"),
            Fault::DivisionByZero => String::from_str("Error: division by zero"),
            Fault::UnknownFunction => String::from_str("Error: call of an unknown function"),
            Fault::ReturnUnderflow => String::from_str("Error: return without a caller"),
            Fault::CodeOverrun => String::from_str("Error: program counter outside the code"),
            Fault::NoDefinition => String::from_str("Error: no definition in progress"),
            Fault::OperandRange => String::from_str("Error: function id does not fit an operand"),
        }
    }
}

/// The machine.
pub struct VM {
    /// The dictionary.
    pub ftable: FunctionTable,
    /// The data stack, top last.
    pub dstack: Vec<i32>,
    /// The return stack, innermost caller last.
    pub rstack: Vec<ReturnData>,
    /// The id of the running function.
    pub fc: usize,
    /// The position of the byte fetched last; `-1` before the first fetch.
    pub pc: isize,
    /// Whether words run or are compiled.
    pub mode: Mode,
    /// Cleared by the halt primitive and by a fatal fault.
    pub run_vm: bool,
    /// Everything written and not yet taken away.
    pub out: String,
}

/// The mathematical content of a [`VM`].
pub struct VmView {
    /// The dictionary.
    pub funcs: Seq<FunctionView>,
    /// The data stack, top last.
    pub dstack: Seq<i32>,
    /// The return stack, innermost caller last.
    pub rstack: Seq<ReturnData>,
    /// The id of the running function.
    pub fc: usize,
    /// The position of the byte fetched last; `-1` before the first fetch.
    pub pc: isize,
    /// Whether words run or are compiled.
    pub mode: Mode,
    /// Cleared by the halt primitive and by a fatal fault.
    pub running: bool,
    /// Everything written and not yet taken away.
    pub out: Seq<char>,
}

/// The result of an arithmetic primitive on `b` (pushed first) and `a`
/// (pushed last, not zero for a division).
pub open spec fn binary(p: Primitive, b: i32, a: i32) -> i32 {
    match p {
        Primitive::Add => wrap32(b + a),
        Primitive::Sub => wrap32(b - a),
        Primitive::Mul => wrap32(b * a),
        _ => wrap32(quot(b as int, a as int)),
    }
}

/// Whether the primitive is one of `+ - * /`.
pub open spec fn is_arithmetic(p: Primitive) -> bool {
    p is Add || p is Sub || p is Mul || p is Div
}

/// How many values a primitive takes from the data stack.
pub open spec fn operands(p: Primitive) -> nat {
    if is_arithmetic(p) || p is Swp {
        2
    } else if p is Dup || p is Pop {
        1
    } else {
        0
    }
}

/// `Err` of the fault, or `Ok` where there is none.
pub open spec fn as_result(fault: Option<Fault>) -> Result<(), Fault> {
    match fault {
        Some(f) => Err(f),
        None => Ok(()),
    }
}

impl VmView {
    /// A machine with nothing in it, before its first fetch.
    pub open spec fn initial() -> VmView {
        VmView {
            funcs: Seq::empty(),
            dstack: Seq::empty(),
            rstack: Seq::empty(),
            fc: 0,
            pc: (-1) as isize,
            mode: Mode::Execute,
            running: true,
            out: Seq::empty(),
        }
    }

    /// The fault that a primitive meets in this state, if any.
    pub open spec fn fault_of(self, p: Primitive) -> Option<Fault> {
        let n = self.dstack.len();
        if (is_arithmetic(p) || p is Swp) && n < 2 {
            Some(Fault::StackUnderflow)
        } else if (p is Dup || p is Pop) && n < 1 {
            Some(Fault::StackUnderflow)
        } else if p is Div && self.dstack[n - 1] == 0 {
            Some(Fault::DivisionByZero)
        } else {
            None
        }
    }

    /// The state after a primitive. A primitive that meets a fault changes nothing.
    pub open spec fn apply(self, p: Primitive) -> VmView {
        let n = self.dstack.len() as int;
        if self.fault_of(p) is Some {
            self
        } else if is_arithmetic(p) {
            VmView {
                dstack: self.dstack.subrange(0, n - 2).push(
                    binary(p, self.dstack[n - 2], self.dstack[n - 1]),
                ),
                ..self
            }
        } else {
            match p {
                Primitive::PrintTop => VmView { out: self.out + top_text(self.dstack), ..self },
                Primitive::PrintStack => VmView {
                    out: self.out + stack_text(self.dstack),
                    ..self
                },
                Primitive::Dup => VmView { dstack: self.dstack.push(self.dstack[n - 1]), ..self },
                Primitive::Pop => VmView { dstack: self.dstack.drop_last(), ..self },
                Primitive::Clr => VmView { dstack: Seq::empty(), ..self },
                Primitive::Swp => VmView {
                    dstack: self.dstack.subrange(0, n - 2).push(self.dstack[n - 1]).push(
                        self.dstack[n - 2],
                    ),
                    ..self
                },
                _ => VmView { running: false, ..self },
            }
        }
    }

    /// The byte at `idx` in the code of the running function.
    pub open spec fn byte_at(self, idx: int) -> Option<i8> {
        if self.fc < self.funcs.len() && 0 <= idx < self.funcs[self.fc as int].code.len() {
            Some(self.funcs[self.fc as int].code[idx])
        } else {
            None
        }
    }

    /// Advances the program counter and reads the byte it then points at.
    pub open spec fn fetch(self) -> (VmView, Option<i8>) {
        if self.pc == isize::MAX {
            (self, None)
        } else {
            let next = VmView { pc: (self.pc + 1) as isize, ..self };
            (next, next.byte_at(next.pc as int))
        }
    }

    /// The state after pushing `v` onto the data stack.
    pub open spec fn pushed(self, v: i32) -> VmView {
        VmView { dstack: self.dstack.push(v), ..self }
    }

    /// What a call of function `id` hands back: a fault, a directive for the
    /// interpreter to carry out, or nothing.
    pub open spec fn call_outcome(self, id: int) -> Result<Option<Directive>, Fault> {
        if !(0 <= id < self.funcs.len()) {
            Err(Fault::UnknownFunction)
        } else if self.funcs[id].code.len() > 0 {
            Ok(None)
        } else {
            match self.funcs[id].callback {
                Callback::VM(p) => match self.fault_of(p) {
                    Some(f) => Err(f),
                    None => Ok(None),
                },
                Callback::Interpreter(d) => Ok(Some(d)),
                Callback::Null => Ok(None),
            }
        }
    }

    /// The state after a call of function `id`. A function with code is
    /// entered: the caller's position goes onto the return stack and the
    /// program counter is reset. A native function of the machine runs at once.
    pub open spec fn called(self, id: int) -> VmView {
        if !(0 <= id < self.funcs.len()) {
            self
        } else if self.funcs[id].code.len() > 0 {
            VmView {
                rstack: self.rstack.push(ReturnData { id: self.fc, pc: self.pc }),
                fc: id as usize,
                pc: (-1) as isize,
                ..self
            }
        } else {
            match self.funcs[id].callback {
                Callback::VM(p) => self.apply(p),
                _ => self,
            }
        }
    }

    /// The `Call` instruction: reads the operand and calls the function it names.
    pub open spec fn do_call(self) -> (VmView, Result<Option<Directive>, Fault>) {
        let (s, operand) = self.fetch();
        match operand {
            None => (s, Err(Fault::CodeOverrun)),
            Some(id) => (s.called(id as int), s.call_outcome(id as int)),
        }
    }

    /// The `Jump` instruction: reads the operand and moves the program counter
    /// by the operand less one, from the operand's position.
    pub open spec fn do_jump(self) -> (VmView, Result<(), Fault>) {
        let (s, operand) = self.fetch();
        match operand {
            None => (s, Err(Fault::CodeOverrun)),
            Some(offset) => if s.pc + offset - 1 > isize::MAX {
                (s, Err(Fault::CodeOverrun))
            } else {
                (VmView { pc: (s.pc + offset - 1) as isize, ..s }, Ok(()))
            },
        }
    }

    /// The `PushNum` instruction: reads the operand and pushes it.
    pub open spec fn do_push_num(self) -> (VmView, Result<(), Fault>) {
        let (s, operand) = self.fetch();
        match operand {
            None => (s, Err(Fault::CodeOverrun)),
            Some(v) => (s.pushed(v as i32), Ok(())),
        }
    }

    /// The `Return` instruction: resumes the innermost caller.
    pub open spec fn do_return(self) -> (VmView, Result<(), Fault>) {
        if self.rstack.len() == 0 {
            (self, Err(Fault::ReturnUnderflow))
        } else {
            (
                VmView {
                    rstack: self.rstack.drop_last(),
                    fc: self.rstack.last().id,
                    pc: self.rstack.last().pc,
                    ..self
                },
                Ok(()),
            )
        }
    }

    /// The state after a new function without code was appended and given a callback.
    pub open spec fn with_native(self, name: Seq<char>, callback: Callback) -> VmView {
        VmView { funcs: self.funcs.push(native(name, callback)), ..self }
    }
}

/// A native function: no code, the given callback, not immediate.
pub open spec fn native(name: Seq<char>, callback: Callback) -> FunctionView {
    FunctionView { name, code: Seq::empty(), callback, immediate: false }
}

/// The machine's own primitives, in the order in which they are registered.
pub open spec fn primitives() -> Seq<FunctionView> {
    seq![
        native("."@, Callback::VM(Primitive::PrintTop)),
        native(".."@, Callback::VM(Primitive::PrintStack)),
        native("+"@, Callback::VM(Primitive::Add)),
        native("-"@, Callback::VM(Primitive::Sub)),
        native("*"@, Callback::VM(Primitive::Mul)),
        native("/"@, Callback::VM(Primitive::Div)),
        native("dup"@, Callback::VM(Primitive::Dup)),
        native("pop"@, Callback::VM(Primitive::Pop)),
        native("clr"@, Callback::VM(Primitive::Clr)),
        native("swp"@, Callback::VM(Primitive::Swp)),
        native("exit"@, Callback::VM(Primitive::Exit)),
    ]
}

impl View for VM {
    type V = VmView;

    open spec fn view(&self) -> VmView {
        VmView {
            funcs: self.ftable@,
            dstack: self.dstack@,
            rstack: self.rstack@,
            fc: self.fc,
            pc: self.pc,
            mode: self.mode,
            running: self.run_vm,
            out: self.out@,
        }
    }
}

impl VM {
    /// A machine with an empty dictionary and empty stacks, in execute mode.
    pub fn new() -> (vm: VM)
        ensures
            vm@ == VmView::initial(),
    {
        VM {
            ftable: FunctionTable::new(),
            dstack: Vec::new(),
            rstack: Vec::new(),
            fc: 0,
            pc: -1,
            mode: Mode::Execute,
            run_vm: true,
            out: String::new(),
        }
    }

    /// The byte at `idx` in the code of the running function; `None` where
    /// there is no such byte.
    pub fn get_opcode(&self, idx: usize) -> (r: Option<i8>)
        ensures
            r == self@.byte_at(idx as int),
    {
        if self.fc < self.ftable.items.len() {
            let f = &self.ftable.items[self.fc];
            if idx < f.code.len() {
                return Some(f.code[idx]);
            }
        }
        None
    }

    /// The byte that the program counter points at.
    pub fn curr_opcode(&self) -> (r: Option<i8>)
        ensures
            r == self@.byte_at(self@.pc as int),
    {
        if self.pc < 0 {
            None
        } else {
            self.get_opcode(self.pc as usize)
        }
    }

    /// Advances the program counter and reads the byte it then points at.
    pub fn next_opcode(&mut self) -> (r: Option<i8>)
        ensures
            (final(self)@, r) == old(self)@.fetch(),
    {
        if self.pc == isize::MAX {
            return None;
        }
        self.pc = self.pc + 1;
        self.curr_opcode()
    }

    /// Advances the program counter and reads the byte it then points at,
    /// sign-extended.
    pub fn next_int(&mut self) -> (r: Option<i32>)
        ensures
            final(self)@ == old(self)@.fetch().0,
            r == match old(self)@.fetch().1 {
                Some(b) => Some(b as i32),
                None => None,
            },
    {
        match self.next_opcode() {
            Some(b) => Some(b as i32),
            None => None,
        }
    }

    /// Finds the first function with the given name; see [`FunctionTable::find`].
    pub fn find_func(&self, name: String, id: &mut usize) -> (r: Option<&Function>)
        ensures
            match lookup(self@.funcs, name@) {
                Some(i) => r is Some && *final(id) == i && i < self@.funcs.len() && r.unwrap()@
                    == self@.funcs[i],
                None => r is None && *final(id) == *old(id),
            },
    {
        self.ftable.find(name, id)
    }

    /// Appends a new function without code or callback and returns its id.
    pub fn add_func(&mut self, name: String) -> (id: usize)
        ensures
            id == old(self)@.funcs.len(),
            final(self)@ == (VmView {
                funcs: old(self)@.funcs.push(FunctionView::stub(name@)),
                ..old(self)@
            }),
    {
        self.ftable.add(name)
    }

    /// Calls function `func`.
    pub fn call_func(&mut self, func: usize) -> (r: Result<Option<Directive>, Fault>)
        ensures
            final(self)@ == old(self)@.called(func as int),
            r == old(self)@.call_outcome(func as int),
    {
        if func >= self.ftable.items.len() {
            return Err(Fault::UnknownFunction);
        }
        if self.ftable.items[func].code.len() > 0 {
            self.rstack.push(ReturnData { id: self.fc, pc: self.pc });
            self.fc = func;
            self.pc = -1;
            Ok(None)
        } else {
            match self.ftable.items[func].callback {
                Callback::VM(p) => match self.run_primitive(p) {
                    Ok(()) => Ok(None),
                    Err(f) => Err(f),
                },
                Callback::Interpreter(d) => Ok(Some(d)),
                Callback::Null => Ok(None),
            }
        }
    }

    /// The `Call` instruction.
    pub fn call(&mut self) -> (r: Result<Option<Directive>, Fault>)
        ensures
            (final(self)@, r) == old(self)@.do_call(),
    {
        match self.next_int() {
            None => Err(Fault::CodeOverrun),
            Some(id) => {
                if id < 0 {
                    Err(Fault::UnknownFunction)
                } else {
                    self.call_func(id as usize)
                }
            },
        }
    }

    /// The `Jump` instruction.
    pub fn jump(&mut self) -> (r: Result<(), Fault>)
        ensures
            (final(self)@, r) == old(self)@.do_jump(),
    {
        match self.next_int() {
            None => Err(Fault::CodeOverrun),
            Some(offset) => {
                let step: isize = (offset - 1) as isize;
                if step > 0 && self.pc > isize::MAX - step {
                    Err(Fault::CodeOverrun)
                } else {
                    self.pc = self.pc + step;
                    Ok(())
                }
            },
        }
    }

    /// The `PushNum` instruction.
    pub fn push_num(&mut self) -> (r: Result<(), Fault>)
        ensures
            (final(self)@, r) == old(self)@.do_push_num(),
    {
        match self.next_int() {
            None => Err(Fault::CodeOverrun),
            Some(num) => {
                self.dstack.push(num);
                Ok(())
            },
        }
    }

    /// The `Return` instruction: resumes the innermost caller. There has to
    /// be one; whoever executes the instruction reports
    /// [`Fault::ReturnUnderflow`] where the return stack is empty.
    pub fn return_func(&mut self)
        requires
            old(self)@.rstack.len() > 0,
        ensures
            final(self)@ == old(self)@.do_return().0,
            final(self)@.rstack == old(self)@.rstack.drop_last(),
            final(self)@.fc == old(self)@.rstack.last().id,
            final(self)@.pc == old(self)@.rstack.last().pc,
    {
        let data: ReturnData = self.rstack.pop().unwrap();
        self.fc = data.id;
        self.pc = data.pc;
    }

    /// Halts the machine.
    pub fn exit(&mut self)
        ensures
            final(self)@ == old(self)@.apply(Primitive::Exit),
    {
        self.run_vm = false;
    }

    fn arithmetic(&mut self, p: Primitive) -> (r: Result<(), Fault>)
        requires
            is_arithmetic(p),
        ensures
            final(self)@ == old(self)@.apply(p),
            r == as_result(old(self)@.fault_of(p)),
    {
        let n: usize = self.dstack.len();
        if n < 2 {
            return Err(Fault::StackUnderflow);
        }
        let a: i32 = self.dstack[n - 1];
        let b: i32 = self.dstack[n - 2];
        let value: i32 = match p {
            Primitive::Add => wrapping_sum(b, a),
            Primitive::Sub => wrapping_difference(b, a),
            Primitive::Mul => wrapping_product(b, a),
            _ => match wrapping_quotient(b, a) {
                Some(q) => q,
                None => {
                    return Err(Fault::DivisionByZero);
                },
            },
        };
        self.dstack.pop();
        self.dstack.pop();
        self.dstack.push(value);
        assert(self.dstack@ =~= old(self).dstack@.subrange(0, n - 2).push(value));
        Ok(())
    }

    /// Replaces the top two values `b`, `a` by `b + a`, wrapped to 32 bits.
    pub fn stack_add(&mut self) -> (r: Result<(), Fault>)
        ensures
            final(self)@ == old(self)@.apply(Primitive::Add),
            r == as_result(old(self)@.fault_of(Primitive::Add)),
    {
        self.arithmetic(Primitive::Add)
    }

    /// Replaces the top two values `b`, `a` by `b - a`, wrapped to 32 bits.
    pub fn stack_sub(&mut self) -> (r: Result<(), Fault>)
        ensures
            final(self)@ == old(self)@.apply(Primitive::Sub),
            r == as_result(old(self)@.fault_of(Primitive::Sub)),
    {
        self.arithmetic(Primitive::Sub)
    }

    /// Replaces the top two values `b`, `a` by `b * a`, wrapped to 32 bits.
    pub fn stack_mul(&mut self) -> (r: Result<(), Fault>)
        ensures
            final(self)@ == old(self)@.apply(Primitive::Mul),
            r == as_result(old(self)@.fault_of(Primitive::Mul)),
    {
        self.arithmetic(Primitive::Mul)
    }

    /// Replaces the top two values `b`, `a` by `b / a`, rounded toward zero.
    pub fn stack_div(&mut self) -> (r: Result<(), Fault>)
        ensures
            final(self)@ == old(self)@.apply(Primitive::Div),
            r == as_result(old(self)@.fault_of(Primitive::Div)),
    {
        self.arithmetic(Primitive::Div)
    }

    /// Pushes a copy of the top value.
    pub fn stack_dup(&mut self) -> (r: Result<(), Fault>)
        ensures
            final(self)@ == old(self)@.apply(Primitive::Dup),
            r == as_result(old(self)@.fault_of(Primitive::Dup)),
    {
        let n: usize = self.dstack.len();
        if n < 1 {
            return Err(Fault::StackUnderflow);
        }
        let val: i32 = self.dstack[n - 1];
        self.dstack.push(val);
        Ok(())
    }

    /// Drops the top value.
    pub fn stack_pop(&mut self) -> (r: Result<(), Fault>)
        ensures
            final(self)@ == old(self)@.apply(Primitive::Pop),
            r == as_result(old(self)@.fault_of(Primitive::Pop)),
    {
        match self.dstack.pop() {
            Some(_) => Ok(()),
            None => Err(Fault::StackUnderflow),
        }
    }

    /// Empties the data stack.
    pub fn stack_clr(&mut self)
        ensures
            final(self)@ == old(self)@.apply(Primitive::Clr),
    {
        self.dstack.clear();
    }

    /// Exchanges the top two values.
    pub fn stack_swp(&mut self) -> (r: Result<(), Fault>)
        ensures
            final(self)@ == old(self)@.apply(Primitive::Swp),
            r == as_result(old(self)@.fault_of(Primitive::Swp)),
    {
        let n: usize = self.dstack.len();
        if n < 2 {
            return Err(Fault::StackUnderflow);
        }
        let a: i32 = self.dstack[n - 1];
        let b: i32 = self.dstack[n - 2];
        self.dstack.pop();
        self.dstack.pop();
        self.dstack.push(a);
        self.dstack.push(b);
        assert(self.dstack@ =~= old(self).dstack@.subrange(0, n - 2).push(a).push(b));
        Ok(())
    }

    /// Writes the top of the data stack, or a placeholder where it is empty.
    pub fn print_top_stack(&mut self)
        ensures
            final(self)@ == old(self)@.apply(Primitive::PrintTop),
    {
        write_top(&mut self.out, &self.dstack);
    }

    /// Writes the whole data stack, bottom first.
    pub fn print_stack(&mut self)
        ensures
            final(self)@ == old(self)@.apply(Primitive::PrintStack),
    {
        write_stack(&mut self.out, &self.dstack);
    }

    /// Runs one of the machine's primitives.
    pub fn run_primitive(&mut self, p: Primitive) -> (r: Result<(), Fault>)
        ensures
            final(self)@ == old(self)@.apply(p),
            r == as_result(old(self)@.fault_of(p)),
    {
        match p {
            Primitive::PrintTop => {
                self.print_top_stack();
                Ok(())
            },
            Primitive::PrintStack => {
                self.print_stack();
                Ok(())
            },
            Primitive::Add => self.stack_add(),
            Primitive::Sub => self.stack_sub(),
            Primitive::Mul => self.stack_mul(),
            Primitive::Div => self.stack_div(),
            Primitive::Dup => self.stack_dup(),
            Primitive::Pop => self.stack_pop(),
            Primitive::Clr => {
                self.stack_clr();
                Ok(())
            },
            Primitive::Swp => self.stack_swp(),
            Primitive::Exit => {
                self.exit();
                Ok(())
            },
        }
    }

    /// Registers a native function and returns its id.
    pub fn add_callback_any(&mut self, name: String, callback: Callback) -> (id: usize)
        ensures
            id == old(self)@.funcs.len(),
            final(self)@ == old(self)@.with_native(name@, callback),
    {
        let id: usize = self.add_func(name);
        self.ftable.set_callback(id, callback);
        assert(self@.funcs =~= old(self)@.funcs.push(native(name@, callback)));
        id
    }

    /// Registers a primitive of the machine under a name and returns its id.
    pub fn add_callback_vm(&mut self, name: String, primitive: Primitive) -> (id: usize)
        ensures
            id == old(self)@.funcs.len(),
            final(self)@ == old(self)@.with_native(name@, Callback::VM(primitive)),
    {
        self.add_callback_any(name, Callback::VM(primitive))
    }

    /// Registers the machine's primitives: `.`, `..`, `+`, `-`, `*`, `/`,
    /// `dup`, `pop`, `clr`, `swp` and `exit`, in this order.
    pub fn setup_functions(&mut self)
        ensures
            final(self)@ == (VmView {
                funcs: old(self)@.funcs + primitives(),
                ..old(self)@
            }),
    {
        self.add_callback_vm(String::from_str("."), Primitive::PrintTop);
        self.add_callback_vm(String::from_str(".."), Primitive::PrintStack);
        self.add_callback_vm(String::from_str("+"), Primitive::Add);
        self.add_callback_vm(String::from_str("-"), Primitive::Sub);
        self.add_callback_vm(String::from_str("*"), Primitive::Mul);
        self.add_callback_vm(String::from_str("/"), Primitive::Div);
        self.add_callback_vm(String::from_str("dup"), Primitive::Dup);
        self.add_callback_vm(String::from_str("pop"), Primitive::Pop);
        self.add_callback_vm(String::from_str("clr"), Primitive::Clr);
        self.add_callback_vm(String::from_str("swp"), Primitive::Swp);
        self.add_callback_vm(String::from_str("exit"), Primitive::Exit);
        assert(self@.funcs =~= old(self)@.funcs + primitives());
    }
}

} // verus!
