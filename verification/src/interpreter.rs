//! The interpreter: it takes words from the input and runs them or compiles
//! them, and it drives the machine one instruction at a time.
//!
//! Reading a line is the caller's business. Where the next word is needed and
//! none is buffered, [`Interpreter::step`] changes nothing and answers
//! [`Status::NeedLine`]; the caller reads a line, hands it over with
//! [`Interpreter::read_line`] and steps again. What is left to do with the
//! words to come is kept as a stack of [`Task`]s, so that a definition whose
//! name has not been read yet can wait across any number of lines.

use vstd::prelude::*;
use vstd::string::*;
use crate::arith::{low_byte, wrap8};
use crate::function::{Callback, Directive, Function, FunctionView, all_wf, lookup};
use crate::input::{TxtInput, discarded, line_words};
use crate::laws::{lemma_set_up_wf, lemma_step_keeps_wf};
use crate::opcode::OpCode;
use crate::text::{already_defined_text, invalid_opcode_text, parse_int, parse_word, prompt_text,
    unknown_word_text, write_already_defined, write_invalid_opcode, write_prompt,
    write_unknown_word};
use crate::vm::{Fault, Mode, VM, VmView, as_result, native, primitives};

verus! {

/// Something that is waiting for words.
#[derive(Clone, Copy, PartialEq, Eq, Debug, Structural)]
pub enum Task {
    /// A prompt cycle: dispatch words until the line ends or a function with
    /// code is entered.
    Prompt,
    /// Dispatch one word.
    Read,
    /// A definition waits for its name.
    Name,
}

/// What the caller of a step has to do next.
#[derive(Clone, Copy, PartialEq, Eq, Debug, Structural)]
pub enum Status {
    /// A step was taken; step again.
    Running,
    /// Nothing changed: a word is needed and none is buffered. Read a line.
    NeedLine,
    /// Nothing changed: the machine has halted and nothing is waiting.
    Halted,
}

/// The interpreter and everything it owns.
pub struct Interpreter {
    /// The machine.
    pub vm: Box<VM>,
    /// The function under definition, if any.
    pub def_id: Option<usize>,
    /// The word source.
    pub input: Box<TxtInput>,
    /// What is waiting for words, innermost last.
    pub tasks: Vec<Task>,
}

/// The mathematical content of an [`Interpreter`].
pub struct InterpView {
    /// The machine.
    pub vm: VmView,
    /// The function under definition, if any.
    pub def_id: Option<usize>,
    /// The buffered words, next first.
    pub input: Seq<Seq<char>>,
    /// What is waiting for words, innermost last.
    pub tasks: Seq<Task>,
}

/// The code of the top-level loop: a prompt cycle, then a jump back to it.
pub open spec fn bootstrap_code() -> Seq<i8> {
    seq![OpCode::Prompt.byte(), OpCode::Jump.byte(), (-2) as i8]
}

/// The functions that the interpreter registers after the machine's own: the
/// top-level loop, the word that opens a definition, and the immediate word
/// that closes one.
pub open spec fn driver_words() -> Seq<FunctionView> {
    seq![
        FunctionView {
            name: " "@,
            code: bootstrap_code(),
            callback: Callback::Null,
            immediate: false,
        },
        native(":"@, Callback::Interpreter(Directive::Define)),
        FunctionView {
            name: ";"@,
            code: Seq::empty(),
            callback: Callback::Interpreter(Directive::EndDefine),
            immediate: true,
        },
    ]
}

impl InterpView {
    /// Well-formedness: no function is both native and interpreted, and
    /// every id that the interpreter holds (the running function, the
    /// callers on the return stack, the function under definition) names a
    /// function; the function under definition has no callback.
    pub open spec fn wf(self) -> bool {
        &&& all_wf(self.vm.funcs)
        &&& self.vm.funcs.len() <= usize::MAX
        &&& self.vm.fc < self.vm.funcs.len()
        &&& forall|k: int|
            0 <= k < self.vm.rstack.len() ==> (#[trigger] self.vm.rstack[k]).id
                < self.vm.funcs.len()
        &&& self.def_id is Some ==> self.def_target() is Some
    }

    /// The interpreter with another machine state.
    pub open spec fn with_vm(self, vm: VmView) -> InterpView {
        InterpView { vm, ..self }
    }

    /// After a diagnostic: the text is written and the rest of the line is discarded.
    pub open spec fn report(self, msg: Seq<char>) -> InterpView {
        InterpView { vm: VmView { out: self.vm.out + msg, ..self.vm }, input: discarded(), ..self }
    }

    /// After a fault: it is reported, and a fatal one halts the machine.
    pub open spec fn fail(self, f: Fault) -> InterpView {
        let s = self.report(f.text());
        if f.fatal() {
            s.with_vm(VmView { running: false, ..s.vm })
        } else {
            s
        }
    }

    /// After an operation of the machine that may have met a fault.
    pub open spec fn resolved(self, r: Result<(), Fault>) -> InterpView {
        match r {
            Err(f) => self.fail(f),
            Ok(()) => self,
        }
    }

    /// The function that compiled code goes to: the one under definition, if
    /// it exists and is not native.
    pub open spec fn def_target(self) -> Option<int> {
        match self.def_id {
            Some(id) => if id < self.vm.funcs.len() && self.vm.funcs[id as int].callback is Null {
                Some(id as int)
            } else {
                None
            },
            None => None,
        }
    }

    /// After appending `bytes` to the function under definition. Without such
    /// a function nothing is compiled and the fault is reported.
    pub open spec fn compiled(self, bytes: Seq<i8>) -> InterpView {
        match self.def_target() {
            Some(id) => self.with_vm(
                VmView {
                    funcs: self.vm.funcs.update(id, self.vm.funcs[id].extended(bytes)),
                    ..self.vm
                },
            ),
            None => self.fail(Fault::NoDefinition),
        }
    }

    /// After compiling a call of function `id`. An id that does not fit the
    /// one-byte operand is refused.
    pub open spec fn compiled_call(self, id: int) -> InterpView {
        if id > i8::MAX {
            self.fail(Fault::OperandRange)
        } else {
            self.compiled(seq![OpCode::Call.byte(), id as i8])
        }
    }

    /// After compiling a literal. The operand is the low byte of the value:
    /// a value outside the signed 8-bit range is truncated.
    pub open spec fn compiled_literal(self, v: i32) -> InterpView {
        self.compiled(seq![OpCode::PushNum.byte(), wrap8(v as int)])
    }

    /// After the word that closes a definition: the function under definition
    /// gets its `Return`, nothing is under definition any more, and the mode
    /// is execute.
    pub open spec fn end_define(self) -> InterpView {
        let funcs = match self.def_target() {
            Some(id) => self.vm.funcs.update(
                id,
                self.vm.funcs[id].extended(seq![OpCode::Return.byte()]),
            ),
            None => self.vm.funcs,
        };
        InterpView { vm: VmView { funcs, mode: Mode::Execute, ..self.vm }, def_id: None, ..self }
    }

    /// After the word that opens a definition: the mode is compile, and the
    /// definition waits for its name.
    pub open spec fn begin_define(self) -> InterpView {
        InterpView {
            vm: VmView { mode: Mode::Compile, ..self.vm },
            tasks: self.tasks.push(Task::Name),
            ..self
        }
    }

    /// After a definition got its name. A name that is taken aborts the
    /// definition: whatever is under definition is closed, the mode is
    /// execute, and the diagnostic is written. A free name is entered in the
    /// dictionary without code, as the function under definition.
    pub open spec fn named(self, name: Seq<char>) -> InterpView {
        match lookup(self.vm.funcs, name) {
            Some(_) => self.end_define().report(already_defined_text(name)),
            None => InterpView {
                vm: VmView { funcs: self.vm.funcs.push(FunctionView::stub(name)), ..self.vm },
                def_id: Some(self.vm.funcs.len() as usize),
                ..self
            },
        }
    }

    /// After a directive.
    pub open spec fn directed(self, d: Directive) -> InterpView {
        match d {
            Directive::Define => self.begin_define(),
            Directive::EndDefine => self.end_define(),
        }
    }

    /// After a call whose outcome the machine handed back.
    pub open spec fn settled(self, outcome: Result<Option<Directive>, Fault>) -> InterpView {
        match outcome {
            Err(f) => self.fail(f),
            Ok(Some(d)) => self.directed(d),
            Ok(None) => self,
        }
    }

    /// After calling function `id` from execute mode.
    pub open spec fn invoked(self, id: int) -> InterpView {
        self.with_vm(self.vm.called(id)).settled(self.vm.call_outcome(id))
    }

    /// After running a callback at once, whatever the mode.
    pub open spec fn ran(self, callback: Callback) -> InterpView {
        match callback {
            Callback::VM(p) => self.with_vm(self.vm.apply(p)).resolved(
                as_result(self.vm.fault_of(p)),
            ),
            Callback::Interpreter(d) => self.directed(d),
            Callback::Null => self,
        }
    }

    /// Dispatches one word. The state after it, and whether the prompt cycle
    /// goes on: it ends only where a function with code was entered.
    ///
    /// A word that names a function: an immediate one runs its callback; in
    /// execute mode the function is called; in compile mode a call is
    /// compiled. Any other word has to be a number: it is pushed in execute
    /// mode and compiled as a literal in compile mode. A word that is neither
    /// is reported.
    pub open spec fn dispatch(self, word: Seq<char>) -> (InterpView, bool) {
        match lookup(self.vm.funcs, word) {
            Some(id) => {
                let f = self.vm.funcs[id];
                if f.immediate {
                    (self.ran(f.callback), true)
                } else if self.vm.mode is Execute {
                    (self.invoked(id), f.code.len() == 0)
                } else {
                    (self.compiled_call(id), true)
                }
            },
            None => match parse_int(word) {
                None => (self.report(unknown_word_text(word)), true),
                Some(v) => if self.vm.mode is Execute {
                    (self.with_vm(self.vm.pushed(v)), true)
                } else {
                    (self.compiled_literal(v), true)
                },
            },
        }
    }

    /// Takes the next word and dispatches it. `None`: no word is buffered,
    /// nothing changes. `Some(false)`: the word was the end-of-line mark, or
    /// a function with code was entered.
    pub open spec fn read_word(self) -> (InterpView, Option<bool>) {
        if self.input.len() == 0 {
            (self, None)
        } else {
            let word = self.input[0];
            let s = InterpView { input: self.input.drop_first(), ..self };
            if word.len() == 0 {
                (s, Some(false))
            } else {
                let (after, keep) = s.dispatch(word);
                (after, Some(keep))
            }
        }
    }

    /// After a prompt cycle was started: the prompt is written if no word is
    /// buffered, and the cycle waits for words.
    pub open spec fn prompted(self) -> InterpView {
        let out = if self.input.len() == 0 {
            self.vm.out + prompt_text(self.vm.mode is Compile)
        } else {
            self.vm.out
        };
        InterpView { vm: VmView { out, ..self.vm }, tasks: self.tasks.push(Task::Prompt), ..self }
    }

    /// After the innermost task is done.
    pub open spec fn finished(self) -> InterpView {
        InterpView { tasks: self.tasks.drop_last(), ..self }
    }

    /// After one instruction of the running function: fetch, decode, execute.
    /// A byte that is no opcode is reported and skipped.
    pub open spec fn executed(self) -> InterpView {
        let (vm, byte) = self.vm.fetch();
        let s = self.with_vm(vm);
        match byte {
            None => s.fail(Fault::CodeOverrun),
            Some(b) => match OpCode::decode(b) {
                None => s.with_vm(
                    VmView { out: vm.out + invalid_opcode_text(b as int, vm.pc as int), ..vm },
                ),
                Some(OpCode::Call) => s.with_vm(vm.do_call().0).settled(vm.do_call().1),
                Some(OpCode::Jump) => s.with_vm(vm.do_jump().0).resolved(vm.do_jump().1),
                Some(OpCode::Prompt) => s.prompted(),
                Some(OpCode::PushNum) => s.with_vm(vm.do_push_num().0).resolved(
                    vm.do_push_num().1,
                ),
                Some(OpCode::Read) => InterpView { tasks: s.tasks.push(Task::Read), ..s },
                Some(OpCode::Return) => s.with_vm(vm.do_return().0).resolved(vm.do_return().1),
            },
        }
    }

    /// One step. With nothing waiting, the machine executes one instruction,
    /// unless it has halted. Otherwise the innermost task takes one word,
    /// unless none is buffered.
    pub open spec fn step(self) -> (InterpView, Status) {
        if self.tasks.len() == 0 {
            if self.vm.running {
                (self.executed(), Status::Running)
            } else {
                (self, Status::Halted)
            }
        } else if self.input.len() == 0 {
            (self, Status::NeedLine)
        } else {
            match self.tasks.last() {
                Task::Prompt => {
                    let (s, keep) = self.read_word();
                    if keep == Some(false) {
                        (s.finished(), Status::Running)
                    } else {
                        (s, Status::Running)
                    }
                },
                Task::Read => (self.finished().read_word().0, Status::Running),
                Task::Name => {
                    let word = self.input[0];
                    let s = InterpView { input: self.input.drop_first(), ..self };
                    if word.len() == 0 {
                        (s.prompted(), Status::Running)
                    } else {
                        (s.finished().named(word), Status::Running)
                    }
                },
            }
        }
    }

    /// Up to `n` steps: the state and status at the first step that is not
    /// taken, or after `n` steps.
    pub open spec fn run(self, n: nat) -> (InterpView, Status)
        decreases n,
    {
        if n == 0 {
            (self, Status::Running)
        } else {
            let (s, status) = self.step();
            if status is Running {
                s.run((n - 1) as nat)
            } else {
                (s, status)
            }
        }
    }

    /// After a line was handed over: its words are buffered behind those
    /// that are there, then the end-of-line mark.
    pub open spec fn fed(self, line: Seq<char>) -> InterpView {
        InterpView { input: self.input + line_words(line), ..self }
    }

    /// After the set-up: the dictionary holds the machine's primitives and
    /// the interpreter's own words, and the top-level loop is the running function.
    pub open spec fn set_up(self) -> InterpView {
        self.with_vm(
            VmView {
                funcs: self.vm.funcs + primitives() + driver_words(),
                fc: (self.vm.funcs.len() + primitives().len()) as usize,
                ..self.vm
            },
        )
    }
}

impl View for Interpreter {
    type V = InterpView;

    open spec fn view(&self) -> InterpView {
        InterpView { vm: self.vm@, def_id: self.def_id, input: self.input@, tasks: self.tasks@ }
    }
}

impl Interpreter {
    /// An interpreter around a machine and an input, with nothing under
    /// definition and nothing waiting.
    pub fn new(vm: Box<VM>, input: Box<TxtInput>) -> (r: Interpreter)
        ensures
            r@ == (InterpView { vm: vm@, def_id: None, input: input@, tasks: Seq::empty() }),
    {
        Interpreter { vm, input, def_id: None, tasks: Vec::new() }
    }

    /// The function under definition, for appending code; `None` where
    /// nothing that can take code is under definition.
    pub fn get_def_func(&mut self) -> (r: Option<&mut Function>)
        ensures
            match old(self)@.def_target() {
                Some(id) => r is Some && (*r.unwrap())@ == old(self)@.vm.funcs[id] && final(self)@
                    == old(self)@.with_vm(
                    VmView {
                        funcs: old(self)@.vm.funcs.update(id, (*final(r.unwrap()))@),
                        ..old(self)@.vm
                    },
                ),
                None => r is None && final(self)@ == old(self)@,
            },
    {
        match self.def_id {
            None => None,
            Some(id) => {
                if id < self.vm.ftable.items.len() {
                    match self.vm.ftable.items[id].callback {
                        Callback::Null => self.vm.ftable.get(id),
                        _ => None,
                    }
                } else {
                    None
                }
            },
        }
    }

    /// Writes a diagnostic and discards the rest of the line.
    pub fn report(&mut self, msg: String)
        ensures
            final(self)@ == old(self)@.report(msg@),
    {
        self.input.print_error(msg, &mut self.vm.out);
    }

    /// Reports a fault; a fatal one halts the machine.
    pub fn fail(&mut self, f: Fault)
        ensures
            final(self)@ == old(self)@.fail(f),
    {
        self.report(f.message());
        if f.is_fatal() {
            self.vm.run_vm = false;
        }
    }

    fn resolve(&mut self, r: Result<(), Fault>)
        ensures
            final(self)@ == old(self)@.resolved(r),
    {
        match r {
            Err(f) => self.fail(f),
            Ok(()) => {},
        }
    }

    fn compile(&mut self, opcode: OpCode, operand: i8)
        requires
            opcode.has_operand(),
        ensures
            final(self)@ == old(self)@.compiled(seq![opcode.byte(), operand]),
    {
        let byte: i8 = opcode.to_i8();
        let done: bool = match self.get_def_func() {
            Some(f) => {
                f.push_opcode(byte, operand);
                true
            },
            None => false,
        };
        if !done {
            self.fail(Fault::NoDefinition);
        }
    }

    /// Compiles a call of function `id` into the function under definition.
    pub fn compile_call(&mut self, id: usize)
        ensures
            final(self)@ == old(self)@.compiled_call(id as int),
    {
        if id > 127 {
            self.fail(Fault::OperandRange);
        } else {
            self.compile(OpCode::Call, id as i8);
        }
    }

    /// Compiles a literal into the function under definition.
    pub fn compile_literal(&mut self, val: i32)
        ensures
            final(self)@ == old(self)@.compiled_literal(val),
    {
        self.compile(OpCode::PushNum, low_byte(val));
    }

    /// Closes the definition in progress and returns to execute mode.
    pub fn end_define_func(&mut self)
        ensures
            final(self)@ == old(self)@.end_define(),
    {
        self.vm.mode = Mode::Execute;
        let byte: i8 = OpCode::Return.to_i8();
        match self.get_def_func() {
            Some(f) => {
                f.push_int(byte);
            },
            None => {},
        }
        self.def_id = None;
    }

    /// Opens a definition: compile mode, and the next word is its name.
    pub fn define_func(&mut self)
        ensures
            final(self)@ == old(self)@.begin_define(),
    {
        self.vm.mode = Mode::Compile;
        self.tasks.push(Task::Name);
    }

    /// Gives the definition that waits its name.
    pub fn define_name(&mut self, name: String)
        ensures
            final(self)@ == old(self)@.named(name@),
    {
        let mut id: usize = 0;
        let taken: bool = self.vm.find_func(name.clone(), &mut id).is_some();
        if taken {
            self.end_define_func();
            let mut msg = String::new();
            write_already_defined(&mut msg, name.as_str());
            assert(msg@ =~= already_defined_text(name@));
            self.report(msg);
        } else {
            self.def_id = Some(self.vm.add_func(name));
        }
    }

    /// Carries out a directive.
    pub fn direct(&mut self, d: Directive)
        ensures
            final(self)@ == old(self)@.directed(d),
    {
        match d {
            Directive::Define => self.define_func(),
            Directive::EndDefine => self.end_define_func(),
        }
    }

    fn settle(&mut self, outcome: Result<Option<Directive>, Fault>)
        ensures
            final(self)@ == old(self)@.settled(outcome),
    {
        match outcome {
            Err(f) => self.fail(f),
            Ok(Some(d)) => self.direct(d),
            Ok(None) => {},
        }
    }

    /// Runs a callback at once.
    pub fn run_callback(&mut self, callback: Callback)
        ensures
            final(self)@ == old(self)@.ran(callback),
    {
        match callback {
            Callback::VM(p) => {
                let r = self.vm.run_primitive(p);
                self.resolve(r);
            },
            Callback::Interpreter(d) => self.direct(d),
            Callback::Null => {},
        }
    }

    /// Dispatches one word; see [`InterpView::dispatch`]. The result says
    /// whether the prompt cycle goes on.
    pub fn exec_word(&mut self, word: String) -> (keep: bool)
        ensures
            (final(self)@, keep) == old(self)@.dispatch(word@),
    {
        let is_exec: bool = match self.vm.mode {
            Mode::Execute => true,
            Mode::Compile => false,
        };
        let mut id: usize = 0;
        let found: Option<(bool, Callback, bool)> = match self.vm.find_func(word.clone(), &mut id) {
            Some(func) => Some((func.immediate, func.callback, func.code.len() == 0)),
            None => None,
        };
        match found {
            None => match parse_word(word.as_str()) {
                None => {
                    let mut msg = String::new();
                    write_unknown_word(&mut msg, word.as_str());
                    assert(msg@ =~= unknown_word_text(word@));
                    self.report(msg);
                },
                Some(val) => {
                    if is_exec {
                        self.vm.dstack.push(val);
                    } else {
                        self.compile_literal(val);
                    }
                },
            },
            Some((immediate, callback, no_code)) => {
                if immediate {
                    self.run_callback(callback);
                } else if is_exec {
                    let outcome = self.vm.call_func(id);
                    self.settle(outcome);
                    return no_code;
                } else {
                    self.compile_call(id);
                }
            },
        }
        true
    }

    /// Takes the next word and dispatches it; see [`InterpView::read_word`].
    pub fn read(&mut self) -> (r: Option<bool>)
        ensures
            (final(self)@, r) == old(self)@.read_word(),
    {
        match self.input.next_word() {
            None => None,
            Some(word) => {
                if word.as_str().unicode_len() == 0 {
                    Some(false)
                } else {
                    Some(self.exec_word(word))
                }
            },
        }
    }

    /// Starts a prompt cycle; see [`InterpView::prompted`].
    pub fn prompt(&mut self)
        ensures
            final(self)@ == old(self)@.prompted(),
    {
        if self.input.empty() {
            let compiling: bool = match self.vm.mode {
                Mode::Execute => false,
                Mode::Compile => true,
            };
            write_prompt(&mut self.vm.out, compiling);
        }
        self.tasks.push(Task::Prompt);
    }

    fn execute(&mut self)
        ensures
            final(self)@ == old(self)@.executed(),
    {
        match self.vm.next_opcode() {
            None => self.fail(Fault::CodeOverrun),
            Some(b) => match OpCode::from_i8(b) {
                Some(OpCode::Call) => {
                    let outcome = self.vm.call();
                    self.settle(outcome);
                },
                Some(OpCode::Jump) => {
                    let r = self.vm.jump();
                    self.resolve(r);
                },
                Some(OpCode::Prompt) => self.prompt(),
                Some(OpCode::PushNum) => {
                    let r = self.vm.push_num();
                    self.resolve(r);
                },
                Some(OpCode::Read) => {
                    self.tasks.push(Task::Read);
                },
                Some(OpCode::Return) => {
                    if self.vm.rstack.len() == 0 {
                        self.fail(Fault::ReturnUnderflow);
                    } else {
                        self.vm.return_func();
                    }
                },
                None => {
                    let at: isize = self.vm.pc;
                    write_invalid_opcode(&mut self.vm.out, b, at);
                },
            },
        }
    }

    /// Takes one step; see [`InterpView::step`].
    pub fn step(&mut self) -> (status: Status)
        ensures
            (final(self)@, status) == old(self)@.step(),
            old(self)@.wf() ==> final(self)@.wf(),
    {
        let n: usize = self.tasks.len();
        let status: Status = if n == 0 {
            if self.vm.run_vm {
                self.execute();
                Status::Running
            } else {
                Status::Halted
            }
        } else if self.input.empty() {
            Status::NeedLine
        } else {
            match self.tasks[n - 1] {
                Task::Prompt => {
                    match self.read() {
                        Some(false) => {
                            self.tasks.pop();
                        },
                        _ => {},
                    }
                },
                Task::Read => {
                    self.tasks.pop();
                    self.read();
                },
                Task::Name => {
                    match self.input.next_word() {
                        None => {},
                        Some(name) => {
                            if name.as_str().unicode_len() == 0 {
                                self.prompt();
                            } else {
                                self.tasks.pop();
                                self.define_name(name);
                            }
                        },
                    }
                },
            }
            Status::Running
        };
        proof {
            assert((self@, status) == old(self)@.step());
            if old(self)@.wf() {
                assert(self@.vm.funcs.len() == self.vm.ftable.items.len());
                lemma_step_keeps_wf(old(self)@);
            }
        }
        status
    }

    /// Steps until a step is not taken, at most `limit` times; see
    /// [`InterpView::run`].
    pub fn run(&mut self, limit: usize) -> (status: Status)
        ensures
            (final(self)@, status) == old(self)@.run(limit as nat),
            old(self)@.wf() ==> final(self)@.wf(),
    {
        let mut left: usize = limit;
        while left > 0
            invariant
                self@.run(left as nat) == old(self)@.run(limit as nat),
                old(self)@.wf() ==> self@.wf(),
            decreases left,
        {
            let status = self.step();
            match status {
                Status::Running => {},
                _ => {
                    return status;
                },
            }
            left = left - 1;
        }
        Status::Running
    }

    /// Hands over a line that was read.
    pub fn read_line(&mut self, line: &str)
        ensures
            final(self)@ == old(self)@.fed(line@),
    {
        self.input.read_line(line);
    }

    /// Hands back what was written since the last call, and forgets it.
    pub fn take_output(&mut self) -> (text: String)
        ensures
            text@ == old(self)@.vm.out,
            final(self)@ == old(self)@.with_vm(VmView { out: Seq::empty(), ..old(self)@.vm }),
    {
        let mut text = String::new();
        std::mem::swap(&mut text, &mut self.vm.out);
        text
    }

    /// Registers the machine's primitives and the interpreter's own words,
    /// and makes the top-level loop the running function. A new interpreter
    /// is well-formed after it.
    pub fn setup(&mut self)
        ensures
            final(self)@ == old(self)@.set_up(),
            old(self)@.vm == VmView::initial() && old(self)@.def_id is None ==> final(self)@.wf(),
    {
        proof {
            if self@.vm == VmView::initial() && self@.def_id is None {
                lemma_set_up_wf(self@);
            }
        }
        self.vm.setup_functions();
        let id: usize = self.vm.add_func(String::from_str(" "));
        let prompt: i8 = OpCode::Prompt.to_i8();
        let jump: i8 = OpCode::Jump.to_i8();
        match self.vm.ftable.get(id) {
            Some(ptr) => {
                ptr.push_int(prompt);
                ptr.push_opcode(jump, -2);
            },
            None => {},
        }
        self.vm.fc = id;
        proof {
            let code = self@.vm.funcs[id as int].code;
            assert(code =~= bootstrap_code());
            assert(self@.vm.funcs[id as int] == driver_words()[0]);
        }
        self.vm.add_callback_any(String::from_str(":"), Callback::Interpreter(Directive::Define));
        let end: usize = self.vm.add_callback_any(
            String::from_str(";"),
            Callback::Interpreter(Directive::EndDefine),
        );
        match self.vm.ftable.get(end) {
            Some(ptr) => {
                ptr.immediate = true;
            },
            None => {},
        }
        proof {
            assert(self@.vm.funcs[end as int] == driver_words()[2]);
            assert(self@.vm.funcs =~= old(self)@.vm.funcs + primitives() + driver_words());
        }
    }
}

} // verus!
