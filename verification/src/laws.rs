//! What holds of the interpreter in every state, proved over its model.

use vstd::prelude::*;
use crate::arith::{lemma_wrap_in_range, wrap8};
use crate::function::{Callback, Directive, FunctionView, Primitive, all_wf, lemma_lookup_first,
    lemma_lookup_push, lookup};
use crate::input::discarded;
use crate::interpreter::{InterpView, Status, Task, bootstrap_code, driver_words};
use crate::opcode::OpCode;
use crate::text::{already_defined_text, all_digits, digit_value, digits_text, digits_value,
    number_text, parse_int, top_text, unknown_word_text, unsigned_part};
use crate::vm::{Fault, VmView, binary, native, operands, primitives};

verus! {

/// An arithmetic word: a number or one of the four operators.
pub enum Token {
    /// A number.
    Num(i32),
    /// One of `+ - * /`.
    Op(Primitive),
}

/// The operator that a word spells, if it is one of `+ - * /`.
pub open spec fn operator(word: Seq<char>) -> Option<Primitive> {
    if word == "+"@ {
        Some(Primitive::Add)
    } else if word == "-"@ {
        Some(Primitive::Sub)
    } else if word == "*"@ {
        Some(Primitive::Mul)
    } else if word == "/"@ {
        Some(Primitive::Div)
    } else {
        None
    }
}

/// Whether `name` is bound to the machine's primitive `p`.
pub open spec fn resolves(funcs: Seq<FunctionView>, name: Seq<char>, p: Primitive) -> bool {
    match lookup(funcs, name) {
        Some(id) => 0 <= id < funcs.len() && funcs[id] == native(name, Callback::VM(p)),
        None => false,
    }
}

/// Whether the four operators are bound to the machine's arithmetic.
pub open spec fn arithmetic_dictionary(funcs: Seq<FunctionView>) -> bool {
    &&& resolves(funcs, "+"@, Primitive::Add)
    &&& resolves(funcs, "-"@, Primitive::Sub)
    &&& resolves(funcs, "*"@, Primitive::Mul)
    &&& resolves(funcs, "/"@, Primitive::Div)
}

/// What an arithmetic word means under a dictionary: an operator, or a
/// number that no function is named like.
pub open spec fn token(funcs: Seq<FunctionView>, word: Seq<char>) -> Option<Token> {
    match operator(word) {
        Some(p) => Some(Token::Op(p)),
        None => match parse_int(word) {
            Some(v) => if lookup(funcs, word) is None {
                Some(Token::Num(v))
            } else {
                None
            },
            None => None,
        },
    }
}

/// One word of stack arithmetic: a number is pushed; an operator replaces
/// the top two values `b`, `a` by `b op a`. `None` where the operator lacks
/// an operand or divides by zero.
pub open spec fn eval_token(stack: Seq<i32>, t: Token) -> Option<Seq<i32>> {
    let n = stack.len() as int;
    match t {
        Token::Num(v) => Some(stack.push(v)),
        Token::Op(p) => if n < 2 || (p is Div && stack[n - 1] == 0) {
            None
        } else {
            Some(stack.subrange(0, n - 2).push(binary(p, stack[n - 2], stack[n - 1])))
        },
    }
}

/// Stack arithmetic over a line of words, left to right.
pub open spec fn eval(funcs: Seq<FunctionView>, stack: Seq<i32>, words: Seq<Seq<char>>) -> Option<
    Seq<i32>,
>
    decreases words.len(),
{
    if words.len() == 0 {
        Some(stack)
    } else {
        match token(funcs, words[0]) {
            Some(t) => match eval_token(stack, t) {
                Some(next) => eval(funcs, next, words.drop_first()),
                None => None,
            },
            None => None,
        }
    }
}

proof fn lemma_operator_words()
    ensures
        "+"@ =~= seq!['+'],
        "-"@ =~= seq!['-'],
        "*"@ =~= seq!['*'],
        "/"@ =~= seq!['/'],
{
    reveal_strlit("+");
    reveal_strlit("-");
    reveal_strlit("*");
    reveal_strlit("/");
}

/// One arithmetic word in execute mode does to the data stack what stack
/// arithmetic says, and touches nothing else; the prompt cycle goes on.
pub proof fn lemma_arithmetic_word(s: InterpView, word: Seq<char>)
    requires
        s.vm.mode is Execute,
        arithmetic_dictionary(s.vm.funcs),
        token(s.vm.funcs, word) is Some,
        eval_token(s.vm.dstack, token(s.vm.funcs, word)->0) is Some,
    ensures
        s.dispatch(word) == (
            s.with_vm(
                VmView { dstack: eval_token(s.vm.dstack, token(s.vm.funcs, word)->0)->0, ..s.vm },
            ),
            true,
        ),
{
    lemma_operator_words();
    match operator(word) {
        Some(p) => {
            let id = lookup(s.vm.funcs, word)->0;
            assert(s.vm.funcs[id] == native(word, Callback::VM(p)));
            assert(s.vm.fault_of(p) is None);
        },
        None => {},
    }
}

/// An operator that lacks an operand or divides by zero is reported as a
/// fault: the data stack stays as it is and the rest of the line is discarded.
pub proof fn lemma_arithmetic_word_faults(s: InterpView, word: Seq<char>)
    requires
        s.vm.mode is Execute,
        arithmetic_dictionary(s.vm.funcs),
        token(s.vm.funcs, word) is Some,
        eval_token(s.vm.dstack, token(s.vm.funcs, word)->0) is None,
    ensures
        s.dispatch(word) == (
            s.fail(
                if s.vm.dstack.len() < 2 {
                    Fault::StackUnderflow
                } else {
                    Fault::DivisionByZero
                },
            ),
            true,
        ),
        s.dispatch(word).0.vm.dstack == s.vm.dstack,
        s.dispatch(word).0.input == discarded(),
{
    lemma_operator_words();
    match operator(word) {
        Some(p) => {
            let id = lookup(s.vm.funcs, word)->0;
            assert(s.vm.funcs[id] == native(word, Callback::VM(p)));
        },
        None => {},
    }
}

/// A line of numbers and `+ - * /`, dispatched in execute mode by a prompt
/// cycle, leaves the data stack that left-to-right stack arithmetic gives,
/// with the operands of each operator taken second first: one step per word,
/// and nothing but the data stack and the consumed words changes. The line
/// must not ask for an operand that is not there, nor divide by zero.
pub proof fn lemma_arithmetic_line(s: InterpView, words: Seq<Seq<char>>, rest: Seq<Seq<char>>)
    requires
        s.tasks.len() > 0,
        s.tasks.last() is Prompt,
        s.vm.mode is Execute,
        arithmetic_dictionary(s.vm.funcs),
        s.input == words + rest,
        eval(s.vm.funcs, s.vm.dstack, words) is Some,
    ensures
        s.run(words.len()) == (
            InterpView {
                vm: VmView { dstack: eval(s.vm.funcs, s.vm.dstack, words)->0, ..s.vm },
                input: rest,
                ..s
            },
            Status::Running,
        ),
    decreases words.len(),
{
    if words.len() == 0 {
        assert(words + rest =~= rest);
    } else {
        let word = words[0];
        let t = token(s.vm.funcs, word)->0;
        let next = s.with_vm(VmView { dstack: eval_token(s.vm.dstack, t)->0, ..s.vm });
        let taken = InterpView { input: s.input.drop_first(), ..s };
        assert(word.len() > 0) by {
            lemma_operator_words();
        }
        assert(s.input[0] == word);
        assert(s.input.drop_first() =~= words.drop_first() + rest);
        lemma_arithmetic_word(taken, word);
        let after = InterpView { input: words.drop_first() + rest, ..next };
        assert(s.step() == (after, Status::Running));
        lemma_arithmetic_line(after, words.drop_first(), rest);
        assert(s.run(words.len()) == after.run((words.len() - 1) as nat));
    }
}

/// A word that is neither a function nor a number is reported: the
/// diagnostic is written, the rest of the line is discarded, and the data
/// stack, the dictionary and the mode stay as they were.
pub proof fn lemma_unknown_word(s: InterpView, word: Seq<char>)
    requires
        lookup(s.vm.funcs, word) is None,
        parse_int(word) is None,
    ensures
        s.dispatch(word) == (s.report(unknown_word_text(word)), true),
        s.dispatch(word).0.vm.dstack == s.vm.dstack,
        s.dispatch(word).0.vm.funcs == s.vm.funcs,
        s.dispatch(word).0.vm.out == s.vm.out + unknown_word_text(word),
        s.dispatch(word).0.input == discarded(),
{
}

/// Printing the top of the data stack never faults. On an empty stack it
/// writes the placeholder, and nothing but the output changes.
pub proof fn lemma_print_top_is_total(vm: VmView)
    ensures
        vm.fault_of(Primitive::PrintTop) is None,
        vm.apply(Primitive::PrintTop) == (VmView {
            out: vm.out + top_text(vm.dstack),
            ..vm
        }),
        vm.dstack.len() == 0 ==> top_text(vm.dstack) == "<empty>\n"@,
        vm.dstack.len() > 0 ==> top_text(vm.dstack) == number_text(vm.dstack.last() as int)
            + "\n"@,
{
}

/// A primitive that finds fewer values on the data stack than it takes
/// meets a stack underflow, whichever primitive it is, and changes nothing;
/// with enough values the only fault left is the division by zero.
pub proof fn lemma_underflow_is_a_fault(vm: VmView, p: Primitive)
    ensures
        vm.dstack.len() < operands(p) <==> vm.fault_of(p) == Some(Fault::StackUnderflow),
        vm.fault_of(p) is Some ==> vm.apply(p) == vm,
        vm.fault_of(p) == Some(Fault::DivisionByZero) <==> p is Div && vm.dstack.len() >= 2
            && vm.dstack.last() == 0,
        vm.fault_of(p) is None || vm.fault_of(p) == Some(Fault::StackUnderflow) || vm.fault_of(p)
            == Some(Fault::DivisionByZero),
        p is Pop && vm.dstack.len() > 0 ==> vm.apply(p) == (VmView {
            dstack: vm.dstack.drop_last(),
            ..vm
        }),
{
}

/// No fault touches the data stack or the dictionary.
pub proof fn lemma_fault_keeps_stack(s: InterpView, f: Fault)
    ensures
        s.fail(f).vm.dstack == s.vm.dstack,
        s.fail(f).vm.funcs == s.vm.funcs,
        s.fail(f).vm.out == s.vm.out + f.text(),
{
}

/// A definition under a name that is taken is aborted: the mode is execute,
/// nothing is under definition, the diagnostic is written. With no earlier
/// definition open, the dictionary is untouched, so the name still means what
/// it meant.
pub proof fn lemma_duplicate_definition(s: InterpView, name: Seq<char>)
    requires
        lookup(s.vm.funcs, name) is Some,
    ensures
        s.named(name).vm.mode is Execute,
        s.named(name).def_id is None,
        s.named(name).vm.out == s.vm.out + already_defined_text(name),
        s.named(name).vm.funcs.len() == s.vm.funcs.len(),
        s.def_target() is None ==> s.named(name).vm.funcs == s.vm.funcs,
{
}

/// A definition under a free name adds one function without code at the
/// end of the dictionary; every name that was bound stays bound to the same
/// function, and the new name is bound to the new one.
pub proof fn lemma_new_definition(s: InterpView, name: Seq<char>, other: Seq<char>)
    requires
        lookup(s.vm.funcs, name) is None,
    ensures
        s.named(name).vm.funcs == s.vm.funcs.push(FunctionView::stub(name)),
        s.named(name).def_id == Some(s.vm.funcs.len() as usize),
        lookup(s.named(name).vm.funcs, name) == Some(s.vm.funcs.len() as int),
        lookup(s.vm.funcs, other) is Some ==> lookup(s.named(name).vm.funcs, other) == lookup(
            s.vm.funcs,
            other,
        ),
{
    lemma_lookup_push(s.vm.funcs, FunctionView::stub(name), name);
    lemma_lookup_push(s.vm.funcs, FunctionView::stub(name), other);
}

/// Whether the running function is the top-level loop and nothing is waiting.
pub open spec fn at_top_level(s: InterpView) -> bool {
    &&& s.tasks.len() == 0
    &&& s.vm.fc < s.vm.funcs.len()
    &&& s.vm.funcs[s.vm.fc as int].code == bootstrap_code()
}

/// The top-level loop repeats. Before its first instruction, one step starts
/// a prompt cycle. After a prompt cycle has ended, the jump leads back and
/// the second step starts the next cycle, in the state the first one started
/// in. A machine that was halted takes no step.
pub proof fn lemma_top_level_repeats(s: InterpView)
    requires
        at_top_level(s),
    ensures
        s.vm.running && s.vm.pc == -1 ==> s.step() == (
            s.with_vm(VmView { pc: 0, ..s.vm }).prompted(),
            Status::Running,
        ),
        s.vm.running && s.vm.pc == 0 ==> s.run(2) == (s.prompted(), Status::Running),
        !s.vm.running ==> s.step() == (s, Status::Halted),
{
    let code = bootstrap_code();
    assert(code.len() == 3 && code[0] == OpCode::Prompt.byte() && code[1] == OpCode::Jump.byte()
        && code[2] == -2);
    if s.vm.running && s.vm.pc == 0 {
        let jumped = s.with_vm(VmView { pc: (-1) as isize, ..s.vm });
        assert(s.vm.fetch().0.pc == 1);
        assert(s.vm.fetch().0.fetch().0.pc == 2);
        assert(s.step() == (jumped, Status::Running));
        assert(jumped.step() == (s.prompted(), Status::Running));
        assert(s.run(2) == jumped.run(1));
        assert(jumped.run(1) == jumped.step().0.run(0));
    }
}

/// The halt primitive stops the machine whatever its state: once nothing is
/// waiting any more, no further step is taken.
pub proof fn lemma_exit_halts(s: InterpView)
    ensures
        s.vm.fault_of(Primitive::Exit) is None,
        s.vm.apply(Primitive::Exit) == (VmView { running: false, ..s.vm }),
        s.tasks.len() == 0 ==> s.with_vm(s.vm.apply(Primitive::Exit)).step() == (
            s.with_vm(s.vm.apply(Primitive::Exit)),
            Status::Halted,
        ),
{
}

/// A prompt cycle that meets the end-of-line mark ends and leaves the
/// machine where it was, so that at top level the loop goes on.
pub proof fn lemma_prompt_cycle_ends(s: InterpView)
    requires
        s.tasks.len() > 0,
        s.tasks.last() is Prompt,
        s.input.len() > 0,
        s.input[0].len() == 0,
    ensures
        s.step() == (
            InterpView { input: s.input.drop_first(), tasks: s.tasks.drop_last(), ..s },
            Status::Running,
        ),
{
}

/// A compiled literal is the low byte of its value, whatever the value: the
/// bytes `PushNum`, `wrap8(v)` are appended to the function under
/// definition and nothing else changes. A value within the signed 8-bit
/// range is kept as it is.
pub proof fn lemma_literal_compiles(s: InterpView, v: i32)
    requires
        s.def_target() is Some,
    ensures
        s.compiled_literal(v).vm.funcs == s.vm.funcs.update(
            s.def_target()->0,
            s.vm.funcs[s.def_target()->0].extended(
                seq![OpCode::PushNum.byte(), wrap8(v as int)],
            ),
        ),
        s.compiled_literal(v) == s.with_vm(
            VmView { funcs: s.compiled_literal(v).vm.funcs, ..s.vm },
        ),
        i8::MIN <= v <= i8::MAX ==> wrap8(v as int) == v,
{
    lemma_wrap_in_range(v as int);
}

/// Executing a compiled literal pushes its operand, sign-extended, and moves
/// past the two bytes.
pub proof fn lemma_literal_executes(s: InterpView, operand: i8)
    requires
        s.tasks.len() == 0,
        s.vm.running,
        s.vm.fc < s.vm.funcs.len(),
        -1 <= s.vm.pc,
        s.vm.pc + 2 < s.vm.funcs[s.vm.fc as int].code.len(),
        s.vm.funcs[s.vm.fc as int].code[s.vm.pc + 1] == OpCode::PushNum.byte(),
        s.vm.funcs[s.vm.fc as int].code[s.vm.pc + 2] == operand,
        s.vm.pc + 2 <= isize::MAX,
    ensures
        s.step() == (
            s.with_vm(
                VmView {
                    dstack: s.vm.dstack.push(operand as i32),
                    pc: (s.vm.pc + 2) as isize,
                    ..s.vm
                },
            ),
            Status::Running,
        ),
{
    let fetched = s.vm.fetch().0;
    assert(fetched.pc == s.vm.pc + 1);
    assert(fetched.fetch().0.pc == s.vm.pc + 2);
}

/// A compiled call is the bytes `Call`, `id`, appended to the function under
/// definition; nothing else changes.
pub proof fn lemma_call_compiles(s: InterpView, id: int)
    requires
        s.def_target() is Some,
        0 <= id <= i8::MAX,
    ensures
        s.compiled_call(id) == s.with_vm(
            VmView {
                funcs: s.vm.funcs.update(
                    s.def_target()->0,
                    s.vm.funcs[s.def_target()->0].extended(seq![OpCode::Call.byte(), id as i8]),
                ),
                ..s.vm
            },
        ),
{
}

/// Executing a compiled call does what calling the function from execute
/// mode does, from the position behind the two bytes: native functions and
/// functions with code are called the same way from a word and from code.
pub proof fn lemma_call_executes(s: InterpView, id: i8)
    requires
        s.tasks.len() == 0,
        s.vm.running,
        s.vm.fc < s.vm.funcs.len(),
        -1 <= s.vm.pc,
        s.vm.pc + 2 < s.vm.funcs[s.vm.fc as int].code.len(),
        s.vm.funcs[s.vm.fc as int].code[s.vm.pc + 1] == OpCode::Call.byte(),
        s.vm.funcs[s.vm.fc as int].code[s.vm.pc + 2] == id,
        s.vm.pc + 2 <= isize::MAX,
    ensures
        s.step() == (
            s.with_vm(VmView { pc: (s.vm.pc + 2) as isize, ..s.vm }).invoked(id as int),
            Status::Running,
        ),
{
    let fetched = s.vm.fetch().0;
    assert(fetched.pc == s.vm.pc + 1);
    assert(fetched.fetch().0.pc == s.vm.pc + 2);
}

/// Whether `after` is `before` with, at most, more code at its end; code
/// is only ever added to a function without callback.
pub open spec fn extends(before: FunctionView, after: FunctionView) -> bool {
    &&& after.name == before.name
    &&& after.callback == before.callback
    &&& after.immediate == before.immediate
    &&& before.code.len() <= after.code.len()
    &&& after.code.subrange(0, before.code.len() as int) == before.code
    &&& before.code.len() < after.code.len() ==> before.callback is Null
}

/// Whether a dictionary came from another by appending at most one function
/// without code or callback and by adding code to functions.
pub open spec fn grows(before: Seq<FunctionView>, after: Seq<FunctionView>) -> bool {
    &&& before.len() <= after.len() <= before.len() + 1
    &&& forall|i: int| 0 <= i < before.len() ==> extends(before[i], #[trigger] after[i])
    &&& forall|i: int|
        before.len() <= i < after.len() ==> (#[trigger] after[i]).code.len() == 0
            && after[i].callback is Null
}

proof fn lemma_grows_by_code(funcs: Seq<FunctionView>, id: int, bytes: Seq<i8>)
    requires
        0 <= id < funcs.len(),
        funcs[id].callback is Null,
    ensures
        grows(funcs, funcs.update(id, funcs[id].extended(bytes))),
{
    let after = funcs.update(id, funcs[id].extended(bytes));
    assert forall|i: int| 0 <= i < funcs.len() implies extends(funcs[i], #[trigger] after[i]) by {
        assert(funcs[i].code.subrange(0, funcs[i].code.len() as int) =~= funcs[i].code);
        if i == id {
            assert((funcs[i].code + bytes).subrange(0, funcs[i].code.len() as int)
                =~= funcs[i].code);
        }
    }
}

proof fn lemma_grows_not(funcs: Seq<FunctionView>)
    ensures
        grows(funcs, funcs),
{
    assert forall|i: int| 0 <= i < funcs.len() implies extends(funcs[i], #[trigger] funcs[i]) by {
        assert(funcs[i].code.subrange(0, funcs[i].code.len() as int) =~= funcs[i].code);
    }
}

proof fn lemma_compiled_grows(s: InterpView, bytes: Seq<i8>)
    ensures
        grows(s.vm.funcs, s.compiled(bytes).vm.funcs),
        grows(s.vm.funcs, s.end_define().vm.funcs),
{
    lemma_grows_not(s.vm.funcs);
    match s.def_target() {
        Some(id) => {
            lemma_grows_by_code(s.vm.funcs, id, bytes);
            lemma_grows_by_code(s.vm.funcs, id, seq![OpCode::Return.byte()]);
        },
        None => {},
    }
}

proof fn lemma_named_grows(s: InterpView, name: Seq<char>)
    ensures
        grows(s.vm.funcs, s.named(name).vm.funcs),
{
    lemma_compiled_grows(s, Seq::empty());
    let after = s.named(name).vm.funcs;
    if lookup(s.vm.funcs, name) is None {
        assert forall|i: int| 0 <= i < s.vm.funcs.len() implies extends(
            s.vm.funcs[i],
            #[trigger] after[i],
        ) by {
            assert(s.vm.funcs[i].code.subrange(0, s.vm.funcs[i].code.len() as int)
                =~= s.vm.funcs[i].code);
        }
    }
}

proof fn lemma_settled_grows(s: InterpView, outcome: Result<Option<Directive>, Fault>)
    ensures
        grows(s.vm.funcs, s.settled(outcome).vm.funcs),
{
    lemma_grows_not(s.vm.funcs);
    lemma_compiled_grows(s, Seq::empty());
}

proof fn lemma_dispatch_grows(s: InterpView, word: Seq<char>)
    ensures
        grows(s.vm.funcs, s.dispatch(word).0.vm.funcs),
{
    lemma_grows_not(s.vm.funcs);
    match lookup(s.vm.funcs, word) {
        Some(id) => {
            let f = s.vm.funcs[id];
            if f.immediate {
                lemma_compiled_grows(s, Seq::empty());
            } else if s.vm.mode is Execute {
                lemma_settled_grows(s.with_vm(s.vm.called(id)), s.vm.call_outcome(id));
            } else {
                lemma_compiled_grows(s, seq![OpCode::Call.byte(), id as i8]);
            }
        },
        None => match parse_int(word) {
            None => {},
            Some(v) => {
                lemma_compiled_grows(s, seq![OpCode::PushNum.byte(), wrap8(v as int)]);
            },
        },
    }
}

/// The dictionary is append-only. A step appends at most one function, which
/// has neither code nor callback; it removes none; it changes no function's
/// name, callback or flag; and it only ever adds code at the end of a
/// function that has no callback. So every id keeps naming the same function.
pub proof fn lemma_step_grows_dictionary(s: InterpView)
    ensures
        grows(s.vm.funcs, s.step().0.vm.funcs),
{
    lemma_grows_not(s.vm.funcs);
    if s.tasks.len() == 0 {
        if s.vm.running {
            let (vm, byte) = s.vm.fetch();
            let fetched = s.with_vm(vm);
            match byte {
                None => {},
                Some(b) => match OpCode::decode(b) {
                    Some(OpCode::Call) => {
                        lemma_settled_grows(fetched.with_vm(vm.do_call().0), vm.do_call().1);
                    },
                    _ => {},
                },
            }
        }
    } else if s.input.len() > 0 {
        let word = s.input[0];
        let taken = InterpView { input: s.input.drop_first(), ..s };
        match s.tasks.last() {
            Task::Prompt => {
                lemma_dispatch_grows(taken, word);
            },
            Task::Read => {
                lemma_dispatch_grows(taken.finished(), word);
            },
            Task::Name => {
                lemma_named_grows(taken.finished(), word);
            },
        }
    }
}

/// No step makes a function both native and interpreted.
pub proof fn lemma_step_keeps_functions_wf(s: InterpView)
    requires
        all_wf(s.vm.funcs),
    ensures
        all_wf(s.step().0.vm.funcs),
{
    lemma_step_grows_dictionary(s);
    let after = s.step().0.vm.funcs;
    assert forall|i: int| 0 <= i < after.len() implies (#[trigger] after[i]).wf() by {
        if i < s.vm.funcs.len() {
            assert(extends(s.vm.funcs[i], after[i]));
            assert(s.vm.funcs[i].wf());
            if s.vm.funcs[i].code.len() == after[i].code.len() {
                assert(after[i].code =~= after[i].code.subrange(
                    0,
                    s.vm.funcs[i].code.len() as int,
                ));
            }
        }
    }
}

/// The dictionary that the set-up builds binds the four operators to the
/// machine's arithmetic and has no function named like a number, so that
/// every number and operator is an arithmetic word under it.
pub proof fn lemma_fresh_dictionary(word: Seq<char>)
    ensures
        arithmetic_dictionary(primitives() + driver_words()),
        parse_int(word) is Some ==> lookup(primitives() + driver_words(), word) is None,
        parse_int(word) is Some || operator(word) is Some ==> token(
            primitives() + driver_words(),
            word,
        ) is Some,
{
    let funcs = primitives() + driver_words();
    reveal_strlit(".");
    reveal_strlit("..");
    reveal_strlit("+");
    reveal_strlit("-");
    reveal_strlit("*");
    reveal_strlit("/");
    reveal_strlit("dup");
    reveal_strlit("pop");
    reveal_strlit("clr");
    reveal_strlit("swp");
    reveal_strlit("exit");
    reveal_strlit(" ");
    reveal_strlit(":");
    reveal_strlit(";");
    assert(funcs.len() == 14);
    lemma_lookup_first(funcs, "+"@);
    lemma_lookup_first(funcs, "-"@);
    lemma_lookup_first(funcs, "*"@);
    lemma_lookup_first(funcs, "/"@);
    assert(funcs[2].name == "+"@);
    assert(funcs[3].name == "-"@);
    assert(funcs[4].name == "*"@);
    assert(funcs[5].name == "/"@);
    assert(funcs[0].name == "."@ && funcs[1].name == ".."@);
    assert(funcs[0].name[0] == '.' && funcs[1].name[0] == '.');
    assert(funcs[2].name[0] == '+' && funcs[3].name[0] == '-');
    assert(funcs[4].name[0] == '*' && funcs[5].name[0] == '/');
    assert(lookup(funcs, "+"@) == Some(2int));
    assert(lookup(funcs, "-"@) == Some(3int));
    assert(lookup(funcs, "*"@) == Some(4int));
    assert(lookup(funcs, "/"@) == Some(5int));
    if parse_int(word) is Some {
        lemma_lookup_first(funcs, word);
        let body = unsigned_part(word);
        assert(body.len() > 0 && all_digits(body));
        assert(digit_value(body[0]) is Some);
        assert(body.len() > 1 ==> digit_value(body[1]) is Some);
        if lookup(funcs, word) is Some {
            let id = lookup(funcs, word)->0;
            assert(funcs[id].name == word);
            assert(false);
        }
    }
}

/// The set-up of a new interpreter leaves it well-formed.
pub proof fn lemma_set_up_wf(s: InterpView)
    requires
        s.vm == VmView::initial(),
        s.def_id is None,
    ensures
        s.set_up().wf(),
{
    let funcs = s.set_up().vm.funcs;
    assert(funcs =~= primitives() + driver_words());
    assert(funcs.len() == 14);
    assert forall|i: int| 0 <= i < funcs.len() implies (#[trigger] funcs[i]).wf() by {
        if i < 11 {
            assert(funcs[i] == primitives()[i]);
        } else {
            assert(funcs[i] == driver_words()[i - 11]);
        }
    }
}

proof fn lemma_grown_keeps_ids(s: InterpView, after: InterpView)
    requires
        s.wf(),
        after.vm.funcs.len() <= usize::MAX,
        grows(s.vm.funcs, after.vm.funcs),
        all_wf(after.vm.funcs),
        after.vm.rstack == s.vm.rstack || (after.vm.rstack.len() > 0
            && after.vm.rstack.drop_last() == s.vm.rstack && after.vm.rstack.last().id
            == s.vm.fc) || (s.vm.rstack.len() > 0 && after.vm.rstack == s.vm.rstack.drop_last()),
        after.vm.fc < s.vm.funcs.len(),
        after.def_id == s.def_id || after.def_id is None || (after.def_id == Some(
            s.vm.funcs.len() as usize,
        ) && after.vm.funcs.len() == s.vm.funcs.len() + 1),
    ensures
        after.wf(),
{
    assert forall|k: int| 0 <= k < after.vm.rstack.len() implies (#[trigger] after.vm.rstack[k]).id
        < after.vm.funcs.len() by {
        if after.vm.rstack == s.vm.rstack {
        } else if after.vm.rstack.len() > 0 && after.vm.rstack.drop_last() == s.vm.rstack {
            if k < s.vm.rstack.len() {
                assert(after.vm.rstack[k] == s.vm.rstack[k]);
            }
        } else {
            assert(after.vm.rstack[k] == s.vm.rstack[k]);
        }
    }
    if after.def_id is Some {
        let id = after.def_id->0;
        if after.def_id == s.def_id {
            assert(extends(s.vm.funcs[id as int], after.vm.funcs[id as int]));
        }
    }
}

/// Every step keeps the interpreter well-formed, as long as the dictionary
/// stays within what an id can name.
pub proof fn lemma_step_keeps_wf(s: InterpView)
    requires
        s.wf(),
        s.step().0.vm.funcs.len() <= usize::MAX,
    ensures
        s.step().0.wf(),
{
    let after = s.step().0;
    lemma_step_grows_dictionary(s);
    lemma_step_keeps_functions_wf(s);
    lemma_step_moves_little(s);
    lemma_grown_keeps_ids(s, after);
}

/// What a step can do to the ids that the interpreter holds: the return
/// stack gains the running function, loses its last frame, or stays; the
/// running function is one that was there before the step; the function
/// under definition stays, is closed, or is the one that the step appended.
proof fn lemma_step_moves_little(s: InterpView)
    requires
        s.wf(),
    ensures
        ({
            let after = s.step().0;
            &&& after.vm.rstack == s.vm.rstack || (after.vm.rstack.len() > 0
                && after.vm.rstack.drop_last() == s.vm.rstack && after.vm.rstack.last().id
                == s.vm.fc) || (s.vm.rstack.len() > 0 && after.vm.rstack
                == s.vm.rstack.drop_last())
            &&& after.vm.fc < s.vm.funcs.len()
            &&& after.def_id == s.def_id || after.def_id is None || (after.def_id == Some(
                s.vm.funcs.len() as usize,
            ) && after.vm.funcs.len() == s.vm.funcs.len() + 1)
        }),
{
    let after = s.step().0;
    if s.tasks.len() == 0 {
        if s.vm.running {
            let (vm, byte) = s.vm.fetch();
            match byte {
                None => {},
                Some(b) => match OpCode::decode(b) {
                    Some(OpCode::Call) => {
                        let id = vm.fetch().1;
                        let entered = id is Some && 0 <= id->0 < vm.funcs.len()
                            && vm.funcs[id->0 as int].code.len() > 0;
                        if entered {
                            assert(after.vm.rstack.drop_last() =~= s.vm.rstack);
                        }
                    },
                    Some(OpCode::Return) => {
                        if s.vm.rstack.len() > 0 {
                            assert(s.vm.rstack.last().id < s.vm.funcs.len());
                        }
                    },
                    _ => {},
                },
            }
        }
    } else if s.input.len() > 0 {
        let word = s.input[0];
        let taken = InterpView { input: s.input.drop_first(), ..s };
        match s.tasks.last() {
            Task::Prompt => {
                lemma_dispatch_moves_little(taken, word);
            },
            Task::Read => {
                lemma_dispatch_moves_little(taken.finished(), word);
            },
            Task::Name => {},
        }
    }
}

proof fn lemma_dispatch_moves_little(s: InterpView, word: Seq<char>)
    requires
        s.wf(),
    ensures
        ({
            let after = s.dispatch(word).0;
            &&& after.vm.rstack == s.vm.rstack || (after.vm.rstack.len() > 0
                && after.vm.rstack.drop_last() == s.vm.rstack && after.vm.rstack.last().id
                == s.vm.fc)
            &&& after.vm.fc < s.vm.funcs.len()
            &&& after.def_id == s.def_id || after.def_id is None
            &&& after.tasks == s.tasks || after.tasks == s.tasks.push(Task::Name)
            &&& !s.dispatch(word).1 ==> after.tasks == s.tasks
        }),
{
    let after = s.dispatch(word).0;
    match lookup(s.vm.funcs, word) {
        Some(id) => {
            lemma_lookup_first(s.vm.funcs, word);
            let f = s.vm.funcs[id];
            if !f.immediate && s.vm.mode is Execute && f.code.len() > 0 {
                assert(after.vm.rstack.drop_last() =~= s.vm.rstack);
            }
        },
        None => {},
    }
}

/// Steps add up: `m + n` steps are `m` steps and then, unless one of them
/// was not taken, `n` more. So it does not matter in what portions a caller
/// asks for them.
pub proof fn lemma_run_splits(s: InterpView, m: nat, n: nat)
    ensures
        s.run(m + n) == if s.run(m).1 is Running {
            s.run(m).0.run(n)
        } else {
            s.run(m)
        },
    decreases m,
{
    if m > 0 {
        let (next, status) = s.step();
        if status is Running {
            lemma_run_splits(next, (m - 1) as nat, n);
            assert(s.run(m + n) == next.run((m + n - 1) as nat));
        }
    } else {
        assert(s.run(0).1 is Running);
    }
}

/// A step that is not taken changes nothing, and asks for a line only where
/// a task waits and no word is buffered. Once a line is handed over, the
/// next step is taken.
pub proof fn lemma_waiting(s: InterpView, line: Seq<char>)
    ensures
        !(s.step().1 is Running) ==> s.step().0 == s,
        s.step().1 is NeedLine <==> s.tasks.len() > 0 && s.input.len() == 0,
        s.step().1 is Halted <==> s.tasks.len() == 0 && !s.vm.running,
        s.step().1 is NeedLine ==> s.fed(line).step().1 is Running,
{
}

proof fn lemma_digits_round_trip(n: nat)
    ensures
        digits_text(n).len() > 0,
        all_digits(digits_text(n)),
        digits_value(digits_text(n)) == n,
    decreases n,
{
    let t = digits_text(n);
    if n < 10 {
        assert(t.drop_last() =~= Seq::<char>::empty());
        assert(digits_value(t.drop_last()) == 0);
    } else {
        lemma_digits_round_trip(n / 10);
        let shorter = digits_text(n / 10);
        assert(t.drop_last() =~= shorter);
        assert forall|i: int| 0 <= i < t.len() implies (#[trigger] digit_value(t[i])) is Some by {
            if i < shorter.len() {
                assert(t[i] == shorter[i]);
            }
        }
    }
}

/// What is written for a number reads back as that number.
pub proof fn lemma_number_round_trip(v: i32)
    ensures
        parse_int(number_text(v as int)) == Some(v),
{
    let s = number_text(v as int);
    if v < 0 {
        let digits = digits_text((-v) as nat);
        lemma_digits_round_trip((-v) as nat);
        assert(s[0] == '-');
        assert(unsigned_part(s) =~= digits);
    } else {
        lemma_digits_round_trip(v as nat);
        assert(digit_value(s[0]) is Some);
        assert(unsigned_part(s) == s);
    }
}

} // verus!
