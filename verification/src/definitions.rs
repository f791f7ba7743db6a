//! What a definition compiles to, and what the compiled code does when the
//! defined word is called.

use vstd::prelude::*;
use crate::arith::wrap8;
use crate::function::{Callback, Directive, FunctionView, Primitive, lemma_lookup_first, lookup};
use crate::interpreter::{InterpView, Status, Task};
use crate::laws::{lemma_call_executes, lemma_literal_executes, lemma_run_splits};
use crate::opcode::OpCode;
use crate::text::parse_int;
use crate::vm::{Mode, ReturnData, VmView};

verus! {

/// What one word of a body is compiled to.
pub enum Item {
    /// A call of the function with this id.
    Call(int),
    /// A literal with this value.
    Literal(i32),
}

/// What a word is compiled to under a dictionary: a call, where it names a
/// function that is not immediate and whose id fits an operand; a literal,
/// where it names no function and is a number.
pub open spec fn item(funcs: Seq<FunctionView>, word: Seq<char>) -> Option<Item> {
    match lookup(funcs, word) {
        Some(id) => if !funcs[id].immediate && id <= i8::MAX {
            Some(Item::Call(id))
        } else {
            None
        },
        None => match parse_int(word) {
            Some(v) => Some(Item::Literal(v)),
            None => None,
        },
    }
}

/// What the words of a body are compiled to, word by word.
pub open spec fn items(funcs: Seq<FunctionView>, words: Seq<Seq<char>>) -> Seq<Item> {
    Seq::new(words.len(), |i: int| item(funcs, words[i])->0)
}

/// The two bytes of an item.
pub open spec fn item_code(it: Item) -> Seq<i8> {
    match it {
        Item::Call(id) => seq![OpCode::Call.byte(), id as i8],
        Item::Literal(v) => seq![OpCode::PushNum.byte(), wrap8(v as int)],
    }
}

/// The code of a list of items.
pub open spec fn code_of(list: Seq<Item>) -> Seq<i8>
    decreases list.len(),
{
    if list.len() == 0 {
        Seq::empty()
    } else {
        item_code(list[0]) + code_of(list.drop_first())
    }
}

/// An item that runs in place: a literal, or a call of a native function
/// that neither halts the machine nor belongs to the interpreter.
pub open spec fn in_place(funcs: Seq<FunctionView>, it: Item) -> bool {
    match it {
        Item::Call(id) => {
            &&& 0 <= id < funcs.len()
            &&& id <= i8::MAX
            &&& funcs[id].code.len() == 0
            &&& !(funcs[id].callback is Interpreter)
            &&& funcs[id].callback != Callback::VM(Primitive::Exit)
        },
        Item::Literal(_) => true,
    }
}

/// What an item does when it runs: the call is made, the literal's operand
/// is pushed.
pub open spec fn run_item(s: InterpView, it: Item) -> InterpView {
    match it {
        Item::Call(id) => s.invoked(id),
        Item::Literal(v) => s.with_vm(s.vm.pushed(wrap8(v as int) as i32)),
    }
}

/// What a list of items does when it runs, first to last.
pub open spec fn run_items(s: InterpView, list: Seq<Item>) -> InterpView
    decreases list.len(),
{
    if list.len() == 0 {
        s
    } else {
        run_items(run_item(s, list[0]), list.drop_first())
    }
}

/// The state with another position: running function, program counter and
/// return stack.
pub open spec fn placed(s: InterpView, fc: usize, pc: isize, rstack: Seq<ReturnData>)
    -> InterpView {
    s.with_vm(VmView { fc, pc, rstack, ..s.vm })
}

proof fn lemma_lookup_by_names(a: Seq<FunctionView>, b: Seq<FunctionView>, name: Seq<char>)
    requires
        a.len() == b.len(),
        forall|i: int| 0 <= i < a.len() ==> (#[trigger] a[i]).name == b[i].name,
    ensures
        lookup(a, name) == lookup(b, name),
    decreases a.len(),
{
    if a.len() > 0 {
        assert(a.last().name == b.last().name);
        assert forall|i: int| 0 <= i < a.len() - 1 implies (#[trigger] a.drop_last()[i]).name
            == b.drop_last()[i].name by {
            assert(a.drop_last()[i] == a[i]);
        }
        lemma_lookup_by_names(a.drop_last(), b.drop_last(), name);
    }
}

/// Adding code to a function changes what no word is compiled to.
pub proof fn lemma_item_stable(
    funcs: Seq<FunctionView>,
    d: int,
    bytes: Seq<i8>,
    word: Seq<char>,
)
    requires
        0 <= d < funcs.len(),
    ensures
        item(funcs.update(d, funcs[d].extended(bytes)), word) == item(funcs, word),
{
    let after = funcs.update(d, funcs[d].extended(bytes));
    lemma_lookup_by_names(funcs, after, word);
    lemma_lookup_first(funcs, word);
}

/// In compile mode, a prompt cycle appends to the function under definition
/// the code of the words it meets, word by word, and changes nothing else.
/// The words are such as can be compiled: names of functions that are not
/// immediate and whose id fits an operand, and numbers.
pub proof fn lemma_body_compiles(s: InterpView, words: Seq<Seq<char>>, rest: Seq<Seq<char>>)
    requires
        s.vm.mode is Compile,
        s.def_target() is Some,
        s.tasks.len() > 0,
        s.tasks.last() is Prompt,
        s.input == words + rest,
        forall|i: int|
            0 <= i < words.len() ==> (#[trigger] words[i]).len() > 0 && item(
                s.vm.funcs,
                words[i],
            ) is Some,
    ensures
        s.run(words.len()) == (
            InterpView {
                vm: VmView {
                    funcs: s.vm.funcs.update(
                        s.def_target()->0,
                        s.vm.funcs[s.def_target()->0].extended(code_of(items(s.vm.funcs, words))),
                    ),
                    ..s.vm
                },
                input: rest,
                ..s
            },
            Status::Running,
        ),
    decreases words.len(),
{
    let d = s.def_target()->0;
    let funcs = s.vm.funcs;
    if words.len() == 0 {
        assert(words + rest =~= rest);
        assert(code_of(items(funcs, words)) =~= Seq::<i8>::empty());
        assert(funcs[d].code + Seq::<i8>::empty() =~= funcs[d].code);
        assert(funcs.update(d, funcs[d].extended(Seq::empty())) =~= funcs);
    } else {
        let word = words[0];
        let it = item(funcs, word)->0;
        let tail = words.drop_first();
        assert(s.input[0] == word);
        assert(s.input.drop_first() =~= tail + rest);
        lemma_lookup_first(funcs, word);
        let funcs1 = funcs.update(d, funcs[d].extended(item_code(it)));
        let next = InterpView { vm: VmView { funcs: funcs1, ..s.vm }, input: tail + rest, ..s };
        assert(s.step() == (next, Status::Running));
        assert forall|i: int| 0 <= i < tail.len() implies (#[trigger] tail[i]).len() > 0 && item(
            funcs1,
            tail[i],
        ) is Some by {
            assert(tail[i] == words[i + 1]);
            lemma_item_stable(funcs, d, item_code(it), tail[i]);
        }
        lemma_body_compiles(next, tail, rest);
        assert(items(funcs1, tail) =~= items(funcs, words).drop_first()) by {
            assert forall|i: int| 0 <= i < tail.len() implies items(funcs1, tail)[i] == items(
                funcs,
                words,
            ).drop_first()[i] by {
                assert(tail[i] == words[i + 1]);
                lemma_item_stable(funcs, d, item_code(it), tail[i]);
            }
        }
        assert(items(funcs, words)[0] == it);
        let whole = code_of(items(funcs, words));
        let later = code_of(items(funcs1, tail));
        assert(whole == item_code(it) + later);
        assert((funcs[d].code + item_code(it)) + later =~= funcs[d].code + whole);
        assert(funcs1.update(d, funcs1[d].extended(later)) =~= funcs.update(
            d,
            funcs[d].extended(whole),
        ));
        assert(s.run(words.len()) == next.run((words.len() - 1) as nat));
    }
}

/// The closing word ends the definition whatever the mode: the function
/// under definition gets `Return` as its last byte, nothing is under
/// definition any more, the mode is execute, and the prompt cycle goes on.
/// With nothing under definition, only the mode is reset.
pub proof fn lemma_definition_closes(s: InterpView, word: Seq<char>)
    requires
        lookup(s.vm.funcs, word) is Some,
        s.vm.funcs[lookup(s.vm.funcs, word)->0].immediate,
        s.vm.funcs[lookup(s.vm.funcs, word)->0].callback == Callback::Interpreter(
            Directive::EndDefine,
        ),
    ensures
        s.dispatch(word) == (s.end_define(), true),
        s.end_define().vm.mode is Execute,
        s.end_define().def_id is None,
        s.def_target() is Some ==> s.end_define().vm.funcs == s.vm.funcs.update(
            s.def_target()->0,
            s.vm.funcs[s.def_target()->0].extended(seq![OpCode::Return.byte()]),
        ),
        s.def_target() is None ==> s.end_define() == (InterpView {
            vm: VmView { mode: Mode::Execute, ..s.vm },
            def_id: None,
            ..s
        }),
{
}

/// An item that runs in place leaves the position, the dictionary, the mode
/// and the waiting tasks alone, does not halt the machine, and does the same
/// from every position.
pub proof fn lemma_run_item_in_place(
    s: InterpView,
    it: Item,
    fc: usize,
    pc: isize,
    rstack: Seq<ReturnData>,
)
    requires
        in_place(s.vm.funcs, it),
    ensures
        run_item(s, it).vm.funcs == s.vm.funcs,
        run_item(s, it).vm.fc == s.vm.fc,
        run_item(s, it).vm.pc == s.vm.pc,
        run_item(s, it).vm.rstack == s.vm.rstack,
        run_item(s, it).vm.mode == s.vm.mode,
        run_item(s, it).vm.running == s.vm.running,
        run_item(s, it).tasks == s.tasks,
        run_item(s, it).def_id == s.def_id,
        run_item(placed(s, fc, pc, rstack), it) == placed(run_item(s, it), fc, pc, rstack),
{
}

/// Items that run in place do so from every position.
pub proof fn lemma_run_items_in_place(
    s: InterpView,
    list: Seq<Item>,
    fc: usize,
    pc: isize,
    rstack: Seq<ReturnData>,
)
    requires
        forall|i: int| 0 <= i < list.len() ==> in_place(s.vm.funcs, #[trigger] list[i]),
    ensures
        run_items(s, list).vm.funcs == s.vm.funcs,
        run_items(s, list).vm.fc == s.vm.fc,
        run_items(s, list).vm.pc == s.vm.pc,
        run_items(s, list).vm.rstack == s.vm.rstack,
        run_items(s, list).vm.mode == s.vm.mode,
        run_items(s, list).vm.running == s.vm.running,
        run_items(s, list).tasks == s.tasks,
        run_items(s, list).def_id == s.def_id,
        run_items(placed(s, fc, pc, rstack), list) == placed(run_items(s, list), fc, pc, rstack),
    decreases list.len(),
{
    if list.len() > 0 {
        let first = list[0];
        let tail = list.drop_first();
        lemma_run_item_in_place(s, first, fc, pc, rstack);
        assert forall|i: int| 0 <= i < tail.len() implies in_place(
            run_item(s, first).vm.funcs,
            #[trigger] tail[i],
        ) by {
            assert(tail[i] == list[i + 1]);
        }
        lemma_run_items_in_place(run_item(s, first), tail, fc, pc, rstack);
    }
}

/// The code of items that run in place, executed instruction by
/// instruction, does what the items do, one step each, and leaves the
/// program counter behind the code.
pub proof fn lemma_code_runs(s: InterpView, list: Seq<Item>)
    requires
        s.tasks.len() == 0,
        s.vm.running,
        s.vm.fc < s.vm.funcs.len(),
        -1 <= s.vm.pc,
        s.vm.pc + 1 + 2 * list.len() <= s.vm.funcs[s.vm.fc as int].code.len(),
        s.vm.pc + 2 * list.len() <= isize::MAX,
        s.vm.funcs[s.vm.fc as int].code.subrange(s.vm.pc + 1, s.vm.pc + 1 + 2 * list.len())
            == code_of(list),
        forall|i: int| 0 <= i < list.len() ==> in_place(s.vm.funcs, #[trigger] list[i]),
    ensures
        s.run(list.len()) == (
            placed(
                run_items(s, list),
                s.vm.fc,
                (s.vm.pc + 2 * list.len()) as isize,
                s.vm.rstack,
            ),
            Status::Running,
        ),
    decreases list.len(),
{
    let code = s.vm.funcs[s.vm.fc as int].code;
    let n = list.len() as int;
    if n == 0 {
        assert(placed(s, s.vm.fc, s.vm.pc, s.vm.rstack) == s);
    } else {
        let first = list[0];
        let tail = list.drop_first();
        let pc = s.vm.pc as int;
        let part = code.subrange(pc + 1, pc + 1 + 2 * n);
        assert(part == item_code(first) + code_of(tail));
        assert(item_code(first).len() == 2);
        assert(code[pc + 1] == part[0]);
        assert(code[pc + 2] == part[1]);
        assert(part[0] == item_code(first)[0]);
        assert(part[1] == item_code(first)[1]);
        let moved = placed(s, s.vm.fc, (pc + 2) as isize, s.vm.rstack);
        match first {
            Item::Call(id) => {
                lemma_call_executes(s, id as i8);
            },
            Item::Literal(v) => {
                lemma_literal_executes(s, wrap8(v as int));
            },
        }
        lemma_run_item_in_place(s, first, s.vm.fc, (pc + 2) as isize, s.vm.rstack);
        let next = run_item(moved, first);
        assert(s.step() == (next, Status::Running));
        assert(code.subrange(pc + 3, pc + 3 + 2 * (n - 1)) =~= code_of(tail)) by {
            assert(code.subrange(pc + 3, pc + 3 + 2 * (n - 1)) =~= part.subrange(2, 2 * n));
            assert(part.subrange(2, 2 * n) =~= code_of(tail));
        }
        assert forall|i: int| 0 <= i < tail.len() implies in_place(
            next.vm.funcs,
            #[trigger] tail[i],
        ) by {
            assert(tail[i] == list[i + 1]);
        }
        lemma_code_runs(next, tail);
        lemma_run_items_in_place(
            run_item(s, first),
            tail,
            s.vm.fc,
            (pc + 2) as isize,
            s.vm.rstack,
        );
        assert(s.run(list.len()) == next.run((n - 1) as nat));
    }
}

/// Calling a defined word does what its body does. The word is met by the
/// top-level prompt cycle in execute mode; its code is the code of items
/// that run in place, then `Return`. One step enters the function, one step runs each
/// item, one step returns: the items have run, the machine is back where it
/// was, and the prompt cycle has ended.
pub proof fn lemma_defined_word_runs(
    s: InterpView,
    name: Seq<char>,
    list: Seq<Item>,
    rest: Seq<Seq<char>>,
)
    requires
        s.tasks == seq![Task::Prompt],
        s.vm.mode is Execute,
        s.vm.running,
        s.input == seq![name] + rest,
        name.len() > 0,
        lookup(s.vm.funcs, name) is Some,
        !s.vm.funcs[lookup(s.vm.funcs, name)->0].immediate,
        s.vm.funcs[lookup(s.vm.funcs, name)->0].code == code_of(list).push(
            OpCode::Return.byte(),
        ),
        s.vm.funcs.len() <= usize::MAX,
        2 * list.len() <= isize::MAX,
        forall|i: int| 0 <= i < list.len() ==> in_place(s.vm.funcs, #[trigger] list[i]),
    ensures
        s.run(list.len() + 2) == (
            run_items(InterpView { input: rest, tasks: Seq::empty(), ..s }, list),
            Status::Running,
        ),
{
    let d = lookup(s.vm.funcs, name)->0;
    let n = list.len() as int;
    lemma_lookup_first(s.vm.funcs, name);
    lemma_code_len(list);
    let code = s.vm.funcs[d].code;
    let base = InterpView { input: rest, tasks: Seq::empty(), ..s };
    assert(s.tasks.drop_last() =~= Seq::<Task>::empty());
    let frames = s.vm.rstack.push(ReturnData { id: s.vm.fc, pc: s.vm.pc });
    let entered = placed(base, d as usize, (-1) as isize, frames);
    assert(s.input[0] == name);
    assert(s.input.drop_first() =~= rest);
    assert(s.step() == (entered, Status::Running));
    assert(code.subrange(0, 2 * n) =~= code_of(list));
    lemma_code_runs(entered, list);
    lemma_run_items_in_place(base, list, d as usize, (-1) as isize, frames);
    let ran = run_items(base, list);
    let at_end = placed(ran, d as usize, (2 * n - 1) as isize, frames);
    assert(entered.run(list.len()) == (at_end, Status::Running));
    assert(code[2 * n] == OpCode::Return.byte());
    assert(frames.drop_last() =~= s.vm.rstack);
    assert(at_end.step() == (ran, Status::Running));
    lemma_run_splits(s, 1, (n + 1) as nat);
    lemma_run_splits(entered, n as nat, 1);
    assert(s.run(1) == (entered, Status::Running)) by {
        assert(s.run(1) == s.step().0.run(0));
    }
    assert(at_end.run(1) == (ran, Status::Running)) by {
        assert(at_end.run(1) == at_end.step().0.run(0));
    }
}

/// The code of a list of items is two bytes for each.
pub proof fn lemma_code_len(list: Seq<Item>)
    ensures
        code_of(list).len() == 2 * list.len(),
    decreases list.len(),
{
    if list.len() > 0 {
        lemma_code_len(list.drop_first());
    }
}

/// A word typed in execute mode does what its item does, if the item runs in
/// place and a literal fits the signed 8-bit operand; the prompt cycle goes on.
pub proof fn lemma_word_typed(s: InterpView, word: Seq<char>)
    requires
        s.vm.mode is Execute,
        item(s.vm.funcs, word) is Some,
        in_place(s.vm.funcs, item(s.vm.funcs, word)->0),
        item(s.vm.funcs, word)->0 matches Item::Literal(v) ==> i8::MIN <= v <= i8::MAX,
    ensures
        s.dispatch(word) == (run_item(s, item(s.vm.funcs, word)->0), true),
{
    lemma_lookup_first(s.vm.funcs, word);
}

} // verus!
