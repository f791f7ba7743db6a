use forth_vm::function::{Callback, Directive, Function, FunctionTable, Primitive};
use forth_vm::input::TxtInput;
use forth_vm::interpreter::{Interpreter, Status, Task};
use forth_vm::vm::{Fault, Mode, ReturnData, VM};

fn machine_with(code: &[i8]) -> VM {
    let mut vm = VM::new();
    vm.setup_functions();
    let id = vm.add_func("main".to_string());
    for b in code {
        vm.ftable.get(id).unwrap().push_int(*b);
    }
    vm.fc = id;
    vm
}

fn interpreter_with(code: &[i8]) -> Interpreter {
    Interpreter::new(Box::new(machine_with(code)), Box::new(TxtInput::new()))
}

#[test]
fn function_collects_code() {
    let mut f = Function::new("f".to_string());
    assert_eq!(f.name, "f");
    assert!(f.code.is_empty());
    assert_eq!(f.callback, Callback::Null);
    assert!(!f.immediate);
    f.push_int(5);
    f.push_opcode(3, -1);
    f.push_int(2);
    assert_eq!(f.code, vec![5, 3, -1, 2]);
}

#[test]
fn table_add_returns_stable_ids() {
    let mut t = FunctionTable::new();
    assert!(t.items.is_empty());
    assert_eq!(t.add("a".to_string()), 0);
    assert_eq!(t.add("b".to_string()), 1);
    assert_eq!(t.add("a".to_string()), 2);
    assert_eq!(t.items.len(), 3);
    assert_eq!(t.items[1].name, "b");
    assert!(t.items[1].code.is_empty());
    assert_eq!(t.items[1].callback, Callback::Null);
    assert!(!t.items[1].immediate);
}

#[test]
fn table_find_gives_first_match() {
    let mut t = FunctionTable::new();
    t.add("a".to_string());
    t.add("b".to_string());
    t.add("a".to_string());
    t.get(2).unwrap().push_int(9);
    let mut id = 77;
    let found = t.find("a".to_string(), &mut id).unwrap();
    assert_eq!(id, 0);
    assert!(found.code.is_empty());
    let found = t.find("b".to_string(), &mut id).unwrap();
    assert_eq!(id, 1);
    assert_eq!(found.name, "b");
    id = 77;
    assert!(t.find("c".to_string(), &mut id).is_none());
    assert_eq!(id, 77);
    assert!(t.find("A".to_string(), &mut id).is_none());
    assert!(t.find("".to_string(), &mut id).is_none());
    assert!(FunctionTable::new().find("a".to_string(), &mut id).is_none());
}

#[test]
fn table_get_reaches_one_entry() {
    let mut t = FunctionTable::new();
    t.add("a".to_string());
    t.add("b".to_string());
    assert!(t.get(2).is_none());
    t.get(1).unwrap().push_opcode(3, 4);
    t.get(1).unwrap().immediate = true;
    assert!(t.items[0].code.is_empty());
    assert!(!t.items[0].immediate);
    assert_eq!(t.items[1].code, vec![3, 4]);
    assert!(t.items[1].immediate);
}

#[test]
fn table_set_callback_binds_native() {
    let mut t = FunctionTable::new();
    t.add("a".to_string());
    t.add("b".to_string());
    t.set_callback(1, Callback::VM(Primitive::Dup));
    assert_eq!(t.items[0].callback, Callback::Null);
    assert_eq!(t.items[1].callback, Callback::VM(Primitive::Dup));
    assert_eq!(t.items[1].name, "b");
    t.set_callback(1, Callback::Interpreter(Directive::Define));
    assert_eq!(t.items[1].callback, Callback::Interpreter(Directive::Define));
}

#[test]
fn new_machine_is_before_its_first_fetch() {
    let vm = VM::new();
    assert!(vm.ftable.items.is_empty());
    assert!(vm.dstack.is_empty());
    assert!(vm.rstack.is_empty());
    assert_eq!(vm.fc, 0);
    assert_eq!(vm.pc, -1);
    assert_eq!(vm.mode, Mode::Execute);
    assert!(vm.run_vm);
    assert_eq!(vm.out, "");
}

#[test]
fn fetch_walks_the_code() {
    let mut vm = machine_with(&[3, 100, 5]);
    assert_eq!(vm.curr_opcode(), None);
    assert_eq!(vm.get_opcode(0), Some(3));
    assert_eq!(vm.get_opcode(2), Some(5));
    assert_eq!(vm.get_opcode(3), None);
    assert_eq!(vm.next_opcode(), Some(3));
    assert_eq!(vm.pc, 0);
    assert_eq!(vm.curr_opcode(), Some(3));
    assert_eq!(vm.next_int(), Some(100));
    assert_eq!(vm.next_opcode(), Some(5));
    assert_eq!(vm.next_opcode(), None);
    assert_eq!(vm.pc, 3);
    assert_eq!(vm.curr_opcode(), None);
    vm.pc = isize::MAX;
    assert_eq!(vm.next_opcode(), None);
    assert_eq!(vm.pc, isize::MAX);
    vm.pc = -5;
    assert_eq!(vm.next_opcode(), None);
    assert_eq!(vm.pc, -4);
}

#[test]
fn fetch_without_running_function() {
    let mut vm = VM::new();
    assert_eq!(vm.get_opcode(0), None);
    assert_eq!(vm.next_opcode(), None);
    assert_eq!(vm.pc, 0);
}

#[test]
fn next_int_sign_extends() {
    let mut vm = machine_with(&[-1, -128, 127]);
    assert_eq!(vm.next_int(), Some(-1));
    assert_eq!(vm.next_int(), Some(-128));
    assert_eq!(vm.next_int(), Some(127));
    assert_eq!(vm.next_int(), None);
}

#[test]
fn push_num_pushes_operand() {
    let mut vm = machine_with(&[3, -7]);
    vm.pc = 0;
    assert_eq!(vm.push_num(), Ok(()));
    assert_eq!(vm.dstack, vec![-7]);
    assert_eq!(vm.pc, 1);
    assert_eq!(vm.push_num(), Err(Fault::CodeOverrun));
    assert_eq!(vm.dstack, vec![-7]);
}

#[test]
fn jump_is_relative_to_the_operand_less_one() {
    let mut vm = machine_with(&[2, 1, -2, 1, 3, 0, 0, 0]);
    vm.pc = 1;
    assert_eq!(vm.jump(), Ok(()));
    assert_eq!(vm.pc, -1);
    vm.pc = 3;
    assert_eq!(vm.jump(), Ok(()));
    assert_eq!(vm.pc, 6);
    vm.pc = 7;
    assert_eq!(vm.jump(), Err(Fault::CodeOverrun));
}

#[test]
fn call_of_interpreted_function_pushes_a_frame() {
    let mut vm = machine_with(&[0, 12, 5]);
    let callee = vm.add_func("callee".to_string());
    assert_eq!(callee, 12);
    vm.ftable.get(callee).unwrap().push_int(5);
    vm.pc = 0;
    assert_eq!(vm.call(), Ok(None));
    assert_eq!(vm.rstack, vec![ReturnData { id: 11, pc: 1 }]);
    assert_eq!(vm.fc, 12);
    assert_eq!(vm.pc, -1);
    vm.return_func();
    assert!(vm.rstack.is_empty());
    assert_eq!(vm.fc, 11);
    assert_eq!(vm.pc, 1);
}

#[test]
fn call_of_native_runs_it_at_once() {
    let mut vm = machine_with(&[]);
    vm.dstack.push(4);
    assert_eq!(vm.call_func(6), Ok(None));
    assert_eq!(vm.dstack, vec![4, 4]);
    assert!(vm.rstack.is_empty());
    assert_eq!(vm.fc, 11);
    assert_eq!(vm.call_func(2), Ok(None));
    assert_eq!(vm.dstack, vec![8]);
    assert_eq!(vm.call_func(2), Err(Fault::StackUnderflow));
    assert_eq!(vm.dstack, vec![8]);
}

#[test]
fn call_of_stub_does_nothing() {
    let mut vm = machine_with(&[]);
    let stub = vm.add_func("stub".to_string());
    vm.dstack.push(1);
    assert_eq!(vm.call_func(stub), Ok(None));
    assert_eq!(vm.dstack, vec![1]);
    assert!(vm.rstack.is_empty());
    assert_eq!(vm.pc, -1);
}

#[test]
fn call_of_driver_word_hands_back_the_directive() {
    let mut vm = machine_with(&[]);
    let d = vm.add_callback_any(":".to_string(), Callback::Interpreter(Directive::Define));
    let e = vm.add_callback_any(";".to_string(), Callback::Interpreter(Directive::EndDefine));
    assert_eq!(vm.call_func(d), Ok(Some(Directive::Define)));
    assert_eq!(vm.call_func(e), Ok(Some(Directive::EndDefine)));
    assert_eq!(vm.mode, Mode::Execute);
}

#[test]
fn call_of_unknown_function_is_a_fault() {
    let mut vm = machine_with(&[0, 100, 0, -1]);
    assert_eq!(vm.call_func(12), Err(Fault::UnknownFunction));
    assert_eq!(vm.call_func(usize::MAX), Err(Fault::UnknownFunction));
    vm.pc = 0;
    assert_eq!(vm.call(), Err(Fault::UnknownFunction));
    assert_eq!(vm.pc, 1);
    vm.pc = 2;
    assert_eq!(vm.call(), Err(Fault::UnknownFunction));
    assert_eq!(vm.call(), Err(Fault::CodeOverrun));
    assert!(vm.rstack.is_empty());
}

#[test]
fn return_resumes_the_innermost_caller() {
    let mut vm = machine_with(&[5]);
    vm.rstack.push(ReturnData { id: 3, pc: 7 });
    vm.rstack.push(ReturnData { id: 4, pc: -1 });
    vm.return_func();
    assert_eq!(vm.rstack, vec![ReturnData { id: 3, pc: 7 }]);
    assert_eq!(vm.fc, 4);
    assert_eq!(vm.pc, -1);
    vm.return_func();
    assert!(vm.rstack.is_empty());
    assert_eq!(vm.fc, 3);
    assert_eq!(vm.pc, 7);
}

#[test]
fn stack_primitives_by_name() {
    let mut vm = VM::new();
    assert_eq!(vm.stack_add(), Err(Fault::StackUnderflow));
    assert_eq!(vm.stack_dup(), Err(Fault::StackUnderflow));
    assert_eq!(vm.stack_pop(), Err(Fault::StackUnderflow));
    assert!(vm.dstack.is_empty());
    assert_eq!(vm.out, "");
    vm.dstack.push(10);
    assert_eq!(vm.stack_sub(), Err(Fault::StackUnderflow));
    assert_eq!(vm.stack_swp(), Err(Fault::StackUnderflow));
    vm.dstack.push(3);
    assert_eq!(vm.stack_sub(), Ok(()));
    assert_eq!(vm.dstack, vec![7]);
    assert_eq!(vm.stack_dup(), Ok(()));
    assert_eq!(vm.stack_mul(), Ok(()));
    assert_eq!(vm.dstack, vec![49]);
    vm.dstack.push(-5);
    assert_eq!(vm.stack_swp(), Ok(()));
    assert_eq!(vm.dstack, vec![-5, 49]);
    assert_eq!(vm.stack_div(), Ok(()));
    assert_eq!(vm.dstack, vec![0]);
    vm.dstack.push(0);
    assert_eq!(vm.stack_div(), Err(Fault::DivisionByZero));
    assert_eq!(vm.dstack, vec![0, 0]);
    assert_eq!(vm.stack_add(), Ok(()));
    vm.dstack.push(1);
    assert_eq!(vm.stack_pop(), Ok(()));
    assert_eq!(vm.dstack, vec![0]);
    vm.stack_clr();
    assert!(vm.dstack.is_empty());
    vm.stack_clr();
    vm.print_top_stack();
    vm.dstack.push(12);
    vm.print_top_stack();
    vm.print_stack();
    assert_eq!(vm.out, "<empty>\n12\n[ 12 ]\n");
    assert!(vm.run_vm);
    vm.exit();
    assert!(!vm.run_vm);
}

#[test]
fn run_primitive_runs_each() {
    let mut vm = VM::new();
    vm.dstack.push(6);
    vm.dstack.push(3);
    assert_eq!(vm.run_primitive(Primitive::Div), Ok(()));
    assert_eq!(vm.run_primitive(Primitive::Dup), Ok(()));
    assert_eq!(vm.run_primitive(Primitive::Add), Ok(()));
    assert_eq!(vm.run_primitive(Primitive::PrintTop), Ok(()));
    assert_eq!(vm.run_primitive(Primitive::Dup), Ok(()));
    assert_eq!(vm.run_primitive(Primitive::Sub), Ok(()));
    assert_eq!(vm.run_primitive(Primitive::PrintStack), Ok(()));
    assert_eq!(vm.run_primitive(Primitive::Pop), Ok(()));
    assert_eq!(vm.run_primitive(Primitive::Pop), Err(Fault::StackUnderflow));
    assert!(vm.dstack.is_empty());
    assert_eq!(vm.run_primitive(Primitive::Mul), Err(Fault::StackUnderflow));
    assert_eq!(vm.run_primitive(Primitive::Swp), Err(Fault::StackUnderflow));
    assert_eq!(vm.run_primitive(Primitive::Clr), Ok(()));
    assert_eq!(vm.run_primitive(Primitive::Exit), Ok(()));
    assert_eq!(vm.out, "4\n[ 0 ]\n");
    assert!(!vm.run_vm);
}

#[test]
fn find_and_add_through_the_machine() {
    let mut vm = VM::new();
    vm.setup_functions();
    let mut id = 0;
    assert_eq!(vm.find_func("swp".to_string(), &mut id).unwrap().callback,
        Callback::VM(Primitive::Swp));
    assert_eq!(id, 9);
    assert!(vm.find_func("nope".to_string(), &mut id).is_none());
    assert_eq!(vm.add_func("nope".to_string()), 11);
    assert!(vm.find_func("nope".to_string(), &mut id).is_some());
    assert_eq!(id, 11);
    assert_eq!(vm.add_callback_vm("bye".to_string(), Primitive::Exit), 12);
    assert_eq!(vm.ftable.items[12].callback, Callback::VM(Primitive::Exit));
    assert!(vm.ftable.items[12].code.is_empty());
}

#[test]
fn fault_messages_and_severity() {
    let all = [
        (Fault::StackUnderflow, "Error: stack underflow", false),
        (Fault::DivisionByZero, "Error: division by zero", false),
        (Fault::UnknownFunction, "Error: call of an unknown function", false),
        (Fault::ReturnUnderflow, "Error: return without a caller", true),
        (Fault::CodeOverrun, "Error: program counter outside the code", true),
        (Fault::NoDefinition, "Error: no definition in progress", false),
        (Fault::OperandRange, "Error: function id does not fit an operand", false),
    ];
    for (fault, text, fatal) in all {
        assert_eq!(fault.message(), text);
        assert_eq!(fault.is_fatal(), fatal);
    }
}

#[test]
fn invalid_opcode_is_reported_and_skipped() {
    let mut it = interpreter_with(&[9, 3, 4, -1]);
    assert_eq!(it.step(), Status::Running);
    assert_eq!(it.take_output(), "Invalid Opcode: 9; At Instruction: 0\n");
    assert_eq!(it.vm.pc, 0);
    assert!(it.vm.run_vm);
    assert!(it.vm.dstack.is_empty());
    assert_eq!(it.step(), Status::Running);
    assert_eq!(it.vm.dstack, vec![4]);
    assert_eq!(it.step(), Status::Running);
    assert_eq!(it.take_output(), "Invalid Opcode: -1; At Instruction: 3\n");
}

#[test]
fn running_off_the_code_halts() {
    let mut it = interpreter_with(&[3, 1]);
    assert_eq!(it.run(10), Status::Halted);
    assert_eq!(it.vm.dstack, vec![1]);
    assert_eq!(it.take_output(), "Error: program counter outside the code");
    assert!(!it.vm.run_vm);
}

#[test]
fn machine_without_functions_halts() {
    let mut it = Interpreter::new(Box::new(VM::new()), Box::new(TxtInput::new()));
    assert_eq!(it.step(), Status::Running);
    assert_eq!(it.step(), Status::Halted);
    assert_eq!(it.take_output(), "Error: program counter outside the code");
}

#[test]
fn return_at_top_level_halts() {
    let mut it = interpreter_with(&[5]);
    assert_eq!(it.run(10), Status::Halted);
    assert_eq!(it.take_output(), "Error: return without a caller");
    assert!(!it.vm.run_vm);
    assert!(it.vm.rstack.is_empty());
    assert_eq!(it.vm.fc, 11);
    assert_eq!(it.vm.pc, 0);
}

#[test]
fn call_of_unknown_function_goes_on() {
    let mut it = interpreter_with(&[0, 99, 3, 8, 0, 10]);
    assert_eq!(it.step(), Status::Running);
    assert_eq!(it.take_output(), "Error: call of an unknown function");
    assert!(it.vm.run_vm);
    assert_eq!(it.step(), Status::Running);
    assert_eq!(it.vm.dstack, vec![8]);
    assert_eq!(it.step(), Status::Running);
    assert!(!it.vm.run_vm);
    assert_eq!(it.step(), Status::Halted);
}

#[test]
fn read_instruction_takes_one_word() {
    let mut it = interpreter_with(&[4, 4, 4, 3, 9]);
    assert_eq!(it.step(), Status::Running);
    assert_eq!(it.tasks, vec![Task::Read]);
    assert_eq!(it.step(), Status::NeedLine);
    assert_eq!(it.take_output(), "");
    it.read_line("1 2");
    assert_eq!(it.step(), Status::Running);
    assert!(it.tasks.is_empty());
    assert_eq!(it.vm.dstack, vec![1]);
    assert_eq!(it.step(), Status::Running);
    assert_eq!(it.step(), Status::Running);
    assert_eq!(it.vm.dstack, vec![1, 2]);
    assert_eq!(it.step(), Status::Running);
    assert_eq!(it.step(), Status::Running);
    assert!(it.tasks.is_empty());
    assert!(it.input.empty());
    assert_eq!(it.step(), Status::Running);
    assert_eq!(it.vm.dstack, vec![1, 2, 9]);
}

#[test]
fn exec_word_says_whether_the_cycle_goes_on() {
    let mut it = interpreter_with(&[]);
    it.setup();
    assert!(it.exec_word("5".to_string()));
    assert!(it.exec_word("dup".to_string()));
    assert!(it.exec_word("nonsense".to_string()));
    assert!(it.exec_word(":".to_string()));
    assert_eq!(it.tasks, vec![Task::Name]);
    it.tasks.pop();
    it.define_name("five".to_string());
    assert!(it.exec_word("5".to_string()));
    assert!(it.exec_word("dup".to_string()));
    assert!(it.exec_word(";".to_string()));
    assert!(!it.exec_word("five".to_string()));
    assert_eq!(it.vm.dstack, vec![5, 5]);
    assert_eq!(it.vm.rstack.len(), 1);
}

#[test]
fn read_takes_words_in_order() {
    let mut it = interpreter_with(&[]);
    assert_eq!(it.read(), None);
    it.read_line("1 x");
    assert_eq!(it.read(), Some(true));
    assert_eq!(it.read(), Some(true));
    assert_eq!(it.vm.out, "Error: `x` not a function or a number");
    assert_eq!(it.read(), Some(false));
    assert_eq!(it.read(), None);
    assert_eq!(it.vm.dstack, vec![1]);
}

#[test]
fn def_func_is_the_one_under_definition() {
    let mut it = interpreter_with(&[]);
    assert!(it.get_def_func().is_none());
    it.def_id = Some(2);
    assert!(it.get_def_func().is_none());
    it.def_id = Some(500);
    assert!(it.get_def_func().is_none());
    it.def_id = Some(11);
    assert_eq!(it.get_def_func().unwrap().name, "main");
    it.get_def_func().unwrap().push_int(5);
    assert_eq!(it.vm.ftable.items[11].code, vec![5]);
}

#[test]
fn compile_without_definition_is_reported() {
    let mut it = interpreter_with(&[]);
    it.compile_literal(3);
    assert_eq!(it.take_output(), "Error: no definition in progress");
    it.compile_call(2);
    assert_eq!(it.take_output(), "Error: no definition in progress");
    it.def_id = Some(11);
    it.compile_literal(3);
    it.compile_call(2);
    it.compile_call(128);
    assert_eq!(it.take_output(), "Error: function id does not fit an operand");
    it.end_define_func();
    assert_eq!(it.vm.ftable.items[11].code, vec![3, 3, 0, 2, 5]);
    assert_eq!(it.def_id, None);
}

#[test]
fn immediate_word_runs_in_compile_mode() {
    let mut it = interpreter_with(&[]);
    let id = it.vm.add_callback_vm("now".to_string(), Primitive::Dup);
    it.vm.ftable.get(id).unwrap().immediate = true;
    it.vm.mode = Mode::Compile;
    it.vm.dstack.push(3);
    assert!(it.exec_word("now".to_string()));
    assert_eq!(it.vm.dstack, vec![3, 3]);
    assert!(it.vm.rstack.is_empty());
    it.run_callback(Callback::Null);
    it.run_callback(Callback::VM(Primitive::Add));
    assert_eq!(it.vm.dstack, vec![6]);
    it.run_callback(Callback::Interpreter(Directive::EndDefine));
    assert_eq!(it.vm.mode, Mode::Execute);
}

#[test]
fn prompt_is_written_only_without_buffered_words() {
    let mut it = interpreter_with(&[]);
    it.prompt();
    assert_eq!(it.take_output(), "\n> ");
    it.read_line("1");
    it.prompt();
    assert_eq!(it.take_output(), "");
    assert_eq!(it.tasks, vec![Task::Prompt, Task::Prompt]);
    it.vm.mode = Mode::Compile;
    it.input = Box::new(TxtInput::new());
    it.prompt();
    assert_eq!(it.take_output(), "...> ");
}
