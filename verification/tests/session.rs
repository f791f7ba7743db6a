use forth_vm::function::{Callback, Directive, Primitive};
use forth_vm::input::TxtInput;
use forth_vm::interpreter::{Interpreter, Status, Task};
use forth_vm::vm::{Mode, VM};

fn fresh() -> Interpreter {
    let mut it = Interpreter::new(Box::new(VM::new()), Box::new(TxtInput::new()));
    it.setup();
    it
}

/// Runs until a line is wanted, hands the line over, runs again, and gives
/// back what was written while the line was worked on.
fn feed(it: &mut Interpreter, line: &str) -> String {
    assert_eq!(it.run(10_000), Status::NeedLine);
    it.take_output();
    it.read_line(line);
    it.run(10_000);
    it.take_output()
}

fn count_named(it: &Interpreter, name: &str) -> usize {
    it.vm.ftable.items.iter().filter(|f| f.name == name).count()
}

#[test]
fn new_interpreter_is_idle() {
    let it = Interpreter::new(Box::new(VM::new()), Box::new(TxtInput::new()));
    assert_eq!(it.def_id, None);
    assert!(it.tasks.is_empty());
    assert!(it.input.empty());
    assert!(it.vm.ftable.items.is_empty());
    assert_eq!(it.vm.pc, -1);
    assert_eq!(it.vm.fc, 0);
    assert_eq!(it.vm.mode, Mode::Execute);
    assert!(it.vm.run_vm);
}

#[test]
fn setup_registers_primitives_then_driver_words() {
    let it = fresh();
    let names: Vec<&str> = it.vm.ftable.items.iter().map(|f| f.name.as_str()).collect();
    assert_eq!(
        names,
        vec![".", "..", "+", "-", "*", "/", "dup", "pop", "clr", "swp", "exit", " ", ":", ";"]
    );
    assert_eq!(it.vm.fc, 11);
    assert_eq!(it.vm.pc, -1);
    assert_eq!(it.vm.ftable.items[11].code, vec![2, 1, -2]);
    assert_eq!(it.vm.ftable.items[11].callback, Callback::Null);
    assert_eq!(it.vm.ftable.items[2].callback, Callback::VM(Primitive::Add));
    assert_eq!(it.vm.ftable.items[12].callback, Callback::Interpreter(Directive::Define));
    assert!(!it.vm.ftable.items[12].immediate);
    assert_eq!(it.vm.ftable.items[13].callback, Callback::Interpreter(Directive::EndDefine));
    assert!(it.vm.ftable.items[13].immediate);
    assert!(it.vm.ftable.items[..11].iter().all(|f| f.code.is_empty() && !f.immediate));
}

#[test]
fn first_step_writes_the_prompt_and_waits() {
    let mut it = fresh();
    assert_eq!(it.step(), Status::Running);
    assert_eq!(it.tasks, vec![Task::Prompt]);
    assert_eq!(it.vm.pc, 0);
    assert_eq!(it.step(), Status::NeedLine);
    assert_eq!(it.step(), Status::NeedLine);
    assert_eq!(it.take_output(), "\n> ");
    assert_eq!(it.take_output(), "");
}

#[test]
fn subtraction_takes_second_operand_first() {
    let mut it = fresh();
    feed(&mut it, "10 3 -");
    assert_eq!(it.vm.dstack, vec![7]);
}

#[test]
fn arithmetic_line_left_to_right() {
    let mut it = fresh();
    feed(&mut it, "2 3 + 4 * 6 - 7 /");
    assert_eq!(it.vm.dstack, vec![2]);
    feed(&mut it, "100 7 / -100 7 / 100 -7 / -100 -7 /");
    assert_eq!(it.vm.dstack, vec![2, 14, -14, -14, 14]);
}

#[test]
fn arithmetic_wraps_around() {
    let mut it = fresh();
    feed(&mut it, "2147483647 1 +");
    assert_eq!(it.vm.dstack, vec![i32::MIN]);
    feed(&mut it, "clr -2147483648 1 -");
    assert_eq!(it.vm.dstack, vec![i32::MAX]);
    feed(&mut it, "clr 65536 65536 *");
    assert_eq!(it.vm.dstack, vec![0]);
    feed(&mut it, "clr 123456789 1000 *");
    assert_eq!(it.vm.dstack, vec![123456789i32.wrapping_mul(1000)]);
    feed(&mut it, "clr -2147483648 -1 /");
    assert_eq!(it.vm.dstack, vec![i32::MIN]);
}

#[test]
fn square_of_five_prints_25() {
    let mut it = fresh();
    assert_eq!(feed(&mut it, ": sq dup * ;"), "\n> ");
    assert_eq!(feed(&mut it, "5 sq ."), "25\n\n> ");
    assert_eq!(it.vm.dstack, vec![25]);
}

#[test]
fn definition_compiles_calls_and_return() {
    let mut it = fresh();
    feed(&mut it, ": sq dup * ;");
    let sq = &it.vm.ftable.items[14];
    assert_eq!(sq.name, "sq");
    assert_eq!(sq.code, vec![0, 6, 0, 4, 5]);
    assert_eq!(sq.callback, Callback::Null);
    assert_eq!(it.def_id, None);
    assert_eq!(it.vm.mode, Mode::Execute);
}

#[test]
fn print_on_empty_stack_writes_placeholder() {
    let mut it = fresh();
    assert_eq!(feed(&mut it, "."), "<empty>\n\n> ");
    assert!(it.vm.dstack.is_empty());
    assert!(it.vm.run_vm);
}

#[test]
fn print_stack_lists_bottom_first() {
    let mut it = fresh();
    assert_eq!(feed(&mut it, "1 -2 30 .."), "[ 1 -2 30 ]\n\n> ");
    assert_eq!(feed(&mut it, "clr .."), "[ ]\n\n> ");
}

#[test]
fn print_top_of_extreme_values() {
    let mut it = fresh();
    assert_eq!(feed(&mut it, "-2147483648 . 2147483647 . 0 . -1 . 1000 ."),
        "-2147483648\n2147483647\n0\n-1\n1000\n\n> ");
}

#[test]
fn second_definition_of_a_name_fails() {
    let mut it = fresh();
    feed(&mut it, ": sq dup * ;");
    let before: Vec<i8> = it.vm.ftable.items[14].code.clone();
    let count = it.vm.ftable.items.len();
    assert_eq!(feed(&mut it, ": sq dup * ;"), "Function already defined: sq\n> ");
    assert_eq!(it.vm.ftable.items.len(), count);
    assert_eq!(count_named(&it, "sq"), 1);
    assert_eq!(it.vm.ftable.items[14].code, before);
    assert_eq!(it.vm.mode, Mode::Execute);
    assert_eq!(it.def_id, None);
    assert!(it.vm.dstack.is_empty());
    assert_eq!(feed(&mut it, "5 sq ."), "25\n\n> ");
}

#[test]
fn top_level_loop_repeats_until_exit() {
    let mut it = fresh();
    for round in 0..50 {
        assert_eq!(it.run(1_000), Status::NeedLine);
        assert_eq!(it.vm.fc, 11);
        assert_eq!(it.vm.pc, 0);
        assert_eq!(it.tasks, vec![Task::Prompt]);
        assert_eq!(it.take_output(), "\n> ");
        it.read_line("1");
        assert_eq!(it.vm.dstack.len(), round);
    }
    assert_eq!(it.run(1_000), Status::NeedLine);
    it.read_line("exit 7");
    assert_eq!(it.run(1_000), Status::Halted);
    assert!(!it.vm.run_vm);
    assert_eq!(it.vm.dstack.len(), 51);
    assert_eq!(it.vm.dstack[50], 7);
    assert_eq!(it.step(), Status::Halted);
    assert_eq!(it.run(1_000), Status::Halted);
}

#[test]
fn run_stops_at_its_limit() {
    let mut it = fresh();
    assert_eq!(it.run(0), Status::Running);
    assert_eq!(it.vm.pc, -1);
    assert_eq!(it.run(1), Status::Running);
    assert_eq!(it.vm.pc, 0);
    it.read_line("1 2 3 4");
    assert_eq!(it.run(2), Status::Running);
    assert_eq!(it.vm.dstack, vec![1, 2]);
    assert_eq!(it.run(2), Status::Running);
    assert_eq!(it.vm.dstack, vec![1, 2, 3, 4]);
    assert_eq!(it.tasks, vec![Task::Prompt]);
    assert_eq!(it.run(1), Status::Running);
    assert!(it.tasks.is_empty());
    assert_eq!(it.run(3), Status::NeedLine);
    assert_eq!(it.vm.pc, 0);
}

#[test]
fn out_of_range_literal_is_truncated_when_compiled() {
    let mut it = fresh();
    feed(&mut it, ": c 200 ;");
    assert_eq!(it.vm.ftable.items[14].code, vec![3, -56, 5]);
    assert_eq!(feed(&mut it, "c ."), "-56\n\n> ");
    assert_eq!(feed(&mut it, "c ."), "-56\n\n> ");
    assert_eq!(it.vm.dstack, vec![-56, -56]);
    feed(&mut it, ": d 127 -128 128 -129 256 1000 -1000 ;");
    feed(&mut it, "clr d");
    assert_eq!(it.vm.dstack, vec![127, -128, -128, 127, 0, 1000i32 as i8 as i32, -1000i32 as i8 as i32]);
}

#[test]
fn literal_in_execute_mode_keeps_32_bits() {
    let mut it = fresh();
    feed(&mut it, "200 -100000 +7");
    assert_eq!(it.vm.dstack, vec![200, -100000, 7]);
}

#[test]
fn unknown_word_is_reported_and_stack_unchanged() {
    let mut it = fresh();
    feed(&mut it, "1 2");
    assert_eq!(feed(&mut it, "foo"), "Error: `foo` not a function or a number\n> ");
    assert_eq!(it.vm.dstack, vec![1, 2]);
    assert!(it.vm.run_vm);
}

#[test]
fn unknown_word_discards_rest_of_line() {
    let mut it = fresh();
    assert_eq!(feed(&mut it, "1 foo 2 3"), "Error: `foo` not a function or a number\n> ");
    assert_eq!(it.vm.dstack, vec![1]);
    feed(&mut it, "4");
    assert_eq!(it.vm.dstack, vec![1, 4]);
}

#[test]
fn dictionary_wins_over_number() {
    let mut it = fresh();
    feed(&mut it, ": 5 7 ;");
    feed(&mut it, "5 +5");
    assert_eq!(it.vm.dstack, vec![7, 5]);
}

#[test]
fn stack_words() {
    let mut it = fresh();
    feed(&mut it, "1 2 swp");
    assert_eq!(it.vm.dstack, vec![2, 1]);
    feed(&mut it, "dup");
    assert_eq!(it.vm.dstack, vec![2, 1, 1]);
    feed(&mut it, "pop pop");
    assert_eq!(it.vm.dstack, vec![2]);
    assert_eq!(feed(&mut it, "pop"), "\n> ");
    assert!(it.vm.dstack.is_empty());
    assert_eq!(feed(&mut it, "pop 5"), "Error: stack underflow\n> ");
    assert!(it.vm.dstack.is_empty());
    assert!(it.vm.run_vm);
    feed(&mut it, "1 2 3 clr");
    assert!(it.vm.dstack.is_empty());
}

#[test]
fn stack_underflow_is_reported() {
    let mut it = fresh();
    assert_eq!(feed(&mut it, "1 + 5"), "Error: stack underflow\n> ");
    assert_eq!(it.vm.dstack, vec![1]);
    assert_eq!(feed(&mut it, "clr dup"), "Error: stack underflow\n> ");
    assert_eq!(feed(&mut it, "1 swp"), "Error: stack underflow\n> ");
    assert_eq!(it.vm.dstack, vec![1]);
    assert_eq!(feed(&mut it, "pop pop 7"), "Error: stack underflow\n> ");
    assert!(it.vm.dstack.is_empty());
    assert!(it.vm.run_vm);
}

#[test]
fn division_by_zero_is_reported() {
    let mut it = fresh();
    assert_eq!(feed(&mut it, "1 0 / 9"), "Error: division by zero\n> ");
    assert_eq!(it.vm.dstack, vec![1, 0]);
    assert!(it.vm.run_vm);
}

#[test]
fn fault_inside_a_function_goes_on_after_it() {
    let mut it = fresh();
    feed(&mut it, ": f + 42 ;");
    assert_eq!(feed(&mut it, "f 1"), "Error: stack underflow\n> ");
    assert_eq!(it.vm.dstack, vec![42]);
    assert!(it.vm.rstack.is_empty());
    assert_eq!(it.vm.fc, 11);
}

#[test]
fn nested_calls_return_to_their_callers() {
    let mut it = fresh();
    feed(&mut it, ": sq dup * ;");
    feed(&mut it, ": quad sq sq ;");
    assert_eq!(feed(&mut it, "3 quad . 2 quad ."), "81\n16\n\n> ");
    assert!(it.vm.rstack.is_empty());
}

#[test]
fn interpreted_call_leaves_the_prompt_cycle() {
    let mut it = fresh();
    feed(&mut it, ": one 1 ;");
    assert_eq!(it.run(100), Status::NeedLine);
    it.read_line("one 2");
    assert_eq!(it.step(), Status::Running);
    assert!(it.tasks.is_empty());
    assert_eq!(it.vm.fc, 14);
    assert_eq!(it.vm.pc, -1);
    assert_eq!(it.vm.rstack.len(), 1);
    assert_eq!(it.vm.rstack[0].id, 11);
    assert_eq!(it.vm.rstack[0].pc, 0);
    assert_eq!(it.run(100), Status::NeedLine);
    assert_eq!(it.vm.dstack, vec![1, 2]);
    assert_eq!(it.take_output(), "\n> ");
}

#[test]
fn end_define_without_definition_resets_mode_only() {
    let mut it = fresh();
    let before: Vec<Vec<i8>> = it.vm.ftable.items.iter().map(|f| f.code.clone()).collect();
    feed(&mut it, "1 ; 2");
    let after: Vec<Vec<i8>> = it.vm.ftable.items.iter().map(|f| f.code.clone()).collect();
    assert_eq!(before, after);
    assert_eq!(it.vm.mode, Mode::Execute);
    assert_eq!(it.vm.dstack, vec![1, 2]);
}

#[test]
fn definition_may_span_lines() {
    let mut it = fresh();
    assert_eq!(feed(&mut it, ": add3 3"), "...> ");
    assert_eq!(it.vm.mode, Mode::Compile);
    assert_eq!(it.def_id, Some(14));
    assert_eq!(feed(&mut it, "+ ;"), "\n> ");
    assert_eq!(feed(&mut it, "4 add3 ."), "7\n\n> ");
}

#[test]
fn name_on_the_next_line_is_dispatched_first() {
    let mut it = fresh();
    assert_eq!(feed(&mut it, ":"), "...> ");
    assert_eq!(it.tasks, vec![Task::Prompt, Task::Name, Task::Prompt]);
    assert_eq!(it.vm.mode, Mode::Compile);
    assert_eq!(feed(&mut it, "7"), "Error: no definition in progress");
    assert_eq!(it.tasks, vec![Task::Prompt, Task::Name]);
    assert_eq!(feed(&mut it, "seven 7 ;"), "\n> ");
    assert_eq!(it.tasks, vec![Task::Prompt]);
    assert_eq!(feed(&mut it, "seven ."), "7\n\n> ");
}

#[test]
fn defining_word_called_from_bytecode() {
    let mut it = fresh();
    feed(&mut it, ": mk : ;");
    assert_eq!(it.vm.ftable.items[14].code, vec![0, 12, 5]);
    assert_eq!(feed(&mut it, "mk two 2 ;"), "\n> ");
    assert_eq!(feed(&mut it, "two two + ."), "4\n\n> ");
}

#[test]
fn recursive_definition_grows_the_return_stack() {
    let mut it = fresh();
    feed(&mut it, ": forever forever ;");
    assert_eq!(it.run(100), Status::NeedLine);
    it.read_line("forever");
    assert_eq!(it.run(1_000), Status::Running);
    assert!(it.vm.rstack.len() > 400);
    assert_eq!(it.vm.fc, 14);
}

#[test]
fn call_of_function_beyond_operand_range_is_refused() {
    let mut it = fresh();
    for i in 14..=128 {
        feed(&mut it, &format!(": w{} {} ;", i, i % 100));
    }
    assert_eq!(it.vm.ftable.items.len(), 129);
    assert_eq!(feed(&mut it, ": near w127 ;"), "\n> ");
    assert_eq!(it.vm.ftable.items[129].code, vec![0, 127, 5]);
    assert_eq!(feed(&mut it, ": far w128 ;"), "Error: function id does not fit an operand...> ");
    assert_eq!(it.vm.ftable.items[130].name, "far");
    assert!(it.vm.ftable.items[130].code.is_empty());
    assert_eq!(it.vm.mode, Mode::Compile);
    feed(&mut it, ";");
    assert_eq!(feed(&mut it, "near . w128 ."), "27\n28\n\n> ");
}

#[test]
fn take_output_empties_the_sink() {
    let mut it = fresh();
    it.run(10);
    it.read_line("1 . 2 .");
    it.run(100);
    assert_eq!(it.take_output(), "\n> 1\n2\n\n> ");
    assert_eq!(it.take_output(), "");
    assert_eq!(it.vm.out, "");
}

#[test]
fn console_transcript() {
    let lines = ["1 2 + .", ": sq dup * ;", "5 sq . ..", "oops 1", ": sq ;", "exit 3 .", "never"];
    let mut it = fresh();
    let mut next = lines.iter();
    let mut transcript = String::new();
    loop {
        let status = it.run(64);
        transcript.push_str(&it.take_output());
        match status {
            Status::Running => {}
            Status::Halted => break,
            Status::NeedLine => it.read_line(next.next().unwrap()),
        }
    }
    assert_eq!(
        transcript,
        "\n> 3\n\n> \n> 25\n[ 3 25 ]\n\n> Error: `oops` not a function or a number\
         \n> Function already defined: sq\n> 3\n"
    );
    assert_eq!(next.next(), Some(&"never"));
    assert_eq!(it.vm.dstack, vec![3, 25, 3]);
}
