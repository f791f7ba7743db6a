//! Decimal text of integers, in both directions, and the texts the machine writes.

use vstd::prelude::*;
use vstd::string::*;

verus! {

/// The character of a decimal digit.
pub open spec fn digit_char(d: int) -> char {
    if d == 0 {
        '0'
    } else if d == 1 {
        '1'
    } else if d == 2 {
        '2'
    } else if d == 3 {
        '3'
    } else if d == 4 {
        '4'
    } else if d == 5 {
        '5'
    } else if d == 6 {
        '6'
    } else if d == 7 {
        '7'
    } else if d == 8 {
        '8'
    } else {
        '9'
    }
}

/// The value of a decimal digit character, if it is one.
pub open spec fn digit_value(c: char) -> Option<int> {
    if c == '0' {
        Some(0)
    } else if c == '1' {
        Some(1)
    } else if c == '2' {
        Some(2)
    } else if c == '3' {
        Some(3)
    } else if c == '4' {
        Some(4)
    } else if c == '5' {
        Some(5)
    } else if c == '6' {
        Some(6)
    } else if c == '7' {
        Some(7)
    } else if c == '8' {
        Some(8)
    } else if c == '9' {
        Some(9)
    } else {
        None
    }
}

/// The decimal digits of a natural number, most significant first, without
/// leading zeros.
pub open spec fn digits_text(n: nat) -> Seq<char>
    decreases n,
{
    if n < 10 {
        seq![digit_char(n as int)]
    } else {
        digits_text(n / 10).push(digit_char((n % 10) as int))
    }
}

/// The decimal text of an integer: a minus sign for negative values, then the
/// digits of the magnitude.
pub open spec fn number_text(v: int) -> Seq<char> {
    if v < 0 {
        seq!['-'] + digits_text((-v) as nat)
    } else {
        digits_text(v as nat)
    }
}

/// Whether every character is a decimal digit.
pub open spec fn all_digits(s: Seq<char>) -> bool {
    forall|i: int| 0 <= i < s.len() ==> (#[trigger] digit_value(s[i])) is Some
}

/// The number a digit string denotes; a character that is no digit counts as zero.
pub open spec fn digits_value(s: Seq<char>) -> nat
    decreases s.len(),
{
    if s.len() == 0 {
        0
    } else {
        let d: int = match digit_value(s.last()) {
            Some(d) => d,
            None => 0,
        };
        (digits_value(s.drop_last()) * 10 + d) as nat
    }
}

/// Whether the word starts with a sign character.
pub open spec fn has_sign(s: Seq<char>) -> bool {
    s.len() > 0 && (s[0] == '-' || s[0] == '+')
}

/// The word without its sign character.
pub open spec fn unsigned_part(s: Seq<char>) -> Seq<char> {
    if has_sign(s) {
        s.subrange(1, s.len() as int)
    } else {
        s
    }
}

/// The signed 32-bit integer a word denotes: an optional `+` or `-`, then one
/// or more decimal digits, the value within range. Anything else is no number.
pub open spec fn parse_int(s: Seq<char>) -> Option<i32> {
    let body = unsigned_part(s);
    let magnitude = digits_value(body) as int;
    let v = if s.len() > 0 && s[0] == '-' {
        -magnitude
    } else {
        magnitude
    };
    if body.len() == 0 || !all_digits(body) || v < i32::MIN || v > i32::MAX {
        None
    } else {
        Some(v as i32)
    }
}

/// What printing the top of a stack writes: the top value and a line break,
/// or a placeholder where the stack is empty.
pub open spec fn top_text(stack: Seq<i32>) -> Seq<char> {
    if stack.len() == 0 {
        "<empty>\n"@
    } else {
        number_text(stack.last() as int) + "\n"@
    }
}

/// The values of a stack, bottom first, each followed by a space.
pub open spec fn items_text(stack: Seq<i32>) -> Seq<char>
    decreases stack.len(),
{
    if stack.len() == 0 {
        Seq::empty()
    } else {
        items_text(stack.drop_last()) + number_text(stack.last() as int) + " "@
    }
}

/// What printing a whole stack writes.
pub open spec fn stack_text(stack: Seq<i32>) -> Seq<char> {
    "[ "@ + items_text(stack) + "]\n"@
}

/// The prompt shown before a line is read.
pub open spec fn prompt_text(compiling: bool) -> Seq<char> {
    if compiling {
        "...> "@
    } else {
        "\n> "@
    }
}

/// The diagnostic for a word that is neither a function nor a number.
pub open spec fn unknown_word_text(word: Seq<char>) -> Seq<char> {
    "Error: `"@ + word + "` not a function or a number"@
}

/// The diagnostic for a definition whose name is taken.
pub open spec fn already_defined_text(name: Seq<char>) -> Seq<char> {
    "Function already defined: "@ + name
}

/// The diagnostic for a byte that is no opcode, found at position `at`.
pub open spec fn invalid_opcode_text(opcode: int, at: int) -> Seq<char> {
    "Invalid Opcode: "@ + number_text(opcode) + "; At Instruction: "@ + number_text(at) + "\n"@
}

fn append_digit(out: &mut String, d: u64)
    requires
        d < 10,
    ensures
        final(out)@ == old(out)@.push(digit_char(d as int)),
{
    proof {
        reveal_strlit("0");
        reveal_strlit("1");
        reveal_strlit("2");
        reveal_strlit("3");
        reveal_strlit("4");
        reveal_strlit("5");
        reveal_strlit("6");
        reveal_strlit("7");
        reveal_strlit("8");
        reveal_strlit("9");
    }
    let piece: &str = if d == 0 {
        "0"
    } else if d == 1 {
        "1"
    } else if d == 2 {
        "2"
    } else if d == 3 {
        "3"
    } else if d == 4 {
        "4"
    } else if d == 5 {
        "5"
    } else if d == 6 {
        "6"
    } else if d == 7 {
        "7"
    } else if d == 8 {
        "8"
    } else {
        "9"
    };
    assert(piece@ =~= seq![digit_char(d as int)]);
    out.append(piece);
    assert(final(out)@ =~= old(out)@.push(digit_char(d as int)));
}

fn append_digits(out: &mut String, n: u64)
    ensures
        final(out)@ == old(out)@ + digits_text(n as nat),
    decreases n,
{
    if n >= 10 {
        append_digits(out, n / 10);
    }
    append_digit(out, n % 10);
    assert(final(out)@ =~= old(out)@ + digits_text(n as nat));
}

/// Appends the decimal text of `v` to `out`.
pub fn append_number(out: &mut String, v: i64)
    ensures
        final(out)@ == old(out)@ + number_text(v as int),
{
    if v < 0 {
        out.append("-");
        proof {
            reveal_strlit("-");
        }
        let magnitude: u64 = ((-(v + 1)) as u64) + 1;
        append_digits(out, magnitude);
        assert(final(out)@ =~= old(out)@ + number_text(v as int));
    } else {
        append_digits(out, v as u64);
    }
}

/// Writes what printing the top of `stack` writes.
pub fn write_top(out: &mut String, stack: &Vec<i32>)
    ensures
        final(out)@ == old(out)@ + top_text(stack@),
{
    let n: usize = stack.len();
    if n == 0 {
        out.append("<empty>\n");
    } else {
        append_number(out, stack[n - 1] as i64);
        out.append("\n");
        assert(final(out)@ =~= old(out)@ + top_text(stack@));
    }
}

/// Writes what printing the whole of `stack` writes.
pub fn write_stack(out: &mut String, stack: &Vec<i32>)
    ensures
        final(out)@ == old(out)@ + stack_text(stack@),
{
    let ghost before = out@;
    out.append("[ ");
    let n: usize = stack.len();
    let mut i: usize = 0;
    assert(stack@.subrange(0, 0) =~= Seq::<i32>::empty());
    assert(out@ =~= before + "[ "@ + items_text(stack@.subrange(0, 0)));
    while i < n
        invariant
            0 <= i <= n,
            n == stack@.len(),
            out@ == before + "[ "@ + items_text(stack@.subrange(0, i as int)),
        decreases n - i,
    {
        let ghost so_far = out@;
        append_number(out, stack[i] as i64);
        out.append(" ");
        proof {
            let next = stack@.subrange(0, i + 1);
            assert(next.drop_last() =~= stack@.subrange(0, i as int));
            assert(next.last() == stack@[i as int]);
            assert(out@ =~= before + "[ "@ + items_text(next));
        }
        i = i + 1;
    }
    assert(stack@.subrange(0, n as int) =~= stack@);
    out.append("]\n");
    assert(final(out)@ =~= before + stack_text(stack@));
}

/// Writes the prompt.
pub fn write_prompt(out: &mut String, compiling: bool)
    ensures
        final(out)@ == old(out)@ + prompt_text(compiling),
{
    if compiling {
        out.append("...> ");
    } else {
        out.append("\n> ");
    }
}

/// Writes the diagnostic for an unknown word.
pub fn write_unknown_word(out: &mut String, word: &str)
    ensures
        final(out)@ == old(out)@ + unknown_word_text(word@),
{
    out.append("Error: `");
    out.append(word);
    out.append("` not a function or a number");
    assert(final(out)@ =~= old(out)@ + unknown_word_text(word@));
}

/// Writes the diagnostic for a name that is taken.
pub fn write_already_defined(out: &mut String, name: &str)
    ensures
        final(out)@ == old(out)@ + already_defined_text(name@),
{
    out.append("Function already defined: ");
    out.append(name);
    assert(final(out)@ =~= old(out)@ + already_defined_text(name@));
}

/// Writes the diagnostic for a byte that is no opcode.
pub fn write_invalid_opcode(out: &mut String, opcode: i8, at: isize)
    ensures
        final(out)@ == old(out)@ + invalid_opcode_text(opcode as int, at as int),
{
    out.append("Invalid Opcode: ");
    append_number(out, opcode as i64);
    out.append("; At Instruction: ");
    append_number(out, at as i64);
    out.append("\n");
    assert(final(out)@ =~= old(out)@ + invalid_opcode_text(opcode as int, at as int));
}

fn digit_of(c: char) -> (r: Option<u8>)
    ensures
        match r {
            Some(d) => digit_value(c) == Some(d as int),
            None => digit_value(c) is None,
        },
{
    if c == '0' {
        Some(0)
    } else if c == '1' {
        Some(1)
    } else if c == '2' {
        Some(2)
    } else if c == '3' {
        Some(3)
    } else if c == '4' {
        Some(4)
    } else if c == '5' {
        Some(5)
    } else if c == '6' {
        Some(6)
    } else if c == '7' {
        Some(7)
    } else if c == '8' {
        Some(8)
    } else if c == '9' {
        Some(9)
    } else {
        None
    }
}

proof fn lemma_digits_value_prefix(s: Seq<char>, k: int)
    requires
        0 <= k <= s.len(),
    ensures
        digits_value(s.subrange(0, k)) <= digits_value(s),
    decreases s.len() - k,
{
    if k == s.len() {
        assert(s.subrange(0, k) =~= s);
    } else {
        lemma_digits_value_prefix(s, k + 1);
        assert(s.subrange(0, k + 1).drop_last() =~= s.subrange(0, k));
    }
}

/// Reads a word as a signed 32-bit decimal integer.
pub fn parse_word(word: &str) -> (r: Option<i32>)
    ensures
        r == parse_int(word@),
{
    let n: usize = word.unicode_len();
    if n == 0 {
        return None;
    }
    let first: char = word.get_char(0);
    let negative: bool = first == '-';
    let start: usize = if first == '-' || first == '+' {
        1
    } else {
        0
    };
    let ghost body = unsigned_part(word@);
    assert(body =~= word@.subrange(start as int, n as int));
    if start == n {
        return None;
    }
    let mut acc: i64 = 0;
    let mut i: usize = start;
    while i < n
        invariant
            start <= i <= n,
            n == word@.len(),
            body == word@.subrange(start as int, n as int),
            body == unsigned_part(word@),
            all_digits(body.subrange(0, i - start)),
            acc == digits_value(body.subrange(0, i - start)),
            0 <= acc <= 2147483648,
        decreases n - i,
    {
        let c: char = word.get_char(i);
        let ghost k: int = i - start;
        assert(body[k] == c);
        assert(body.subrange(0, k + 1).drop_last() =~= body.subrange(0, k));
        assert(body.subrange(0, k + 1).last() == c);
        match digit_of(c) {
            None => {
                assert(digit_value(body[k]) is None);
                return None;
            },
            Some(d) => {
                acc = acc * 10 + d as i64;
                assert(all_digits(body.subrange(0, k + 1))) by {
                    assert forall|j: int| 0 <= j < k + 1 implies (#[trigger] digit_value(
                        body.subrange(0, k + 1)[j],
                    )) is Some by {
                        if j < k {
                            assert(body.subrange(0, k)[j] == body.subrange(0, k + 1)[j]);
                        }
                    }
                }
                if acc > 2147483648 {
                    proof {
                        lemma_digits_value_prefix(body, k + 1);
                    }
                    return None;
                }
            },
        }
        i = i + 1;
    }
    assert(body.subrange(0, n - start) =~= body);
    if negative {
        Some((-acc) as i32)
    } else if acc > 2147483647 {
        None
    } else {
        Some(acc as i32)
    }
}

} // verus!
