//! The word source: the words of the lines read so far that have not been
//! consumed yet.
//!
//! Each line contributes its words, split at white space, and then one empty
//! word that marks the end of the line.

use std::collections::VecDeque;
use vstd::prelude::*;
use vstd::string::*;

verus! {

/// Whether a character is white space, as Unicode's `White_Space` has it.
pub open spec fn is_space(c: char) -> bool {
    let u = c as u32;
    (0x09 <= u <= 0x0d) || u == 0x20 || u == 0x85 || u == 0xa0 || u == 0x1680 || (0x2000 <= u
        <= 0x200a) || u == 0x2028 || u == 0x2029 || u == 0x202f || u == 0x205f || u == 0x3000
}

/// The length of the word at the start of `s`: the number of characters
/// before the first white space.
pub open spec fn word_len(s: Seq<char>) -> int
    decreases s.len(),
{
    if s.len() == 0 || is_space(s[0]) {
        0
    } else {
        1 + word_len(s.drop_first())
    }
}

/// The words of a line: its maximal runs of characters that are not white
/// space, in order. (A first word is never empty, see
/// [`lemma_word_len_bounds`]; the guard on its length only makes it plain
/// that the rest is shorter.)
pub open spec fn split_words(s: Seq<char>) -> Seq<Seq<char>>
    decreases s.len(),
{
    if s.len() == 0 {
        Seq::empty()
    } else if is_space(s[0]) {
        split_words(s.drop_first())
    } else {
        let k = word_len(s);
        if 0 < k <= s.len() {
            seq![s.subrange(0, k)] + split_words(s.subrange(k, s.len() as int))
        } else {
            Seq::empty()
        }
    }
}

/// A run of `k` characters without white space, followed by white space or
/// the end, is the first word.
pub proof fn lemma_word_len(s: Seq<char>, k: int)
    requires
        0 <= k <= s.len(),
        forall|i: int| 0 <= i < k ==> !is_space(#[trigger] s[i]),
        k == s.len() || is_space(s[k]),
    ensures
        word_len(s) == k,
    decreases k,
{
    if k > 0 {
        let rest = s.drop_first();
        assert forall|i: int| 0 <= i < k - 1 implies !is_space(#[trigger] rest[i]) by {
            assert(rest[i] == s[i + 1]);
        }
        lemma_word_len(rest, k - 1);
    }
}

/// A word proper: not empty, and without white space.
pub open spec fn is_word(w: Seq<char>) -> bool {
    w.len() > 0 && forall|i: int| 0 <= i < w.len() ==> !is_space(#[trigger] w[i])
}

/// Every word of a line is a word proper: none is empty, and so none can be
/// taken for the end-of-line mark.
pub proof fn lemma_split_words_plain(s: Seq<char>)
    ensures
        forall|w: int| 0 <= w < split_words(s).len() ==> is_word(#[trigger] split_words(s)[w]),
    decreases s.len(),
{
    if s.len() == 0 {
        assert(split_words(s).len() == 0);
    } else if is_space(s[0]) {
        lemma_split_words_plain(s.drop_first());
        assert(split_words(s) == split_words(s.drop_first()));
    } else {
        let k = word_len(s);
        lemma_word_len_bounds(s);
        let rest = s.subrange(k, s.len() as int);
        lemma_split_words_plain(rest);
        let first = s.subrange(0, k);
        assert(split_words(s) == seq![first] + split_words(rest));
        assert(is_word(first)) by {
            assert forall|i: int| 0 <= i < first.len() implies !is_space(#[trigger] first[i]) by {
                assert(first[i] == s[i]);
            }
        }
        assert forall|w: int| 0 <= w < split_words(s).len() implies is_word(
            #[trigger] split_words(s)[w],
        ) by {
            if w == 0 {
                assert(split_words(s)[0] == first);
            } else {
                assert(split_words(s)[w] == split_words(rest)[w - 1]);
            }
        }
    }
}

/// The first word ends within the line, and no character of it is white space.
pub proof fn lemma_word_len_bounds(s: Seq<char>)
    ensures
        0 <= word_len(s) <= s.len(),
        s.len() > 0 && !is_space(s[0]) ==> word_len(s) > 0,
        forall|i: int| 0 <= i < word_len(s) ==> !is_space(#[trigger] s[i]),
    decreases s.len(),
{
    if s.len() == 0 || is_space(s[0]) {
    } else {
        let rest = s.drop_first();
        lemma_word_len_bounds(rest);
        assert forall|i: int| 0 <= i < word_len(s) implies !is_space(#[trigger] s[i]) by {
            if i > 0 {
                assert(rest[i - 1] == s[i]);
            }
        }
    }
}

/// Whether a character is white space.
pub fn is_space_char(c: char) -> (r: bool)
    ensures
        r == is_space(c),
{
    let u: u32 = c as u32;
    (0x09 <= u && u <= 0x0d) || u == 0x20 || u == 0x85 || u == 0xa0 || u == 0x1680 || (0x2000 <= u
        && u <= 0x200a) || u == 0x2028 || u == 0x2029 || u == 0x202f || u == 0x205f || u
        == 0x3000
}

/// The texts of a list of words, in order.
pub open spec fn texts(words: Seq<String>) -> Seq<Seq<char>> {
    Seq::new(words.len(), |i: int| words[i]@)
}

/// The buffered words of the input.
pub struct TxtInput {
    /// The words not yet consumed, next first.
    pub buff: VecDeque<String>,
}

impl View for TxtInput {
    type V = Seq<Seq<char>>;

    open spec fn view(&self) -> Seq<Seq<char>> {
        texts(self.buff@)
    }
}

/// What a line adds to the buffer: its words, then the empty word that marks
/// its end.
pub open spec fn line_words(line: Seq<char>) -> Seq<Seq<char>> {
    split_words(line).push(Seq::empty())
}

/// What is left of the buffer after an error: the end-of-line mark alone.
pub open spec fn discarded() -> Seq<Seq<char>> {
    seq![Seq::empty()]
}

fn word_end(line: &str, start: usize, n: usize) -> (end: usize)
    requires
        n == line@.len(),
        start < n,
        !is_space(line@[start as int]),
    ensures
        start < end <= n,
        end - start == word_len(line@.subrange(start as int, n as int)),
{
    let mut j: usize = start + 1;
    while j < n
        invariant
            start < j <= n,
            n == line@.len(),
            forall|i: int| start <= i < j ==> !is_space(#[trigger] line@[i]),
        decreases n - j,
    {
        if is_space_char(line.get_char(j)) {
            proof {
                lemma_word_len(line@.subrange(start as int, n as int), j - start);
            }
            return j;
        }
        j = j + 1;
    }
    proof {
        lemma_word_len(line@.subrange(start as int, n as int), j - start);
    }
    j
}

impl TxtInput {
    /// An input without buffered words.
    pub fn new() -> (input: TxtInput)
        ensures
            input@ == Seq::<Seq<char>>::empty(),
    {
        let input = TxtInput { buff: VecDeque::new() };
        assert(input@ =~= Seq::<Seq<char>>::empty());
        input
    }

    /// Whether no word is buffered.
    pub fn empty(&self) -> (r: bool)
        ensures
            r == (self@.len() == 0),
    {
        self.buff.len() == 0
    }

    /// Writes a diagnostic and discards what is left of the current line:
    /// the buffer then holds the end-of-line mark alone.
    pub fn print_error(&mut self, msg: String, out: &mut String)
        ensures
            final(out)@ == old(out)@ + msg@,
            final(self)@ == discarded(),
    {
        out.append(msg.as_str());
        self.buff.clear();
        self.buff.push_back(String::new());
        assert(self@ =~= discarded());
    }

    /// Buffers the words of a line, then the end-of-line mark.
    pub fn read_line(&mut self, line: &str)
        ensures
            final(self)@ == old(self)@ + line_words(line@),
    {
        let n: usize = line.unicode_len();
        let mut i: usize = 0;
        assert(line@.subrange(0, n as int) =~= line@);
        assert(self@ + split_words(line@.subrange(0, n as int)) =~= old(self)@ + split_words(
            line@,
        ));
        while i < n
            invariant
                0 <= i <= n,
                n == line@.len(),
                self@ + split_words(line@.subrange(i as int, n as int)) == old(self)@
                    + split_words(line@),
            decreases n - i,
        {
            let ghost rest = line@.subrange(i as int, n as int);
            let ghost before = self@;
            if is_space_char(line.get_char(i)) {
                assert(rest.drop_first() =~= line@.subrange(i + 1, n as int));
                i = i + 1;
            } else {
                let end: usize = word_end(line, i, n);
                let word: &str = line.substring_char(i, end);
                self.buff.push_back(String::from_str(word));
                proof {
                    let k = end - i;
                    assert(rest.subrange(0, k) =~= word@);
                    assert(rest.subrange(k, rest.len() as int) =~= line@.subrange(
                        end as int,
                        n as int,
                    ));
                    assert(self@ =~= before.push(word@));
                    assert(before + split_words(rest) =~= self@ + split_words(
                        line@.subrange(end as int, n as int),
                    ));
                }
                i = end;
            }
        }
        let ghost words = self@;
        self.buff.push_back(String::new());
        assert(self@ =~= words.push(Seq::empty()));
        assert(words =~= old(self)@ + split_words(line@));
        assert(self@ =~= old(self)@ + line_words(line@));
    }

    /// Takes the next word from the buffer. `None` means that the buffer is
    /// empty and a line has to be read first; an empty word is the
    /// end-of-line mark.
    pub fn next_word(&mut self) -> (r: Option<String>)
        ensures
            old(self)@.len() == 0 ==> r is None && final(self)@ == old(self)@,
            old(self)@.len() > 0 ==> r is Some && r.unwrap()@ == old(self)@[0] && final(self)@
                == old(self)@.drop_first(),
    {
        let r = self.buff.pop_front();
        assert(old(self)@.len() > 0 ==> self@ =~= old(self)@.drop_first());
        r
    }
}

} // verus!
