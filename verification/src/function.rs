//! Functions and the dictionary that holds them.
//!
//! A function is native (no bytecode, a callback) or interpreted (bytecode,
//! no callback). The dictionary is an append-only list, searched by name in
//! insertion order; a function's index is its id and never changes.

use vstd::prelude::*;

verus! {

/// A native operation on the machine's stacks and output.
#[derive(Clone, Copy, PartialEq, Eq, Debug, Structural)]
pub enum Primitive {
    /// Write the top of the data stack.
    PrintTop,
    /// Write the whole data stack.
    PrintStack,
    /// Replace the top two values by their sum.
    Add,
    /// Replace the top two values by their difference.
    Sub,
    /// Replace the top two values by their product.
    Mul,
    /// Replace the top two values by their quotient.
    Div,
    /// Push a copy of the top value.
    Dup,
    /// Drop the top value.
    Pop,
    /// Empty the data stack.
    Clr,
    /// Exchange the top two values.
    Swp,
    /// Halt the machine.
    Exit,
}

/// A native operation of the interpreter itself.
#[derive(Clone, Copy, PartialEq, Eq, Debug, Structural)]
pub enum Directive {
    /// Open a definition: the next word names it.
    Define,
    /// Close the definition in progress.
    EndDefine,
}

/// What a native function does when it is called.
#[derive(Clone, Copy, PartialEq, Eq, Debug, Structural)]
pub enum Callback {
    /// An operation of the machine.
    VM(Primitive),
    /// An operation of the interpreter.
    Interpreter(Directive),
    /// Nothing.
    Null,
}

/// A named callable unit.
pub struct Function {
    /// The word that calls the function.
    pub name: String,
    /// The bytecode; empty for a native function.
    pub code: Vec<i8>,
    /// What a native function does.
    pub callback: Callback,
    /// Whether the word runs at once even in compile mode.
    pub immediate: bool,
}

/// The mathematical content of a [`Function`].
pub struct FunctionView {
    pub name: Seq<char>,
    pub code: Seq<i8>,
    pub callback: Callback,
    pub immediate: bool,
}

impl FunctionView {
    /// A function is never both native and interpreted.
    pub open spec fn wf(self) -> bool {
        self.code.len() > 0 ==> self.callback is Null
    }

    /// The entry that `add` creates: no code, no callback, not immediate.
    pub open spec fn stub(name: Seq<char>) -> FunctionView {
        FunctionView { name, code: Seq::empty(), callback: Callback::Null, immediate: false }
    }

    /// This function with more bytes at the end of its code.
    pub open spec fn extended(self, bytes: Seq<i8>) -> FunctionView {
        FunctionView { code: self.code + bytes, ..self }
    }
}

impl View for Function {
    type V = FunctionView;

    open spec fn view(&self) -> FunctionView {
        FunctionView {
            name: self.name@,
            code: self.code@,
            callback: self.callback,
            immediate: self.immediate,
        }
    }
}

impl Function {
    /// A new function without code or callback.
    pub fn new(name: String) -> (f: Function)
        ensures
            f@ == FunctionView::stub(name@),
            f@.wf(),
    {
        Function { name, code: Vec::new(), callback: Callback::Null, immediate: false }
    }

    /// Appends one byte to the code.
    pub fn push_int(&mut self, val: i8)
        requires
            old(self)@.callback is Null,
        ensures
            final(self)@ == old(self)@.extended(seq![val]),
            final(self)@.wf(),
    {
        self.code.push(val);
        assert(self.code@ =~= old(self).code@ + seq![val]);
    }

    /// Appends an opcode and its operand to the code.
    pub fn push_opcode(&mut self, opcode: i8, val: i8)
        requires
            old(self)@.callback is Null,
        ensures
            final(self)@ == old(self)@.extended(seq![opcode, val]),
            final(self)@.wf(),
    {
        self.code.push(opcode);
        self.code.push(val);
        assert(self.code@ =~= old(self).code@ + seq![opcode, val]);
    }
}

/// The index of the first function with the given name, if there is one.
pub open spec fn lookup(funcs: Seq<FunctionView>, name: Seq<char>) -> Option<int>
    decreases funcs.len(),
{
    if funcs.len() == 0 {
        None
    } else {
        match lookup(funcs.drop_last(), name) {
            Some(i) => Some(i),
            None => if funcs.last().name == name {
                Some(funcs.len() - 1)
            } else {
                None
            },
        }
    }
}

/// `lookup` finds an index exactly when it holds the first function of that
/// name, and finds none exactly when no function has the name.
pub proof fn lemma_lookup_first(funcs: Seq<FunctionView>, name: Seq<char>)
    ensures
        match lookup(funcs, name) {
            Some(i) => 0 <= i < funcs.len() && funcs[i].name == name && forall|j: int|
                0 <= j < i ==> (#[trigger] funcs[j]).name != name,
            None => forall|j: int| 0 <= j < funcs.len() ==> (#[trigger] funcs[j]).name != name,
        },
    decreases funcs.len(),
{
    if funcs.len() > 0 {
        let shorter = funcs.drop_last();
        lemma_lookup_first(shorter, name);
        match lookup(shorter, name) {
            Some(i) => {
                assert forall|j: int| 0 <= j < i implies (#[trigger] funcs[j]).name != name by {
                    assert(shorter[j] == funcs[j]);
                }
            },
            None => {
                assert forall|j: int| 0 <= j < funcs.len() - 1 implies (#[trigger] funcs[j]).name
                    != name by {
                    assert(shorter[j] == funcs[j]);
                }
            },
        }
    }
}

/// A match within a prefix of the list is the match within the whole list.
pub proof fn lemma_lookup_prefix(funcs: Seq<FunctionView>, name: Seq<char>, k: int)
    requires
        0 <= k <= funcs.len(),
        lookup(funcs.subrange(0, k), name) is Some,
    ensures
        lookup(funcs, name) == lookup(funcs.subrange(0, k), name),
    decreases funcs.len() - k,
{
    if k == funcs.len() {
        assert(funcs.subrange(0, k) =~= funcs);
    } else {
        assert(funcs.subrange(0, k + 1).drop_last() =~= funcs.subrange(0, k));
        lemma_lookup_prefix(funcs, name, k + 1);
    }
}

/// Appending a function changes no earlier match, and a name that was absent
/// is found at the new index exactly if the new function has it.
pub proof fn lemma_lookup_push(funcs: Seq<FunctionView>, f: FunctionView, name: Seq<char>)
    ensures
        lookup(funcs.push(f), name) == match lookup(funcs, name) {
            Some(i) => Some(i),
            None => if f.name == name {
                Some(funcs.len() as int)
            } else {
                None
            },
        },
{
    assert(funcs.push(f).drop_last() =~= funcs);
}

/// The dictionary: an append-only list of functions.
pub struct FunctionTable {
    /// The functions, in the order in which they were added.
    pub items: Vec<Function>,
}

/// The views of a list of functions, in order.
pub open spec fn views(items: Seq<Function>) -> Seq<FunctionView> {
    Seq::new(items.len(), |i: int| items[i]@)
}

impl View for FunctionTable {
    type V = Seq<FunctionView>;

    open spec fn view(&self) -> Seq<FunctionView> {
        views(self.items@)
    }
}

proof fn lemma_views_update(items: Seq<Function>, id: int, f: Function)
    requires
        0 <= id < items.len(),
    ensures
        views(items.update(id, f)) == views(items).update(id, f@),
{
    assert(views(items.update(id, f)) =~= views(items).update(id, f@));
}

/// Whether no function of the list is both native and interpreted.
pub open spec fn all_wf(funcs: Seq<FunctionView>) -> bool {
    forall|i: int| 0 <= i < funcs.len() ==> (#[trigger] funcs[i]).wf()
}

impl FunctionTable {
    /// An empty dictionary.
    pub fn new() -> (t: FunctionTable)
        ensures
            t@ == Seq::<FunctionView>::empty(),
    {
        let t = FunctionTable { items: Vec::new() };
        assert(t@ =~= Seq::<FunctionView>::empty());
        t
    }

    /// The function with the given id, for reading and changing; `None` where
    /// the id names no function. Whatever the caller writes through the
    /// reference becomes the entry at `id`; no other entry changes.
    pub fn get(&mut self, id: usize) -> (r: Option<&mut Function>)
        ensures
            id < old(self)@.len() ==> r is Some && (*r.unwrap())@ == old(self)@[id as int]
                && final(self)@ == old(self)@.update(id as int, (*final(r.unwrap()))@),
            id >= old(self)@.len() ==> r is None && final(self)@ == old(self)@,
    {
        if id < self.items.len() {
            proof {
                let items = self.items@;
                assert forall|f: Function| #[trigger]
                    views(items.update(id as int, f)) == views(items).update(id as int, f@) by {
                    lemma_views_update(items, id as int, f);
                }
            }
            Some(&mut self.items[id])
        } else {
            None
        }
    }

    /// Finds the first function with the given name, in insertion order.
    /// On a match, `id` receives its index; otherwise `id` is left alone.
    pub fn find(&self, name: String, id: &mut usize) -> (r: Option<&Function>)
        ensures
            match lookup(self@, name@) {
                Some(i) => r is Some && *final(id) == i && i < self@.len() && r.unwrap()@
                    == self@[i],
                None => r is None && *final(id) == *old(id),
            },
    {
        let n: usize = self.items.len();
        let mut i: usize = 0;
        while i < n
            invariant
                0 <= i <= n,
                n == self.items@.len(),
                n == self@.len(),
                lookup(self@.subrange(0, i as int), name@) is None,
                *id == *old(id),
            decreases n - i,
        {
            assert(self@.subrange(0, i + 1).drop_last() =~= self@.subrange(0, i as int));
            assert(self@.subrange(0, i + 1).last() == self.items@[i as int]@);
            if name == self.items[i].name {
                *id = i;
                proof {
                    lemma_lookup_prefix(self@, name@, i + 1);
                }
                return Some(&self.items[i]);
            }
            i = i + 1;
        }
        assert(self@.subrange(0, n as int) =~= self@);
        None
    }

    /// Appends a new function without code or callback and returns its id.
    pub fn add(&mut self, name: String) -> (id: usize)
        ensures
            id == old(self)@.len(),
            final(self)@ == old(self)@.push(FunctionView::stub(name@)),
            all_wf(old(self)@) ==> all_wf(final(self)@),
    {
        let f = Function::new(name);
        self.items.push(f);
        assert(self@ =~= old(self)@.push(FunctionView::stub(name@)));
        self.items.len() - 1
    }

    /// Attaches a native callback to a function that has no code.
    pub fn set_callback(&mut self, id: usize, call: Callback)
        requires
            id < old(self)@.len(),
            old(self)@[id as int].code.len() == 0,
        ensures
            final(self)@ == old(self)@.update(
                id as int,
                FunctionView { callback: call, ..old(self)@[id as int] },
            ),
            all_wf(old(self)@) ==> all_wf(final(self)@),
    {
        self.items[id].callback = call;
        assert(self@ =~= old(self)@.update(
            id as int,
            FunctionView { callback: call, ..old(self)@[id as int] },
        ));
    }
}

} // verus!
