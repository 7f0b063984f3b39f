//! Payloads and the caller-supplied operator of reducer channels.

use vstd::prelude::*;

verus! {

/// A payload word. The engine stores, copies and routes payloads and never looks
/// inside one; a host with richer payloads keeps them in a table of its own and
/// hands the engine the table's indices.
pub type Value = i64;

/// Tag for the type of the payloads that a channel carries. The engine only stores it.
pub type TypeTag = u64;

/// The tag of a channel that was built without one.
pub const UNTYPED: TypeTag = 0;

/// The result that `op` gives for operator `code` on `a` and `b`, if it is determined.
pub open spec fn op_value<F: Fn(u64, Value, Value) -> Value>(op: F, code: u64, a: Value, b: Value) -> Value {
    choose|r: Value| call_ensures(op, (code, a, b), r)
}

/// `op` can be called on every input and its result depends on its arguments alone.
pub open spec fn is_operator<F: Fn(u64, Value, Value) -> Value>(op: F) -> bool {
    &&& forall|code: u64, a: Value, b: Value| call_requires(op, (code, a, b))
    &&& forall|code: u64, a: Value, b: Value, r: Value| #[trigger]
        call_ensures(op, (code, a, b), r) ==> r == op_value(op, code, a, b)
}

/// The mathematical function that an operator computes.
pub open spec fn operator_of<F: Fn(u64, Value, Value) -> Value>(op: F) -> spec_fn(u64, Value, Value) -> Value {
    |code: u64, a: Value, b: Value| op_value(op, code, a, b)
}

/// Left fold of `items` into `acc` with operator `code` of `f`.
pub open spec fn fold_with(f: spec_fn(u64, Value, Value) -> Value, code: u64, acc: Value, items: Seq<Value>) -> Value
    decreases items.len(),
{
    if items.len() == 0 {
        acc
    } else {
        fold_with(f, code, f(code, acc, items[0]), items.drop_first())
    }
}

/// Folds `items` from position `from` on into `acc`.
pub(crate) fn fold_from<F: Fn(u64, Value, Value) -> Value>(
    op: &F,
    code: u64,
    acc: Value,
    items: &Vec<Value>,
    from: usize,
) -> (out: Value)
    requires
        is_operator(*op),
        from <= items.len(),
    ensures
        out == fold_with(operator_of(*op), code, acc, items@.skip(from as int)),
{
    let ghost f = operator_of(*op);
    let mut cur: Value = acc;
    let mut i: usize = from;
    while i < items.len()
        invariant
            from <= i <= items.len(),
            is_operator(*op),
            f == operator_of(*op),
            fold_with(f, code, cur, items@.skip(i as int)) == fold_with(
                f,
                code,
                acc,
                items@.skip(from as int),
            ),
        decreases items.len() - i,
    {
        assert(items@.skip(i as int).drop_first() =~= items@.skip(i + 1));
        assert(items@.skip(i as int)[0] == items@[i as int]);
        cur = op(code, cur, items[i]);
        i = i + 1;
    }
    assert(items@.skip(i as int) =~= Seq::<Value>::empty());
    cur
}

/// The rows of a table as sequences.
pub open spec fn rows<T>(table: Vec<Vec<T>>) -> Seq<Seq<T>> {
    Seq::new(table@.len(), |i: int| table@[i]@)
}

/// A copy of a list.
pub fn copy_list<T: Copy>(row: &Vec<T>) -> (out: Vec<T>)
    ensures
        out@ == row@,
{
    let mut out: Vec<T> = Vec::new();
    let mut c: usize = 0;
    while c < row.len()
        invariant
            c <= row@.len(),
            out@ == row@.take(c as int),
        decreases row@.len() - c,
    {
        out.push(row[c]);
        assert(row@.take(c + 1) =~= row@.take(c as int).push(row@[c as int]));
        c = c + 1;
    }
    assert(row@.take(c as int) =~= row@);
    out
}

/// A copy of a table.
pub fn copy_table<T: Copy>(table: &Vec<Vec<T>>) -> (out: Vec<Vec<T>>)
    ensures
        rows(out) == rows(*table),
{
    let mut out: Vec<Vec<T>> = Vec::new();
    let mut n: usize = 0;
    while n < table.len()
        invariant
            n <= table@.len(),
            out@.len() == n,
            forall|i: int| 0 <= i < n ==> (#[trigger] out@[i])@ == table@[i]@,
        decreases table@.len() - n,
    {
        out.push(copy_list(&table[n]));
        n = n + 1;
    }
    assert(rows(out) =~~= rows(*table));
    out
}

} // verus!
