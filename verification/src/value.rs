use vstd::prelude::*;

verus! {

/// A JSON document node: the input to the height calculator and the layout
/// engine.  A number keeps its original textual form; object entries keep
/// their insertion order, which is also the order they are rendered in.
#[derive(Debug)]
pub enum Value {
    Null,
    Bool(bool),
    Number(String),
    Text(String),
    Array(Vec<Value>),
    Object(Vec<(String, Value)>),
}

/// `n` capped at the largest value a `usize` can hold.
pub open spec fn cap_usize(n: nat) -> nat {
    if n <= usize::MAX as nat {
        n
    } else {
        usize::MAX as nat
    }
}

/// How many line-break characters occur in `s`.
pub open spec fn newline_count(s: Seq<char>) -> nat
    decreases s.len(),
{
    if s.len() == 0 {
        0
    } else {
        newline_count(s.subrange(0, s.len() - 1)) + if s[s.len() - 1] == '\n' {
            1nat
        } else {
            0nat
        }
    }
}

/// How many grid rows `v` occupies when rendered: scalars take one row (a
/// string takes one row per embedded line), and a non-empty container takes
/// the rows of its children plus one row for each of its two brackets.
pub open spec fn spec_height(v: Value) -> nat
    decreases v, 1int,
{
    match v {
        Value::Null => 1,
        Value::Bool(_) => 1,
        Value::Number(_) => 1,
        Value::Text(s) => newline_count(s@) + 1,
        Value::Array(elems) => if elems@.len() == 0 {
            1
        } else {
            heights_sum(elems@) + 2
        },
        Value::Object(entries) => if entries@.len() == 0 {
            1
        } else {
            entry_heights_sum(entries@) + 2
        },
    }
}

/// The sum of the heights of the values of `s`.
pub open spec fn heights_sum(s: Seq<Value>) -> nat
    decreases s, 0int,
{
    if s.len() == 0 {
        0
    } else {
        heights_sum(s.subrange(0, s.len() - 1)) + spec_height(s[s.len() - 1])
    }
}

/// The sum of the heights of the entry values of `s`.
pub open spec fn entry_heights_sum(s: Seq<(String, Value)>) -> nat
    decreases s, 0int,
{
    if s.len() == 0 {
        0
    } else {
        entry_heights_sum(s.subrange(0, s.len() - 1)) + spec_height(s[s.len() - 1].1)
    }
}

/// How many edit positions `v` contributes: one for each leaf and one for
/// each object key; a container contributes only through its descendants.
pub open spec fn spec_edit_count(v: Value) -> nat
    decreases v, 1int,
{
    match v {
        Value::Null => 1,
        Value::Bool(_) => 1,
        Value::Number(_) => 1,
        Value::Text(_) => 1,
        Value::Array(elems) => counts_sum(elems@),
        Value::Object(entries) => entry_counts_sum(entries@),
    }
}

/// The sum of the edit counts of the values of `s`.
pub open spec fn counts_sum(s: Seq<Value>) -> nat
    decreases s, 0int,
{
    if s.len() == 0 {
        0
    } else {
        counts_sum(s.subrange(0, s.len() - 1)) + spec_edit_count(s[s.len() - 1])
    }
}

/// The sum over the entries of `s` of one (for the key) plus the edit count
/// of the entry's value.
pub open spec fn entry_counts_sum(s: Seq<(String, Value)>) -> nat
    decreases s, 0int,
{
    if s.len() == 0 {
        0
    } else {
        entry_counts_sum(s.subrange(0, s.len() - 1)) + 1 + spec_edit_count(s[s.len() - 1].1)
    }
}

/// Every value occupies at least one row.
pub proof fn lemma_height_at_least_one(v: Value)
    ensures
        spec_height(v) >= 1,
{
}

/// The height of an array is the sum of its children's heights plus two
/// bracket rows, or a single row when it is empty.
pub proof fn lemma_height_array(elems: Vec<Value>)
    ensures
        spec_height(Value::Array(elems)) == if elems@.len() == 0 {
            1nat
        } else {
            (heights_sum(elems@) + 2) as nat
        },
{
}

/// The height of an object is the sum of its entry values' heights plus two
/// bracket rows, or a single row when it is empty.
pub proof fn lemma_height_object(entries: Vec<(String, Value)>)
    ensures
        spec_height(Value::Object(entries)) == if entries@.len() == 0 {
            1nat
        } else {
            (entry_heights_sum(entries@) + 2) as nat
        },
{
}

/// An array's edit count is the sum of its children's edit counts: the
/// brackets themselves are never navigable.
pub proof fn lemma_edit_count_array(elems: Vec<Value>)
    ensures
        spec_edit_count(Value::Array(elems)) == counts_sum(elems@),
{
}

/// An object's edit count is the sum over its entries of one for the key
/// plus the edit count of the entry's value.
pub proof fn lemma_edit_count_object(entries: Vec<(String, Value)>)
    ensures
        spec_edit_count(Value::Object(entries)) == entry_counts_sum(entries@),
{
}

/// Addition on `usize` that stops at the largest representable value.
pub fn sat_add(a: usize, b: usize) -> (r: usize)
    ensures
        r as nat == cap_usize(a as nat + b as nat),
{
    if a <= usize::MAX - b {
        a + b
    } else {
        usize::MAX
    }
}

proof fn lemma_cap_add(x: nat, y: nat)
    ensures
        cap_usize(cap_usize(x) + cap_usize(y)) == cap_usize(x + y),
{
}

proof fn lemma_subrange_step<T>(s: Seq<T>, i: int)
    requires
        0 <= i < s.len(),
    ensures
        s.subrange(0, i + 1).subrange(0, i) =~= s.subrange(0, i),
        s.subrange(0, i + 1)[i] == s[i],
        s.subrange(0, i + 1).len() == i + 1,
{
}

/// How many grid rows `v` occupies when rendered, capped at `usize::MAX`.
pub fn height(v: &Value) -> (h: usize)
    ensures
        h as nat == cap_usize(spec_height(*v)),
    decreases v,
{
    match v {
        Value::Null => 1,
        Value::Bool(_) => 1,
        Value::Number(_) => 1,
        Value::Text(s) => {
            let n: usize = s.as_str().unicode_len();
            let mut breaks: usize = 0;
            for i in 0..n
                invariant
                    n == s@.len(),
                    breaks as nat == newline_count(s@.subrange(0, i as int)),
                    breaks <= i,
            {
                proof {
                    lemma_subrange_step(s@, i as int);
                }
                if s.as_str().get_char(i) == '\n' {
                    breaks = breaks + 1;
                }
            }
            proof {
                assert(s@.subrange(0, n as int) =~= s@);
            }
            sat_add(breaks, 1)
        },
        Value::Array(elems) => {
            if elems.len() == 0 {
                1
            } else {
                let mut total: usize = 2;
                for i in 0..elems.len()
                    invariant
                        decreases_to!(*v => elems@),
                        total as nat == cap_usize(2 + heights_sum(elems@.subrange(0, i as int))),
                {
                    proof {
                        assert(decreases_to!(*v => elems@[i as int]));
                    }
                    let hc: usize = height(&elems[i]);
                    proof {
                        lemma_subrange_step(elems@, i as int);
                        lemma_cap_add(
                            2 + heights_sum(elems@.subrange(0, i as int)),
                            spec_height(elems@[i as int]),
                        );
                    }
                    total = sat_add(total, hc);
                }
                proof {
                    assert(elems@.subrange(0, elems@.len() as int) =~= elems@);
                }
                total
            }
        },
        Value::Object(entries) => {
            if entries.len() == 0 {
                1
            } else {
                let mut total: usize = 2;
                for i in 0..entries.len()
                    invariant
                        decreases_to!(*v => entries@),
                        total as nat == cap_usize(
                            2 + entry_heights_sum(entries@.subrange(0, i as int)),
                        ),
                {
                    proof {
                        assert(decreases_to!(*v => entries@[i as int].1));
                    }
                    let hc: usize = height(&entries[i].1);
                    proof {
                        lemma_subrange_step(entries@, i as int);
                        lemma_cap_add(
                            2 + entry_heights_sum(entries@.subrange(0, i as int)),
                            spec_height(entries@[i as int].1),
                        );
                    }
                    total = sat_add(total, hc);
                }
                proof {
                    assert(entries@.subrange(0, entries@.len() as int) =~= entries@);
                }
                total
            }
        },
    }
}

/// How many edit positions `v` contributes, capped at `usize::MAX`.
pub fn edit_count(v: &Value) -> (c: usize)
    ensures
        c as nat == cap_usize(spec_edit_count(*v)),
    decreases v,
{
    match v {
        Value::Null => 1,
        Value::Bool(_) => 1,
        Value::Number(_) => 1,
        Value::Text(_) => 1,
        Value::Array(elems) => {
            let mut total: usize = 0;
            for i in 0..elems.len()
                invariant
                    decreases_to!(*v => elems@),
                    total as nat == cap_usize(counts_sum(elems@.subrange(0, i as int))),
            {
                proof {
                    assert(decreases_to!(*v => elems@[i as int]));
                }
                let c: usize = edit_count(&elems[i]);
                proof {
                    lemma_subrange_step(elems@, i as int);
                    lemma_cap_add(
                        counts_sum(elems@.subrange(0, i as int)),
                        spec_edit_count(elems@[i as int]),
                    );
                }
                total = sat_add(total, c);
            }
            proof {
                assert(elems@.subrange(0, elems@.len() as int) =~= elems@);
            }
            total
        },
        Value::Object(entries) => {
            let mut total: usize = 0;
            for i in 0..entries.len()
                invariant
                    decreases_to!(*v => entries@),
                    total as nat == cap_usize(entry_counts_sum(entries@.subrange(0, i as int))),
            {
                proof {
                    assert(decreases_to!(*v => entries@[i as int].1));
                }
                let c: usize = edit_count(&entries[i].1);
                proof {
                    lemma_subrange_step(entries@, i as int);
                    lemma_cap_add(
                        entry_counts_sum(entries@.subrange(0, i as int)),
                        1 + spec_edit_count(entries@[i as int].1),
                    );
                    lemma_cap_add(spec_edit_count(entries@[i as int].1), 1);
                }
                let c1: usize = sat_add(c, 1);
                total = sat_add(total, c1);
            }
            proof {
                assert(entries@.subrange(0, entries@.len() as int) =~= entries@);
            }
            total
        },
    }
}

} // verus!
