//! Properties of the translation that relate several calls or several inputs.

use vstd::prelude::*;
use crate::codegen::{false_label, pointer_register, set_label, true_label};
use crate::command::translates;
use crate::command::Command;
use crate::hack::indexed;
use crate::machine::{Machine, cell_address};
use crate::operations::{Segment, segment_symbol};
use crate::text::{decimal, lemma_decimal_injective};

verus! {

/// Two indexed names with the same base are equal only for equal indices.
proof fn lemma_indexed_same_base(base: Seq<char>, a: nat, b: nat)
    requires
        indexed(base, a) == indexed(base, b),
    ensures
        a == b,
{
    reveal_strlit("_");
    let k = base.len() + 1;
    assert(indexed(base, a).subrange(k as int, indexed(base, a).len() as int) =~= decimal(a));
    assert(indexed(base, b).subrange(k as int, indexed(base, b).len() as int) =~= decimal(b));
    lemma_decimal_injective(a, b);
}

/// The labels of the comparison at index `a` and those of the comparison at index `b`:
/// the three of one comparison differ from each other, and, for different indices,
/// each of one differs from each of the other.
pub proof fn lemma_comparison_labels_unique(a: nat, b: nat)
    ensures
        true_label(a) != false_label(a),
        true_label(a) != set_label(a),
        false_label(a) != set_label(a),
        a != b ==> true_label(a) != true_label(b),
        a != b ==> false_label(a) != false_label(b),
        a != b ==> set_label(a) != set_label(b),
        true_label(a) != false_label(b),
        true_label(a) != set_label(b),
        false_label(a) != set_label(b),
        false_label(a) != true_label(b),
        set_label(a) != true_label(b),
        set_label(a) != false_label(b),
{
    reveal_strlit("RESULT_TRUE");
    reveal_strlit("RESULT_FALSE");
    reveal_strlit("RESULT_SET");
    reveal_strlit("_");
    assert forall|x: nat, y: nat| true_label(x)[7] != false_label(y)[7]
        && true_label(x)[7] != set_label(y)[7] && false_label(x)[7] != set_label(y)[7] by {
        assert(true_label(x)[7] == 'T');
        assert(false_label(y)[7] == 'F');
        assert(false_label(x)[7] == 'F');
        assert(set_label(y)[7] == 'S');
    }
    if a != b {
        if true_label(a) == true_label(b) {
            lemma_indexed_same_base("RESULT_TRUE"@, a, b);
        }
        if false_label(a) == false_label(b) {
            lemma_indexed_same_base("RESULT_FALSE"@, a, b);
        }
        if set_label(a) == set_label(b) {
            lemma_indexed_same_base("RESULT_SET"@, a, b);
        }
    }
}

/// Cell 0 of the pointer segment is the base register of `this`, cell 1 that of `that`:
/// the same symbol, so the same address in every state.
pub proof fn lemma_pointer_aliases(m: Machine, sym: spec_fn(Seq<char>) -> int, unit: Seq<char>)
    ensures
        pointer_register(0) == segment_symbol(Segment::This),
        pointer_register(1) == segment_symbol(Segment::That),
        cell_address(m, sym, Segment::Pointer, 0, unit) == sym(segment_symbol(Segment::This)),
        cell_address(m, sym, Segment::Pointer, 1, unit) == sym(segment_symbol(Segment::That)),
{
}

/// Translating the same line at the same index in the same unit twice gives the same
/// result: both hold an instruction or neither does, with the same lines.
pub proof fn lemma_translation_deterministic(c1: Command, c2: Command, line: Seq<char>, n: nat, unit: Seq<char>)
    requires
        translates(c1, line, n, unit),
        translates(c2, line, n, unit),
    ensures
        c1.valid() == c2.valid(),
        c1.lines() == c2.lines() || (!c1.valid() && !c2.valid()),
{
}

} // verus!
