//! The SQL text of statements whose number of parameters depends on the
//! request: lists of tuples of numbered parameters `$1`, `$2`, ...
use crate::text::{decimal, push_decimal};
use vstd::prelude::*;

verus! {

/// The shape of one tuple of a list of numbered parameters; `i` counts
/// the tuples from 0.
#[derive(Debug, Clone, Copy, PartialEq, Eq, Structural)]
pub enum TupleShape {
    /// `($2i+1, $2i+2)`: two parameters per tuple.
    Pair,
    /// `($1, $i+2)`: the first parameter, shared, then one per tuple.
    SharedFirst,
    /// `($2i+2::smallint, $2i+3)`: two parameters per tuple after a shared
    /// first one, the first of them a small integer.
    SmallintPairAfterFirst,
    /// `($i+2)`: one parameter per tuple after a shared first one.
    SingleAfterFirst,
    /// `$i+2`: one bare parameter per element after a shared first one.
    BareAfterFirst,
}

/// The text `$n` of the `n`-th parameter.
pub open spec fn param(n: nat) -> Seq<char> {
    seq!['$'] + decimal(n)
}

/// The text of the `i`-th tuple of the given shape.
pub open spec fn tuple_text(shape: TupleShape, i: nat) -> Seq<char> {
    match shape {
        TupleShape::Pair => seq!['('] + param(2 * i + 1) + seq![',', ' '] + param(2 * i + 2) + seq![
            ')',
        ],
        TupleShape::SharedFirst => seq!['('] + param(1) + seq![',', ' '] + param(i + 2) + seq![')'],
        TupleShape::SmallintPairAfterFirst => seq!['('] + param(2 * i + 2) + seq![
            ':',
            ':',
            's',
            'm',
            'a',
            'l',
            'l',
            'i',
            'n',
            't',
            ',',
            ' ',
        ] + param(2 * i + 3) + seq![')'],
        TupleShape::SingleAfterFirst => seq!['('] + param(i + 2) + seq![')'],
        TupleShape::BareAfterFirst => param(i + 2),
    }
}

/// The separator written before the `i`-th tuple: a space before the
/// first, a comma before the others.
pub open spec fn separator(i: nat) -> char {
    if i == 0 { ' ' } else { ',' }
}

/// The list of the first `n` tuples of the given shape.
pub open spec fn tuple_list(shape: TupleShape, n: nat) -> Seq<char>
    decreases n,
{
    if n == 0 {
        Seq::empty()
    } else {
        let i = (n - 1) as nat;
        tuple_list(shape, i).push(separator(i)) + tuple_text(shape, i)
    }
}

/// The largest number of tuples that a statement of this library lists.
pub const MAX_TUPLES: usize = 0x1000_0000;

/// The largest number of tuples whose parameters can be numbered.
pub open spec fn max_tuples() -> nat {
    MAX_TUPLES as nat
}

fn push_param(s: &mut String, n: u64)
    ensures
        final(s)@ == old(s)@ + param(n as nat),
{
    proof {
        reveal_strlit("$");
    }
    s.append("$");
    push_decimal(s, n);
    proof {
        assert(final(s)@ =~= old(s)@ + param(n as nat));
    }
}

fn push_tuple(s: &mut String, shape: TupleShape, i: u64)
    requires
        i < max_tuples(),
    ensures
        final(s)@ == old(s)@ + tuple_text(shape, i as nat),
{
    proof {
        reveal_strlit("(");
        reveal_strlit(")");
        reveal_strlit(", ");
        reveal_strlit("::smallint, ");
    }
    let ghost start = s@;
    match shape {
        TupleShape::Pair => {
            s.append("(");
            push_param(s, 2 * i + 1);
            s.append(", ");
            push_param(s, 2 * i + 2);
            s.append(")");
        },
        TupleShape::SharedFirst => {
            s.append("(");
            push_param(s, 1);
            s.append(", ");
            push_param(s, i + 2);
            s.append(")");
        },
        TupleShape::SmallintPairAfterFirst => {
            s.append("(");
            push_param(s, 2 * i + 2);
            s.append("::smallint, ");
            push_param(s, 2 * i + 3);
            s.append(")");
        },
        TupleShape::SingleAfterFirst => {
            s.append("(");
            push_param(s, i + 2);
            s.append(")");
        },
        TupleShape::BareAfterFirst => {
            push_param(s, i + 2);
        },
    }
    proof {
        assert(s@ =~= start + tuple_text(shape, i as nat));
    }
}

/// Appends the list of `n` tuples of the given shape to `s`.
pub fn push_tuple_list(s: &mut String, shape: TupleShape, n: usize)
    requires
        n <= max_tuples(),
    ensures
        final(s)@ == old(s)@ + tuple_list(shape, n as nat),
{
    proof {
        reveal_strlit(" ");
        reveal_strlit(",");
    }
    let ghost start = s@;
    let mut i: usize = 0;
    while i < n
        invariant
            i <= n,
            n <= max_tuples(),
            s@ == start + tuple_list(shape, i as nat),
        decreases n - i,
    {
        let ghost before = s@;
        if i == 0 {
            s.append(" ");
            proof {
                reveal_strlit(" ");
                assert(" "@ =~= seq![separator(i as nat)]);
            }
        } else {
            s.append(",");
            proof {
                reveal_strlit(",");
                assert(","@ =~= seq![separator(i as nat)]);
            }
        }
        proof {
            assert(s@ =~= start + tuple_list(shape, i as nat).push(separator(i as nat)));
        }
        let ghost mid = s@;
        push_tuple(s, shape, i as u64);
        proof {
            assert(tuple_list(shape, (i + 1) as nat) == tuple_list(shape, i as nat).push(
                separator(i as nat),
            ) + tuple_text(shape, i as nat));
            assert(s@ == mid + tuple_text(shape, i as nat));
            assert(s@ =~= start + (tuple_list(shape, i as nat).push(separator(i as nat)) + tuple_text(shape, i as nat)));
        }
        i = i + 1;
    }
}

/// The statement `prefix`, then the list of `n` tuples of the given shape,
/// then `suffix`.
pub fn statement_with_tuples(prefix: &str, shape: TupleShape, n: usize, suffix: &str) -> (r: String)
    requires
        n <= max_tuples(),
    ensures
        r@ == prefix@ + tuple_list(shape, n as nat) + suffix@,
{
    let mut s: String = crate::text::string_of(prefix);
    push_tuple_list(&mut s, shape, n);
    s.append(suffix);
    s
}

/// The statement that tells whether `statement` selects any row.
pub fn exists_statement(statement: &str) -> (r: String)
    ensures
        r@ == "select exists ("@ + statement@ + ")"@,
{
    let mut s: String = crate::text::string_of("select exists (");
    s.append(statement);
    s.append(")");
    s
}

} // verus!
