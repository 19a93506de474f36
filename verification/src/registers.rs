//! Names of the thirty-two general-purpose registers.

use crate::decimal::digit_char;
use vstd::prelude::*;

verus! {

/// The conventional name of register `r`: `zero`, `at`, then the numbered
/// families `v`, `a`, `t`, `s` and `k`, then `gp`, `sp`, `fp` and `ra`. The
/// temporaries come in two runs, `t0` to `t7` at indices 8 to 15 and `t8`,
/// `t9` at indices 24 and 25.
pub open spec fn name_of_register(r: nat) -> Seq<char>
    recommends
        r < 32,
{
    if r == 0 {
        seq!['z', 'e', 'r', 'o']
    } else if r == 1 {
        seq!['a', 't']
    } else if 2 <= r <= 3 {
        seq!['v', digit_char((r - 2) as nat)]
    } else if 4 <= r <= 7 {
        seq!['a', digit_char((r - 4) as nat)]
    } else if 8 <= r <= 15 {
        seq!['t', digit_char((r - 8) as nat)]
    } else if 16 <= r <= 23 {
        seq!['s', digit_char((r - 16) as nat)]
    } else if 24 <= r <= 25 {
        seq!['t', digit_char((r - 16) as nat)]
    } else if 26 <= r <= 27 {
        seq!['k', digit_char((r - 26) as nat)]
    } else if r == 28 {
        seq!['g', 'p']
    } else if r == 29 {
        seq!['s', 'p']
    } else if r == 30 {
        seq!['f', 'p']
    } else {
        seq!['r', 'a']
    }
}

/// Register `r` as it is written in an operand: the sigil `$` and the
/// register's name.
pub open spec fn register_operand(r: nat) -> Seq<char>
    recommends
        r < 32,
{
    seq!['$'] + name_of_register(r)
}

/// No two registers share a name.
pub proof fn lemma_register_names_distinct(a: nat, b: nat)
    requires
        a < 32,
        b < 32,
        a != b,
    ensures
        name_of_register(a) != name_of_register(b),
        register_operand(a) != register_operand(b),
{
    let x = name_of_register(a);
    let y = name_of_register(b);
    assert(x[0] != y[0] || x[1] != y[1]);
    assert(register_operand(a)[1] == x[0] && register_operand(a)[2] == x[1]);
    assert(register_operand(b)[1] == y[0] && register_operand(b)[2] == y[1]);
}

/// The name of register `r`, or `None` when `r` is not a register index.
pub fn register_name(r: u32) -> (name: Option<String>)
    ensures
        name is Some <==> r < 32,
        name matches Some(text) ==> text@ == name_of_register(r as nat),
{
    let text: &'static str = match r {
        0 => "zero",
        1 => "at",
        2 => "v0",
        3 => "v1",
        4 => "a0",
        5 => "a1",
        6 => "a2",
        7 => "a3",
        8 => "t0",
        9 => "t1",
        10 => "t2",
        11 => "t3",
        12 => "t4",
        13 => "t5",
        14 => "t6",
        15 => "t7",
        16 => "s0",
        17 => "s1",
        18 => "s2",
        19 => "s3",
        20 => "s4",
        21 => "s5",
        22 => "s6",
        23 => "s7",
        24 => "t8",
        25 => "t9",
        26 => "k0",
        27 => "k1",
        28 => "gp",
        29 => "sp",
        30 => "fp",
        31 => "ra",
        _ => {
            return None;
        },
    };
    proof {
        reveal_strlit("zero");
        reveal_strlit("at");
        reveal_strlit("v0");
        reveal_strlit("v1");
        reveal_strlit("a0");
        reveal_strlit("a1");
        reveal_strlit("a2");
        reveal_strlit("a3");
        reveal_strlit("t0");
        reveal_strlit("t1");
        reveal_strlit("t2");
        reveal_strlit("t3");
        reveal_strlit("t4");
        reveal_strlit("t5");
        reveal_strlit("t6");
        reveal_strlit("t7");
        reveal_strlit("s0");
        reveal_strlit("s1");
        reveal_strlit("s2");
        reveal_strlit("s3");
        reveal_strlit("s4");
        reveal_strlit("s5");
        reveal_strlit("s6");
        reveal_strlit("s7");
        reveal_strlit("t8");
        reveal_strlit("t9");
        reveal_strlit("k0");
        reveal_strlit("k1");
        reveal_strlit("gp");
        reveal_strlit("sp");
        reveal_strlit("fp");
        reveal_strlit("ra");
    }
    Some(String::from_str(text))
}

} // verus!
