//! The strategy selector: the single command-line argument that picks one of
//! the three bridging strategies, and the labels under which each strategy's
//! task logs its counter.

use vstd::prelude::*;

verus! {

/// The three bridging strategies a caller may select.
#[derive(Clone, Copy, PartialEq, Eq, Structural, Debug)]
pub enum Case {
    /// Naive same-thread blocking: starves the worker it blocks.
    A,
    /// Same-thread blocking after a declare-intent-to-block notice: safe on a
    /// pool of at least two workers.
    B,
    /// Cross-thread delegation: safe on any pool.
    C,
}

/// The selector, if any, that an argument string denotes: exactly `a`, `b`
/// or `c`, and nothing else.
pub open spec fn case_for(s: Seq<char>) -> Option<Case> {
    if s.len() == 1 && s[0] == 'a' {
        Some(Case::A)
    } else if s.len() == 1 && s[0] == 'b' {
        Some(Case::B)
    } else if s.len() == 1 && s[0] == 'c' {
        Some(Case::C)
    } else {
        None
    }
}

/// Parses the command-line selector. Returns the selected strategy for the
/// strings `a`, `b` and `c`, and `None` for every other string.
pub fn parse_case(s: &str) -> (r: Option<Case>)
    ensures
        r == case_for(s@),
{
    if s.unicode_len() == 1 {
        let c = s.get_char(0);
        if c == 'a' {
            Some(Case::A)
        } else if c == 'b' {
            Some(Case::B)
        } else if c == 'c' {
            Some(Case::C)
        } else {
            None
        }
    } else {
        None
    }
}

/// The label under which each strategy's task logs its counter.
pub open spec fn label_for(c: Case) -> Seq<char> {
    match c {
        Case::A => seq!['A'],
        Case::B => seq!['B'],
        Case::C => seq!['C'],
    }
}

/// The label of the task a strategy drives: `A`, `B` or `C`.
pub fn label(c: Case) -> (r: &'static str)
    ensures
        r@ == label_for(c),
{
    proof {
        reveal_strlit("A");
        reveal_strlit("B");
        reveal_strlit("C");
    }
    match c {
        Case::A => {
            proof {
                assert("A"@ =~= seq!['A']);
            }
            "A"
        },
        Case::B => {
            proof {
                assert("B"@ =~= seq!['B']);
            }
            "B"
        },
        Case::C => {
            proof {
                assert("C"@ =~= seq!['C']);
            }
            "C"
        },
    }
}

/// The label under which the baseline task logs its counter.
pub fn baseline_label() -> (r: &'static str)
    ensures
        r@ == seq!['m', 'a', 'i', 'n'],
{
    proof {
        reveal_strlit("main");
        assert("main"@ =~= seq!['m', 'a', 'i', 'n']);
    }
    "main"
}

/// The usage line printed when the selector is missing or unrecognized.
pub fn usage() -> (r: &'static str)
    ensures
        r@ == seq!['U', 's', 'a', 'g', 'e', ':', ' ', '.', '/', 'r', 'u', 'n', '.', 's', 'h', ' ', 'c', 'a', 's', 'e'],
{
    proof {
        reveal_strlit("Usage: ./run.sh case");
        assert("Usage: ./run.sh case"@ =~= seq![
            'U', 's', 'a', 'g', 'e', ':', ' ', '.', '/', 'r', 'u', 'n', '.', 's', 'h', ' ', 'c', 'a', 's', 'e',
        ]);
    }
    "Usage: ./run.sh case"
}

} // verus!
