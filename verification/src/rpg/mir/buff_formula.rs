//! Buff formulae: lines such as `strength += 2 * level` that change a stat.

use vstd::prelude::*;

use crate::text::{
    chars_range, chars_to_string, find_chars, find_first, lemma_find_from_facts,
    lowercase_text, str_to_chars, str_to_lowercase, trim, trim_chars,
};

verus! {

broadcast use vstd::string::group_string_axioms;

/// A formula read into the stat it changes, its operator and the expression.
pub struct ParsedFormula {
    pub target: String,
    pub op: String,
    pub expr: String,
}

/// The operators a formula may use, in the order they are tried.
pub open spec fn formula_operators() -> Seq<Seq<char>> {
    seq!["+="@, "-="@, "*="@, "/="@]
}

/// The formula read with operator `op`: at the first occurrence of `op`, not
/// at the very start, with a non-empty target before it (trimmed, then
/// lowercased; lowercasing keeps text non-empty) and a non-empty expression
/// (trimmed) after it.
pub open spec fn formula_with(formula: Seq<char>, op: Seq<char>) -> Option<
    (Seq<char>, Seq<char>, Seq<char>),
> {
    match find_first(formula, op) {
        Some(i) => if i > 0 {
            let target = lowercase_text(trim(formula.take(i as int)));
            let expr = trim(formula.skip((i + op.len()) as int));
            if trim(formula.take(i as int)).len() > 0 && expr.len() > 0 {
                Some((target, op, expr))
            } else {
                None
            }
        } else {
            None
        },
        None => None,
    }
}

/// The formula read with the first operator that gives a reading.
pub open spec fn parsed_formula(formula: Seq<char>) -> Option<(Seq<char>, Seq<char>, Seq<char>)> {
    let ops = formula_operators();
    if formula_with(formula, ops[0]) is Some {
        formula_with(formula, ops[0])
    } else if formula_with(formula, ops[1]) is Some {
        formula_with(formula, ops[1])
    } else if formula_with(formula, ops[2]) is Some {
        formula_with(formula, ops[2])
    } else {
        formula_with(formula, ops[3])
    }
}

fn parse_with(v: &Vec<char>, op: &str) -> (r: Option<ParsedFormula>)
    ensures
        match r {
            Some(p) => formula_with(v@, op@) == Some((p.target@, p.op@, p.expr@)) && p.target@.len()
                > 0,
            None => formula_with(v@, op@) is None,
        },
{
    let o = str_to_chars(op);
    match find_chars(v, &o) {
        None => None,
        Some(idx) => {
            if idx == 0 {
                return None;
            }
            proof {
                lemma_find_from_facts(v@, o@, 0);
                assert(crate::text::find_first(v@, o@) == crate::text::find_from(v@, o@, 0));
                assert(crate::text::occurs_at(v@, o@, idx as int));
                assert(idx + o@.len() <= v@.len());
            }
            assert(o@.len() == o.len());
            assert(idx + o.len() <= v.len());
            let before = chars_range(v, 0, idx);
            let after = chars_range(v, idx + o.len(), v.len());
            assert(before@ == v@.take(idx as int));
            assert(after@ == v@.skip(idx + o@.len()));
            let t = trim_chars(&before);
            let ts = chars_to_string(&t);
            let target = str_to_lowercase(ts.as_str());
            let e = trim_chars(&after);
            let expr = chars_to_string(&e);
            if target.as_str().is_empty() || expr.as_str().is_empty() {
                return None;
            }
            Some(ParsedFormula { target, op: chars_to_string(&o), expr })
        },
    }
}

/// Reads a formula: the stat it changes, the operator (`+=`, `-=`, `*=` or
/// `/=`, tried in that order) and the expression (see `parsed_formula`).
pub fn parse_formula(formula: &str) -> (r: Option<ParsedFormula>)
    ensures
        match r {
            Some(p) => parsed_formula(formula@) == Some((p.target@, p.op@, p.expr@))
                && p.target@.len() > 0,
            None => parsed_formula(formula@) is None,
        },
{
    let v = str_to_chars(formula);
    match parse_with(&v, "+=") {
        Some(p) => {
            return Some(p);
        },
        None => {},
    }
    match parse_with(&v, "-=") {
        Some(p) => {
            return Some(p);
        },
        None => {},
    }
    match parse_with(&v, "*=") {
        Some(p) => {
            return Some(p);
        },
        None => {},
    }
    parse_with(&v, "/=")
}

/// A formula that reads has one of the four operators, a non-empty
/// expression, and a target that is the lowercase of non-empty text.
pub proof fn parsed_formulas_are_well_formed(formula: Seq<char>)
    ensures
        parsed_formula(formula) matches Some((t, op, e)) ==> formula_operators().contains(op)
            && e.len() > 0 && exists|x: Seq<char>| x.len() > 0 && t == #[trigger] lowercase_text(x),
{
    let ops = formula_operators();
    if let Some((t, op, e)) = parsed_formula(formula) {
        let k = if formula_with(formula, ops[0]) is Some {
            0int
        } else if formula_with(formula, ops[1]) is Some {
            1int
        } else if formula_with(formula, ops[2]) is Some {
            2int
        } else {
            3int
        };
        assert(op == ops[k]);
        let i = find_first(formula, ops[k]).unwrap();
        let x = trim(formula.take(i as int));
        assert(x.len() > 0 && t == lowercase_text(x));
    }
}

} // verus!
