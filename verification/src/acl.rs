//! The ruleset language for version access control: a wildcard or a
//! boolean expression over version comparisons and suffix-class
//! predicates, with `$v` standing for the version under evaluation.
//!
//! The grammar, with whitespace ignored between tokens:
//!
//! ```text
//! ruleset   := "*" | expr
//! expr      := and | or | sub
//! and       := sub ("&&" sub)+
//! or        := sub ("||" sub)+
//! sub       := "(" expr ")"
//!            | "$v" "~"  suffixkind
//!            | "$v" "!~" suffixkind
//!            | vterm "!=" vterm
//!            | vterm rel vterm rel vterm
//!            | vterm rel vterm
//!            | vterm "=" vterm
//! vterm     := "$v" | version
//! rel       := "<" | "<=" | ">" | ">="
//! ```
//!
//! `&&` and `||` do not mix at the same nesting level without
//! parentheses. A ternary `a rel b rel c` desugars to
//! `(a rel b) && (b rel c)`. `>` and `>=` canonicalize by swapping the
//! operands of `<`; `>=` and `<=` become a negated `<`; `!=` becomes a
//! negated `=`.

use vstd::prelude::*;
use vstd::slice::slice_subrange;
use crate::text::{spec_skip_ws, ws};
use crate::version::{SuffixType, Version};
use crate::version::syntax::{spec_parse_suffix_type, spec_parse_version};

verus! {

/// A version term: the placeholder `$v` or a concrete version.
#[derive(Debug, Eq, PartialEq, Clone, Copy, Structural)]
pub enum V {
    VersionInput,
    Version(Version),
}

/// A relational comparison operator.
#[derive(Debug, Eq, PartialEq, Clone, Copy, Structural)]
pub enum Relation {
    GreaterOrEquals,
    Greater,
    LessOrEquals,
    Less,
}

/// A boolean expression over version terms.
#[derive(Debug)]
pub enum Expression {
    Not(Box<Expression>),
    And(Box<Expression>, Box<Expression>),
    Or(Box<Expression>, Box<Expression>),
    Equals(V, V),
    Less(V, V),
    Like(SuffixType),
}

/// A ruleset: the wildcard `*`, which every version passes, or an
/// expression.
#[derive(Debug)]
pub enum Ruleset {
    Star,
    Expression(Expression),
}

/// The version a term stands for once the subject version is bound.
pub open spec fn spec_subst(x: V, subject: Version) -> Version {
    match x {
        V::VersionInput => subject,
        V::Version(w) => w,
    }
}

impl Expression {
    /// Well-formed: no comparison has the placeholder on both sides.
    /// Evaluating such a comparison would be meaningless; the parser can
    /// produce one only from a degenerate input such as `$v = $v`.
    pub open spec fn wf(self) -> bool
        decreases self,
    {
        match self {
            Expression::Not(e) => e.wf(),
            Expression::And(e1, e2) => e1.wf() && e2.wf(),
            Expression::Or(e1, e2) => e1.wf() && e2.wf(),
            Expression::Equals(a, b) => !(a is VersionInput && b is VersionInput),
            Expression::Less(a, b) => !(a is VersionInput && b is VersionInput),
            Expression::Like(_) => true,
        }
    }

    /// The truth value of the expression on a subject version.
    pub open spec fn spec_eval(self, subject: Version) -> bool
        decreases self,
    {
        match self {
            Expression::Not(e) => !e.spec_eval(subject),
            Expression::And(e1, e2) => e1.spec_eval(subject) && e2.spec_eval(subject),
            Expression::Or(e1, e2) => e1.spec_eval(subject) || e2.spec_eval(subject),
            Expression::Equals(a, b) => spec_subst(a, subject) == spec_subst(b, subject),
            Expression::Less(a, b) => spec_subst(a, subject).spec_lt(spec_subst(b, subject)),
            Expression::Like(t) => match subject.suffix {
                Some(s) => s.ty == t,
                None => false,
            },
        }
    }

    /// Evaluates the expression against a subject version.
    pub fn evaluate(&self, v: &Version) -> (r: bool)
        requires
            self.wf(),
        ensures
            r == self.spec_eval(*v),
        decreases *self,
    {
        match self {
            Expression::Not(e) => !e.evaluate(v),
            Expression::And(e1, e2) => e1.evaluate(v) && e2.evaluate(v),
            Expression::Or(e1, e2) => e1.evaluate(v) || e2.evaluate(v),
            Expression::Equals(a, b) => {
                let v1 = match a {
                    V::VersionInput => *v,
                    V::Version(w) => *w,
                };
                let v2 = match b {
                    V::VersionInput => *v,
                    V::Version(w) => *w,
                };
                v1 == v2
            },
            Expression::Less(a, b) => {
                let v1 = match a {
                    V::VersionInput => *v,
                    V::Version(w) => *w,
                };
                let v2 = match b {
                    V::VersionInput => *v,
                    V::Version(w) => *w,
                };
                v1.lt(&v2)
            },
            Expression::Like(t) => match v.suffix() {
                Some(s) => s.ty() == *t,
                None => false,
            },
        }
    }

    /// Decides well-formedness.
    pub fn check_wf(&self) -> (r: bool)
        ensures
            r == self.wf(),
        decreases *self,
    {
        match self {
            Expression::Not(e) => e.check_wf(),
            Expression::And(e1, e2) => e1.check_wf() && e2.check_wf(),
            Expression::Or(e1, e2) => e1.check_wf() && e2.check_wf(),
            Expression::Equals(a, b) => !(matches!(a, V::VersionInput) && matches!(
                b,
                V::VersionInput,
            )),
            Expression::Less(a, b) => !(matches!(a, V::VersionInput) && matches!(
                b,
                V::VersionInput,
            )),
            Expression::Like(_) => true,
        }
    }
}

impl Ruleset {
    /// Well-formed: the expression, if any, is well-formed.
    pub open spec fn wf(self) -> bool {
        match self {
            Ruleset::Star => true,
            Ruleset::Expression(e) => e.wf(),
        }
    }

    /// The truth value of the ruleset on a subject version: the wildcard
    /// passes everything.
    pub open spec fn spec_eval(self, subject: Version) -> bool {
        match self {
            Ruleset::Star => true,
            Ruleset::Expression(e) => e.spec_eval(subject),
        }
    }

    /// Evaluates the ruleset against a subject version.
    pub fn evaluate(&self, v: &Version) -> (r: bool)
        requires
            self.wf(),
        ensures
            r == self.spec_eval(*v),
    {
        match self {
            Ruleset::Star => true,
            Ruleset::Expression(e) => e.evaluate(v),
        }
    }

    /// Decides well-formedness.
    pub fn check_wf(&self) -> (r: bool)
        ensures
            r == self.wf(),
    {
        match self {
            Ruleset::Star => true,
            Ruleset::Expression(e) => e.check_wf(),
        }
    }
}

/// The wildcard ruleset passes every version.
pub proof fn lemma_star_accepts_every_version(v: Version)
    ensures
        Ruleset::Star.spec_eval(v),
{
}

/// A suffix-class predicate is true exactly for versions whose suffix
/// carries that kind; a version without a suffix never passes it.
pub proof fn lemma_like_matches_suffix_kind(t: SuffixType, v: Version)
    ensures
        Expression::Like(t).spec_eval(v) == match v.suffix {
            Some(s) => s.ty == t,
            None => false,
        },
{
}

/// A disjunction of two equalities against the placeholder is true
/// exactly on those two versions.
pub proof fn lemma_equality_disjunction(a: Version, b: Version, v: Version)
    ensures
        Expression::Or(
            Box::new(Expression::Equals(V::VersionInput, V::Version(a))),
            Box::new(Expression::Equals(V::VersionInput, V::Version(b))),
        ).spec_eval(v) == (v == a || v == b),
{
    let e1 = Expression::Equals(V::VersionInput, V::Version(a));
    let e2 = Expression::Equals(V::VersionInput, V::Version(b));
    let both = Expression::Or(Box::new(e1), Box::new(e2));
    assert(both.spec_eval(v) == (e1.spec_eval(v) || e2.spec_eval(v)));
    assert(e1.spec_eval(v) == (v == a));
    assert(e2.spec_eval(v) == (v == b));
}

/// A sub-expression written `$v = D.0.0`, for one digit `D`, parses to
/// the equality of the placeholder with that version; whitespace after
/// it is consumed. The rest must not begin with a digit nor, after its
/// whitespace, with a suffix kind.
proof fn lemma_parse_eq_clause(d: u8, rest: Seq<u8>)
    requires
        d <= 9,
        rest.len() == 0 || !crate::text::is_digit(rest[0]),
        spec_parse_suffix_type(spec_skip_ws(rest)) is None,
    ensures
        spec_parse_sub(seq![36u8, 118u8, 32u8, 61u8, 32u8, (48 + d) as u8, 46u8, 48u8, 46u8, 48u8]
            + rest) == Some(
            (
                Expression::Equals(
                    V::VersionInput,
                    V::Version(Version { major: d as u32, minor: 0, patch: 0, suffix: None }),
                ),
                spec_skip_ws(rest),
            ),
        ),
{
    let u = seq![36u8, 118u8, 32u8, 61u8, 32u8, (48 + d) as u8, 46u8, 48u8, 46u8, 48u8] + rest;
    let r1 = seq![61u8, 32u8, (48 + d) as u8, 46u8, 48u8, 46u8, 48u8] + rest;
    assert(u[0] == 36 && u[1] == 118);
    assert(u.skip(2)[0] == 32);
    assert(u.skip(2).skip(1) =~= r1);
    crate::text::lemma_skip_ws_no_space(r1);
    assert(spec_skip_ws(u.skip(2)) == r1);
    assert(r1[0] == 61);
    assert(spec_parse_vterm(u) == Some((V::VersionInput, u.skip(2))));
    assert(spec_parse_relation(u.skip(2)) is None);
    let w = seq![(48 + d) as u8, 46u8, 48u8, 46u8, 48u8] + rest;
    assert(r1.skip(1)[0] == 32);
    assert(r1.skip(1).skip(1) =~= w);
    crate::text::lemma_skip_ws_no_space(w);
    assert(spec_skip_ws(r1.skip(1)) == w);
    crate::version::syntax::lemma_parse_plain_version(d, 0, 0, rest);
    assert(w =~= seq![(48 + d) as u8, 46u8, 48u8, 46u8, 48u8] + rest);
    assert(spec_parse_version(w) == Some(
        (Version { major: d as u32, minor: 0, patch: 0, suffix: None }, spec_skip_ws(rest)),
    ));
    assert(w[0] != 36);
    assert(spec_parse_vterm(w) == Some(
        (
            V::Version(Version { major: d as u32, minor: 0, patch: 0, suffix: None }),
            spec_skip_ws(rest),
        ),
    ));
    assert(spec_parse_sub_comparisons(u) == Some(
        (
            Expression::Equals(
                V::VersionInput,
                V::Version(Version { major: d as u32, minor: 0, patch: 0, suffix: None }),
            ),
            spec_skip_ws(rest),
        ),
    ));
}

/// The ruleset written `$v = 1.0.0 || $v = 2.0.0` parses, is
/// well-formed, and is true exactly on the two versions it names: every
/// other version, suffixed variants of the two included, is refused.
#[verifier::rlimit(100)]
pub proof fn lemma_two_version_rule(v: Version)
    ensures
        ({
            let s = seq![
                36u8, 118u8, 32u8, 61u8, 32u8, 49u8, 46u8, 48u8, 46u8, 48u8, 32u8, 124u8, 124u8,
                32u8, 36u8, 118u8, 32u8, 61u8, 32u8, 50u8, 46u8, 48u8, 46u8, 48u8,
            ];
            match spec_parse_ruleset(s) {
                Some(rs) => rs.wf() && (rs.spec_eval(v) == (v == Version {
                    major: 1,
                    minor: 0,
                    patch: 0,
                    suffix: None,
                } || v == Version { major: 2, minor: 0, patch: 0, suffix: None })),
                None => false,
            }
        }),
{
    let one = Version { major: 1u32, minor: 0u32, patch: 0u32, suffix: None };
    let two = Version { major: 2u32, minor: 0u32, patch: 0u32, suffix: None };
    let eq1 = Expression::Equals(V::VersionInput, V::Version(one));
    let eq2 = Expression::Equals(V::VersionInput, V::Version(two));
    let s = seq![
        36u8, 118u8, 32u8, 61u8, 32u8, 49u8, 46u8, 48u8, 46u8, 48u8, 32u8, 124u8, 124u8, 32u8,
        36u8, 118u8, 32u8, 61u8, 32u8, 50u8, 46u8, 48u8, 46u8, 48u8,
    ];
    let tail = seq![
        32u8, 124u8, 124u8, 32u8, 36u8, 118u8, 32u8, 61u8, 32u8, 50u8, 46u8, 48u8, 46u8, 48u8,
    ];
    let p1 = seq![
        124u8, 124u8, 32u8, 36u8, 118u8, 32u8, 61u8, 32u8, 50u8, 46u8, 48u8, 46u8, 48u8,
    ];
    assert(tail[0] == 32);
    assert(tail.skip(1) =~= p1);
    crate::text::lemma_skip_ws_no_space(p1);
    assert(spec_skip_ws(tail) == p1);
    crate::version::syntax::lemma_suffix_type_none(p1);
    assert(s =~= seq![36u8, 118u8, 32u8, 61u8, 32u8, 49u8, 46u8, 48u8, 46u8, 48u8] + tail);
    lemma_parse_eq_clause(1, tail);
    assert(spec_parse_sub(s) == Some((eq1, p1)));
    crate::text::lemma_skip_ws_no_space(s);
    assert(spec_skip_ws(p1) == p1);
    assert(spec_parse_op_item(p1, 38) is None);
    assert(spec_parse_op_tail(p1, 38) == (Seq::<Expression>::empty(), p1));
    let u2 = seq![36u8, 118u8, 32u8, 61u8, 32u8, 50u8, 46u8, 48u8, 46u8, 48u8];
    assert(p1[0] == 124 && p1[1] == 124);
    assert(p1.skip(2)[0] == 32);
    assert(p1.skip(2).skip(1) =~= u2);
    crate::text::lemma_skip_ws_no_space(u2);
    assert(spec_skip_ws(p1.skip(2)) == u2);
    let empty = Seq::<u8>::empty();
    assert(u2 =~= seq![36u8, 118u8, 32u8, 61u8, 32u8, 50u8, 46u8, 48u8, 46u8, 48u8] + empty);
    crate::text::lemma_skip_ws_no_space(empty);
    crate::version::syntax::lemma_suffix_type_none(empty);
    lemma_parse_eq_clause(2, empty);
    assert(spec_parse_sub(u2) == Some((eq2, empty)));
    assert(spec_parse_op_item(p1, 124) == Some((eq2, empty)));
    assert(spec_parse_op_item(empty, 124) is None);
    assert(spec_parse_op_tail(empty, 124) == (Seq::<Expression>::empty(), empty));
    assert(spec_parse_op_tail(p1, 124) == (seq![eq2], empty)) by {
        assert(seq![eq2] + Seq::<Expression>::empty() =~= seq![eq2]);
    }
    assert(spec_fold_or(seq![eq2]) == eq2);
    let both = Expression::Or(Box::new(eq1), Box::new(eq2));
    assert(spec_parse_expr(s) == Some((both, empty)));
    assert(s[0] != 42);
    assert(spec_parse_ruleset(s) == Some(Ruleset::Expression(both)));
    assert(eq1.wf());
    assert(eq2.wf());
    assert(both.wf());
    lemma_equality_disjunction(one, two, v);
    assert(Ruleset::Expression(both).spec_eval(v) == both.spec_eval(v));
}

/// Ruleset evaluation is idempotent: any two evaluations of one ruleset
/// against one version yield the same boolean, since each equals the
/// ruleset's truth value on that version.
pub proof fn lemma_evaluate_idempotent(rs: &Ruleset, v: &Version, r1: bool, r2: bool)
    requires
        r1 == rs.spec_eval(*v),
        r2 == rs.spec_eval(*v),
    ensures
        r1 == r2,
{
}

/// What parsing a version term yields: `$v`, or a version.
pub open spec fn spec_parse_vterm(s: Seq<u8>) -> Option<(V, Seq<u8>)> {
    if s.len() >= 2 && s[0] == 36 && s[1] == 118 {
        Some((V::VersionInput, s.skip(2)))
    } else {
        match spec_parse_version(s) {
            Some((v, r)) => Some((V::Version(v), r)),
            None => None,
        }
    }
}

/// What parsing a relational operator yields, with whitespace skipped on
/// both sides: `<=`, `<`, `>=` or `>`, the two-byte forms first.
pub open spec fn spec_parse_relation(s: Seq<u8>) -> Option<(Relation, Seq<u8>)> {
    let s1 = spec_skip_ws(s);
    if s1.len() >= 2 && s1[0] == 60 && s1[1] == 61 {
        Some((Relation::LessOrEquals, spec_skip_ws(s1.skip(2))))
    } else if s1.len() >= 1 && s1[0] == 60 {
        Some((Relation::Less, spec_skip_ws(s1.skip(1))))
    } else if s1.len() >= 2 && s1[0] == 62 && s1[1] == 61 {
        Some((Relation::GreaterOrEquals, spec_skip_ws(s1.skip(2))))
    } else if s1.len() >= 1 && s1[0] == 62 {
        Some((Relation::Greater, spec_skip_ws(s1.skip(1))))
    } else {
        None
    }
}

/// The expression a relational comparison denotes: `>` and `>=` swap the
/// operands of `<`; the inclusive forms negate the opposite strict form.
pub open spec fn spec_expr_of_relation(v1: V, r: Relation, v2: V) -> Expression {
    match r {
        Relation::Greater => Expression::Less(v2, v1),
        Relation::GreaterOrEquals => Expression::Not(Box::new(Expression::Less(v1, v2))),
        Relation::Less => Expression::Less(v1, v2),
        Relation::LessOrEquals => Expression::Not(Box::new(Expression::Less(v2, v1))),
    }
}

/// What parsing a parenthesized or atomic sub-expression yields. The
/// alternatives are tried in the grammar's order; each starts over from
/// the whole input. The guards comparing lengths bound the recursion and
/// never fail on inputs a parser step has actually produced.
pub open spec fn spec_parse_sub(s: Seq<u8>) -> Option<(Expression, Seq<u8>)>
    decreases s.len(), 0int,
{
    let paren = if s.len() >= 1 && s[0] == 40 {
        match spec_parse_expr(s.skip(1)) {
            Some((e, r)) => if r.len() >= 1 && r[0] == 41 {
                Some((e, r.skip(1)))
            } else {
                None
            },
            None => None,
        }
    } else {
        None
    };
    if paren is Some {
        paren
    } else {
        let like = if s.len() >= 2 && s[0] == 36 && s[1] == 118 {
            let r1 = spec_skip_ws(s.skip(2));
            if r1.len() >= 1 && r1[0] == 126 {
                match spec_parse_suffix_type(spec_skip_ws(r1.skip(1))) {
                    Some((t, r3)) => Some((Expression::Like(t), r3)),
                    None => None,
                }
            } else {
                None
            }
        } else {
            None
        };
        if like is Some {
            like
        } else {
            let notlike = if s.len() >= 2 && s[0] == 36 && s[1] == 118 {
                let r1 = spec_skip_ws(s.skip(2));
                if r1.len() >= 2 && r1[0] == 33 && r1[1] == 126 {
                    match spec_parse_suffix_type(spec_skip_ws(r1.skip(2))) {
                        Some((t, r3)) => Some(
                            (Expression::Not(Box::new(Expression::Like(t))), r3),
                        ),
                        None => None,
                    }
                } else {
                    None
                }
            } else {
                None
            };
            if notlike is Some {
                notlike
            } else {
                spec_parse_sub_comparisons(s)
            }
        }
    }
}

/// The comparison alternatives of a sub-expression: `a != b`,
/// `a rel b rel c`, `a rel b`, `a = b`, in that order.
pub open spec fn spec_parse_sub_comparisons(s: Seq<u8>) -> Option<(Expression, Seq<u8>)> {
    match spec_parse_vterm(s) {
        None => None,
        Some((v1, r1)) => {
            let ne = spec_skip_ws(r1);
            let noteq = if ne.len() >= 2 && ne[0] == 33 && ne[1] == 61 {
                match spec_parse_vterm(spec_skip_ws(ne.skip(2))) {
                    Some((v2, r3)) => Some(
                        (Expression::Not(Box::new(Expression::Equals(v1, v2))), r3),
                    ),
                    None => None,
                }
            } else {
                None
            };
            if noteq is Some {
                noteq
            } else {
                let relforms = match spec_parse_relation(r1) {
                    Some((op1, r2)) => match spec_parse_vterm(r2) {
                        Some((v2, r3)) => {
                            let ternary = match spec_parse_relation(r3) {
                                Some((op2, r4)) => match spec_parse_vterm(r4) {
                                    Some((v3, r5)) => Some(
                                        (
                                            Expression::And(
                                                Box::new(spec_expr_of_relation(v1, op1, v2)),
                                                Box::new(spec_expr_of_relation(v2, op2, v3)),
                                            ),
                                            r5,
                                        ),
                                    ),
                                    None => None,
                                },
                                None => None,
                            };
                            if ternary is Some {
                                ternary
                            } else {
                                Some((spec_expr_of_relation(v1, op1, v2), r3))
                            }
                        },
                        None => None,
                    },
                    None => None,
                };
                if relforms is Some {
                    relforms
                } else {
                    if ne.len() >= 1 && ne[0] == 61 {
                        match spec_parse_vterm(spec_skip_ws(ne.skip(1))) {
                            Some((v2, r3)) => Some((Expression::Equals(v1, v2), r3)),
                            None => None,
                        }
                    } else {
                        None
                    }
                }
            }
        },
    }
}

/// One repetition item of a conjunction or disjunction: the doubled
/// operator byte between optional whitespace, then a sub-expression.
pub open spec fn spec_parse_op_item(s: Seq<u8>, op: u8) -> Option<(Expression, Seq<u8>)>
    decreases s.len(), 1int,
{
    let s1 = spec_skip_ws(s);
    if s1.len() >= 2 && s1[0] == op && s1[1] == op {
        let s2 = spec_skip_ws(s1.skip(2));
        if s2.len() <= s.len() {
            spec_parse_sub(s2)
        } else {
            None
        }
    } else {
        None
    }
}

/// The greedy repetition of operator items: the expressions parsed and
/// the input left over.
pub open spec fn spec_parse_op_tail(s: Seq<u8>, op: u8) -> (Seq<Expression>, Seq<u8>)
    decreases s.len(), 2int,
{
    match spec_parse_op_item(s, op) {
        Some((e, rest)) => if rest.len() < s.len() {
            let (list, r2) = spec_parse_op_tail(rest, op);
            (seq![e] + list, r2)
        } else {
            (seq![e], rest)
        },
        None => (Seq::<Expression>::empty(), s),
    }
}

/// A non-empty list of expressions folded into a left-nested
/// conjunction.
pub open spec fn spec_fold_and(list: Seq<Expression>) -> Expression
    decreases list.len(),
{
    if list.len() <= 1 {
        list[0]
    } else {
        Expression::And(Box::new(spec_fold_and(list.drop_last())), Box::new(list.last()))
    }
}

/// A non-empty list of expressions folded into a left-nested
/// disjunction.
pub open spec fn spec_fold_or(list: Seq<Expression>) -> Expression
    decreases list.len(),
{
    if list.len() <= 1 {
        list[0]
    } else {
        Expression::Or(Box::new(spec_fold_or(list.drop_last())), Box::new(list.last()))
    }
}

/// What parsing an expression yields: a conjunction, a disjunction, or a
/// bare sub-expression, tried in that order. `&&` and `||` cannot mix at
/// one level: the repetition stops at the other operator, and whatever
/// follows the parsed expression is left over.
pub open spec fn spec_parse_expr(s: Seq<u8>) -> Option<(Expression, Seq<u8>)>
    decreases s.len(), 3int,
{
    let s1 = spec_skip_ws(s);
    let first = if s1.len() <= s.len() {
        spec_parse_sub(s1)
    } else {
        None
    };
    match first {
        Some((e1, r)) => {
            let r1 = spec_skip_ws(r);
            if r1.len() <= s.len() {
                let (ands, r2) = spec_parse_op_tail(r1, 38);
                if ands.len() >= 1 {
                    Some((Expression::And(Box::new(e1), Box::new(spec_fold_and(ands))), r2))
                } else {
                    let (ors, r3) = spec_parse_op_tail(r1, 124);
                    if ors.len() >= 1 {
                        Some((Expression::Or(Box::new(e1), Box::new(spec_fold_or(ors))), r3))
                    } else {
                        spec_parse_sub(s)
                    }
                }
            } else {
                spec_parse_sub(s)
            }
        },
        None => spec_parse_sub(s),
    }
}

/// What parsing a ruleset yields: `*` alone, or an expression surrounded
/// by optional whitespace; the whole input must be consumed.
pub open spec fn spec_parse_ruleset(s: Seq<u8>) -> Option<Ruleset> {
    if s.len() >= 1 && s[0] == 42 {
        if s.len() == 1 {
            Some(Ruleset::Star)
        } else {
            None
        }
    } else {
        match spec_parse_expr(spec_skip_ws(s)) {
            Some((e, r)) => if spec_skip_ws(r).len() == 0 {
                Some(Ruleset::Expression(e))
            } else {
                None
            },
            None => None,
        }
    }
}

impl V {
    /// Parses a version term: `$v` or a version.
    pub fn parser(input: &[u8]) -> (r: Option<(V, &[u8])>)
        ensures
            match r {
                Some((x, rest)) => spec_parse_vterm(input@) == Some((x, rest@)),
                None => spec_parse_vterm(input@) is None,
            },
    {
        if input.len() >= 2 && input[0] == 36 && input[1] == 118 {
            return Some((V::VersionInput, slice_subrange(input, 2, input.len())));
        }
        match Version::parser(input) {
            Some((v, rest)) => Some((V::Version(v), rest)),
            None => None,
        }
    }
}

impl Relation {
    /// Parses a relational operator surrounded by optional whitespace.
    pub fn parser(input: &[u8]) -> (r: Option<(Relation, &[u8])>)
        ensures
            match r {
                Some((rel, rest)) => spec_parse_relation(input@) == Some((rel, rest@)),
                None => spec_parse_relation(input@) is None,
            },
    {
        let s1 = ws(input);
        if s1.len() >= 2 && s1[0] == 60 && s1[1] == 61 {
            return Some((Relation::LessOrEquals, ws(slice_subrange(s1, 2, s1.len()))));
        }
        if s1.len() >= 1 && s1[0] == 60 {
            return Some((Relation::Less, ws(slice_subrange(s1, 1, s1.len()))));
        }
        if s1.len() >= 2 && s1[0] == 62 && s1[1] == 61 {
            return Some((Relation::GreaterOrEquals, ws(slice_subrange(s1, 2, s1.len()))));
        }
        if s1.len() >= 1 && s1[0] == 62 {
            return Some((Relation::Greater, ws(slice_subrange(s1, 1, s1.len()))));
        }
        None
    }
}

/// Folds a non-empty list into a left-nested conjunction.
fn fold_and(list: Vec<Expression>) -> (r: Expression)
    requires
        list@.len() >= 1,
    ensures
        r == spec_fold_and(list@),
{
    let ghost whole = list@;
    let mut list = list;
    let mut acc = list.remove(0);
    let ghost mut done: Seq<Expression> = seq![acc];
    proof {
        assert(whole =~= done + list@);
    }
    while list.len() > 0
        invariant
            done.len() >= 1,
            whole =~= done + list@,
            acc == spec_fold_and(done),
        decreases list@.len(),
    {
        let e = list.remove(0);
        proof {
            assert(done.push(e).drop_last() =~= done);
            assert(done.push(e).last() == e);
        }
        acc = Expression::And(Box::new(acc), Box::new(e));
        proof {
            done = done.push(e);
            assert(whole =~= done + list@);
        }
    }
    proof {
        assert(done =~= whole);
    }
    acc
}

/// Folds a non-empty list into a left-nested disjunction.
fn fold_or(list: Vec<Expression>) -> (r: Expression)
    requires
        list@.len() >= 1,
    ensures
        r == spec_fold_or(list@),
{
    let ghost whole = list@;
    let mut list = list;
    let mut acc = list.remove(0);
    let ghost mut done: Seq<Expression> = seq![acc];
    proof {
        assert(whole =~= done + list@);
    }
    while list.len() > 0
        invariant
            done.len() >= 1,
            whole =~= done + list@,
            acc == spec_fold_or(done),
        decreases list@.len(),
    {
        let e = list.remove(0);
        proof {
            assert(done.push(e).drop_last() =~= done);
            assert(done.push(e).last() == e);
        }
        acc = Expression::Or(Box::new(acc), Box::new(e));
        proof {
            done = done.push(e);
            assert(whole =~= done + list@);
        }
    }
    proof {
        assert(done =~= whole);
    }
    acc
}

/// Parses one repetition item of a conjunction or disjunction.
fn parse_op_item(input: &[u8], op: u8) -> (r: Option<(Expression, &[u8])>)
    ensures
        match r {
            Some((e, rest)) => spec_parse_op_item(input@, op) == Some((e, rest@)),
            None => spec_parse_op_item(input@, op) is None,
        },
    decreases input@.len(), 1int,
{
    let s1 = ws(input);
    if s1.len() >= 2 && s1[0] == op && s1[1] == op {
        let s2 = ws(slice_subrange(s1, 2, s1.len()));
        proof {
            assert(s1@.subrange(2, s1@.len() as int) =~= s1@.skip(2));
        }
        if s2.len() <= input.len() {
            parse_sub(s2)
        } else {
            None
        }
    } else {
        None
    }
}

/// Parses the greedy repetition of operator items.
fn parse_op_tail<'a>(input: &'a [u8], op: u8) -> (r: (Vec<Expression>, &'a [u8]))
    ensures
        ({
            let (list, rest) = spec_parse_op_tail(input@, op);
            r.0@ == list && r.1@ == rest
        }),
    decreases input@.len(), 2int,
{
    match parse_op_item(input, op) {
        Some((e, rest)) => {
            if rest.len() < input.len() {
                let (mut list, r2) = parse_op_tail(rest, op);
                list.insert(0, e);
                proof {
                    assert(list@ =~= seq![e] + list@.skip(1));
                }
                (list, r2)
            } else {
                let mut list: Vec<Expression> = Vec::new();
                list.push(e);
                proof {
                    assert(list@ =~= seq![e]);
                }
                (list, rest)
            }
        },
        None => (Vec::new(), input),
    }
}

/// Parses a parenthesized or atomic sub-expression.
fn parse_sub(input: &[u8]) -> (r: Option<(Expression, &[u8])>)
    ensures
        match r {
            Some((e, rest)) => spec_parse_sub(input@) == Some((e, rest@)),
            None => spec_parse_sub(input@) is None,
        },
    decreases input@.len(), 0int,
{
    if input.len() >= 1 && input[0] == 40 {
        let inner = slice_subrange(input, 1, input.len());
        proof {
            assert(inner@ =~= input@.skip(1));
        }
        if let Some((e, r)) = parse_expr(inner) {
            if r.len() >= 1 && r[0] == 41 {
                let rest = slice_subrange(r, 1, r.len());
                proof {
                    assert(rest@ =~= r@.skip(1));
                }
                return Some((e, rest));
            }
        }
    }
    if input.len() >= 2 && input[0] == 36 && input[1] == 118 {
        let r1 = ws(slice_subrange(input, 2, input.len()));
        proof {
            assert(input@.subrange(2, input@.len() as int) =~= input@.skip(2));
        }
        if r1.len() >= 1 && r1[0] == 126 {
            let r2 = ws(slice_subrange(r1, 1, r1.len()));
            proof {
                assert(r1@.subrange(1, r1@.len() as int) =~= r1@.skip(1));
            }
            if let Some((t, r3)) = SuffixType::parser(r2) {
                return Some((Expression::Like(t), r3));
            }
        }
        if r1.len() >= 2 && r1[0] == 33 && r1[1] == 126 {
            let r2 = ws(slice_subrange(r1, 2, r1.len()));
            proof {
                assert(r1@.subrange(2, r1@.len() as int) =~= r1@.skip(2));
            }
            if let Some((t, r3)) = SuffixType::parser(r2) {
                return Some((Expression::Not(Box::new(Expression::Like(t))), r3));
            }
        }
    }
    parse_sub_comparisons(input)
}

/// Parses the comparison alternatives of a sub-expression.
fn parse_sub_comparisons(input: &[u8]) -> (r: Option<(Expression, &[u8])>)
    ensures
        match r {
            Some((e, rest)) => spec_parse_sub_comparisons(input@) == Some((e, rest@)),
            None => spec_parse_sub_comparisons(input@) is None,
        },
{
    let (v1, r1) = match V::parser(input) {
        None => { return None; },
        Some(p) => p,
    };
    let ne = ws(r1);
    if ne.len() >= 2 && ne[0] == 33 && ne[1] == 61 {
        let after = ws(slice_subrange(ne, 2, ne.len()));
        proof {
            assert(ne@.subrange(2, ne@.len() as int) =~= ne@.skip(2));
        }
        if let Some((v2, r3)) = V::parser(after) {
            return Some((Expression::Not(Box::new(Expression::Equals(v1, v2))), r3));
        }
    }
    if let Some((op1, r2)) = Relation::parser(r1) {
        if let Some((v2, r3)) = V::parser(r2) {
            if let Some((op2, r4)) = Relation::parser(r3) {
                if let Some((v3, r5)) = V::parser(r4) {
                    return Some(
                        (
                            Expression::And(
                                Box::new(expr_of_relation(v1, op1, v2)),
                                Box::new(expr_of_relation(v2, op2, v3)),
                            ),
                            r5,
                        ),
                    );
                }
            }
            return Some((expr_of_relation(v1, op1, v2), r3));
        }
    }
    if ne.len() >= 1 && ne[0] == 61 {
        let after = ws(slice_subrange(ne, 1, ne.len()));
        proof {
            assert(ne@.subrange(1, ne@.len() as int) =~= ne@.skip(1));
        }
        if let Some((v2, r3)) = V::parser(after) {
            return Some((Expression::Equals(v1, v2), r3));
        }
    }
    None
}

/// Builds the expression a relational comparison denotes.
fn expr_of_relation(v1: V, r: Relation, v2: V) -> (e: Expression)
    ensures
        e == spec_expr_of_relation(v1, r, v2),
{
    match r {
        Relation::Greater => Expression::Less(v2, v1),
        Relation::GreaterOrEquals => Expression::Not(Box::new(Expression::Less(v1, v2))),
        Relation::Less => Expression::Less(v1, v2),
        Relation::LessOrEquals => Expression::Not(Box::new(Expression::Less(v2, v1))),
    }
}

/// Parses an expression: a conjunction, a disjunction, or a bare
/// sub-expression.
fn parse_expr(input: &[u8]) -> (r: Option<(Expression, &[u8])>)
    ensures
        match r {
            Some((e, rest)) => spec_parse_expr(input@) == Some((e, rest@)),
            None => spec_parse_expr(input@) is None,
        },
    decreases input@.len(), 3int,
{
    let s1 = ws(input);
    let first = if s1.len() <= input.len() {
        parse_sub(s1)
    } else {
        None
    };
    match first {
        Some((e1, r)) => {
            let r1 = ws(r);
            if r1.len() <= input.len() {
                let (ands, r2) = parse_op_tail(r1, 38);
                if ands.len() >= 1 {
                    Some((Expression::And(Box::new(e1), Box::new(fold_and(ands))), r2))
                } else {
                    let (ors, r3) = parse_op_tail(r1, 124);
                    if ors.len() >= 1 {
                        Some((Expression::Or(Box::new(e1), Box::new(fold_or(ors))), r3))
                    } else {
                        parse_sub(input)
                    }
                }
            } else {
                parse_sub(input)
            }
        },
        None => parse_sub(input),
    }
}

impl Expression {
    /// Parses an expression, leaving unconsumed input in the result.
    pub fn parser(input: &[u8]) -> (r: Option<(Expression, &[u8])>)
        ensures
            match r {
                Some((e, rest)) => spec_parse_expr(input@) == Some((e, rest@)),
                None => spec_parse_expr(input@) is None,
            },
    {
        parse_expr(input)
    }
}

impl Ruleset {
    /// Parses a ruleset: `*` alone, or an expression surrounded by
    /// optional whitespace; trailing input is a parse error.
    pub fn parser(input: &[u8]) -> (r: Option<Ruleset>)
        ensures
            match r {
                Some(rs) => spec_parse_ruleset(input@) == Some(rs),
                None => spec_parse_ruleset(input@) is None,
            },
    {
        if input.len() >= 1 && input[0] == 42 {
            if input.len() == 1 {
                return Some(Ruleset::Star);
            }
            return None;
        }
        match parse_expr(ws(input)) {
            Some((e, r)) => {
                if ws(r).len() == 0 {
                    Some(Ruleset::Expression(e))
                } else {
                    None
                }
            },
            None => None,
        }
    }
}

} // verus!
