//! The closed operator vocabulary of the expression sublanguage, and the
//! (unused by the parsers, but part of the public surface) expression tree
//! shape.

use vstd::prelude::*;

verus! {

/// Shape of a parsed expression tree.  The current parsers extract condition
/// text and flat `[identifier, operator, literal]` triples rather than full
/// trees, but downstream consumers share this type.
#[derive(Debug, PartialEq)]
pub enum Expr {
    Identifier(String),
    Literal(i32),
    FunctionCall { name: String, args: Vec<Expr> },
    BinaryOp { left: Box<Expr>, op: Expression, right: Box<Expr> },
    Parens(Box<Expr>),
}

/// The operator tokens of the expression sublanguage.
#[derive(Debug, PartialEq, Eq, Structural, Clone, Copy)]
pub enum Expression {
    And,
    Or,
    Not,
    Equals,
    NotEquals,
    GreaterThan,
    LessThan,
    GreaterThanOrEqualTo,
    LessThanOrEqualTo,
    Add,
    Subtract,
    Multiply,
    Divide,
    BinaryInvert,
    BinaryXor,
    BinaryAnd,
    BinaryOr,
    Modulus,
    Increment,
    Decrement,
    Ternary,
    BinaryShiftLeft,
    BinaryShiftRight,
    AddEquals,
    MinusEquals,
    MultiplyEquals,
    DivideEquals,
    BinaryAndEquals,
    BinaryXorEquals,
    BinaryModulusEquals,
    BinaryOrEquals,
    BinaryShiftLeftEquals,
    BinaryShiftRightEquals,
}

/// The display text of each operator, as a character sequence.
pub open spec fn op_text(e: Expression) -> Seq<char> {
    match e {
        Expression::And => seq!['&', '&'],
        Expression::Or => seq!['|', '|'],
        Expression::Not => seq!['!'],
        Expression::Equals => seq!['=', '='],
        Expression::NotEquals => seq!['!', '='],
        Expression::GreaterThan => seq!['>'],
        Expression::LessThan => seq!['<'],
        Expression::GreaterThanOrEqualTo => seq!['>', '='],
        Expression::LessThanOrEqualTo => seq!['<', '='],
        Expression::Add => seq!['+'],
        Expression::Subtract => seq!['-'],
        Expression::Multiply => seq!['*'],
        Expression::Divide => seq!['/'],
        Expression::BinaryInvert => seq!['~'],
        Expression::BinaryXor => seq!['^'],
        Expression::BinaryAnd => seq!['&'],
        Expression::BinaryOr => seq!['|'],
        Expression::Modulus => seq!['%'],
        Expression::Increment => seq!['+', '+'],
        Expression::Decrement => seq!['-', '-'],
        Expression::Ternary => seq!['?', ':'],
        Expression::BinaryShiftLeft => seq!['<', '<'],
        Expression::BinaryShiftRight => seq!['>', '>'],
        Expression::AddEquals => seq!['+', '='],
        Expression::MinusEquals => seq!['-', '='],
        Expression::MultiplyEquals => seq!['*', '='],
        Expression::DivideEquals => seq!['/', '='],
        Expression::BinaryAndEquals => seq!['&', '='],
        Expression::BinaryXorEquals => seq!['^', '='],
        Expression::BinaryModulusEquals => seq!['%', '='],
        Expression::BinaryOrEquals => seq!['|', '='],
        Expression::BinaryShiftLeftEquals => seq!['<', '<', '='],
        Expression::BinaryShiftRightEquals => seq!['>', '>', '='],
    }
}

/// All operators, in declaration order.
pub open spec fn spec_variants() -> Seq<Expression> {
    seq![
        Expression::And,
        Expression::Or,
        Expression::Not,
        Expression::Equals,
        Expression::NotEquals,
        Expression::GreaterThan,
        Expression::LessThan,
        Expression::GreaterThanOrEqualTo,
        Expression::LessThanOrEqualTo,
        Expression::Add,
        Expression::Subtract,
        Expression::Multiply,
        Expression::Divide,
        Expression::BinaryInvert,
        Expression::BinaryXor,
        Expression::BinaryAnd,
        Expression::BinaryOr,
        Expression::Modulus,
        Expression::Increment,
        Expression::Decrement,
        Expression::Ternary,
        Expression::BinaryShiftLeft,
        Expression::BinaryShiftRight,
        Expression::AddEquals,
        Expression::MinusEquals,
        Expression::MultiplyEquals,
        Expression::DivideEquals,
        Expression::BinaryAndEquals,
        Expression::BinaryXorEquals,
        Expression::BinaryModulusEquals,
        Expression::BinaryOrEquals,
        Expression::BinaryShiftLeftEquals,
        Expression::BinaryShiftRightEquals,
    ]
}

/// The order in which the lexer tries the operators: within every family of
/// operators sharing a first character, the longest comes first, so that the
/// first match is the maximal munch.
pub open spec fn trial_order() -> Seq<Expression> {
    seq![
        Expression::BinaryShiftLeftEquals,
        Expression::BinaryShiftLeft,
        Expression::LessThanOrEqualTo,
        Expression::LessThan,
        Expression::BinaryShiftRightEquals,
        Expression::BinaryShiftRight,
        Expression::GreaterThanOrEqualTo,
        Expression::GreaterThan,
        Expression::And,
        Expression::BinaryAndEquals,
        Expression::BinaryAnd,
        Expression::NotEquals,
        Expression::Not,
        Expression::Or,
        Expression::BinaryOrEquals,
        Expression::BinaryOr,
        Expression::Equals,
        Expression::AddEquals,
        Expression::Increment,
        Expression::Add,
        Expression::MinusEquals,
        Expression::Decrement,
        Expression::Subtract,
        Expression::MultiplyEquals,
        Expression::Multiply,
        Expression::BinaryXorEquals,
        Expression::BinaryXor,
        Expression::BinaryModulusEquals,
        Expression::Modulus,
        Expression::DivideEquals,
        Expression::Divide,
        Expression::Ternary,
        Expression::BinaryInvert,
    ]
}

impl Expression {
    /// The operator's display text.
    pub fn to_str(&self) -> (r: &'static str)
        ensures
            r@ == op_text(*self),
    {
        match self {
            Self::BinaryShiftLeftEquals => {
                proof {
                    reveal_strlit("<<=");
                    assert("<<="@ =~= op_text(Expression::BinaryShiftLeftEquals));
                }
                "<<="
            },
            Self::BinaryShiftLeft => {
                proof {
                    reveal_strlit("<<");
                    assert("<<"@ =~= op_text(Expression::BinaryShiftLeft));
                }
                "<<"
            },
            Self::LessThanOrEqualTo => {
                proof {
                    reveal_strlit("<=");
                    assert("<="@ =~= op_text(Expression::LessThanOrEqualTo));
                }
                "<="
            },
            Self::LessThan => {
                proof {
                    reveal_strlit("<");
                    assert("<"@ =~= op_text(Expression::LessThan));
                }
                "<"
            },
            Self::BinaryShiftRightEquals => {
                proof {
                    reveal_strlit(">>=");
                    assert(">>="@ =~= op_text(Expression::BinaryShiftRightEquals));
                }
                ">>="
            },
            Self::BinaryShiftRight => {
                proof {
                    reveal_strlit(">>");
                    assert(">>"@ =~= op_text(Expression::BinaryShiftRight));
                }
                ">>"
            },
            Self::GreaterThanOrEqualTo => {
                proof {
                    reveal_strlit(">=");
                    assert(">="@ =~= op_text(Expression::GreaterThanOrEqualTo));
                }
                ">="
            },
            Self::GreaterThan => {
                proof {
                    reveal_strlit(">");
                    assert(">"@ =~= op_text(Expression::GreaterThan));
                }
                ">"
            },
            Self::And => {
                proof {
                    reveal_strlit("&&");
                    assert("&&"@ =~= op_text(Expression::And));
                }
                "&&"
            },
            Self::BinaryAndEquals => {
                proof {
                    reveal_strlit("&=");
                    assert("&="@ =~= op_text(Expression::BinaryAndEquals));
                }
                "&="
            },
            Self::BinaryAnd => {
                proof {
                    reveal_strlit("&");
                    assert("&"@ =~= op_text(Expression::BinaryAnd));
                }
                "&"
            },
            Self::NotEquals => {
                proof {
                    reveal_strlit("!=");
                    assert("!="@ =~= op_text(Expression::NotEquals));
                }
                "!="
            },
            Self::Not => {
                proof {
                    reveal_strlit("!");
                    assert("!"@ =~= op_text(Expression::Not));
                }
                "!"
            },
            Self::Or => {
                proof {
                    reveal_strlit("||");
                    assert("||"@ =~= op_text(Expression::Or));
                }
                "||"
            },
            Self::BinaryOrEquals => {
                proof {
                    reveal_strlit("|=");
                    assert("|="@ =~= op_text(Expression::BinaryOrEquals));
                }
                "|="
            },
            Self::BinaryOr => {
                proof {
                    reveal_strlit("|");
                    assert("|"@ =~= op_text(Expression::BinaryOr));
                }
                "|"
            },
            Self::Equals => {
                proof {
                    reveal_strlit("==");
                    assert("=="@ =~= op_text(Expression::Equals));
                }
                "=="
            },
            Self::AddEquals => {
                proof {
                    reveal_strlit("+=");
                    assert("+="@ =~= op_text(Expression::AddEquals));
                }
                "+="
            },
            Self::Increment => {
                proof {
                    reveal_strlit("++");
                    assert("++"@ =~= op_text(Expression::Increment));
                }
                "++"
            },
            Self::Add => {
                proof {
                    reveal_strlit("+");
                    assert("+"@ =~= op_text(Expression::Add));
                }
                "+"
            },
            Self::MinusEquals => {
                proof {
                    reveal_strlit("-=");
                    assert("-="@ =~= op_text(Expression::MinusEquals));
                }
                "-="
            },
            Self::Decrement => {
                proof {
                    reveal_strlit("--");
                    assert("--"@ =~= op_text(Expression::Decrement));
                }
                "--"
            },
            Self::Subtract => {
                proof {
                    reveal_strlit("-");
                    assert("-"@ =~= op_text(Expression::Subtract));
                }
                "-"
            },
            Self::MultiplyEquals => {
                proof {
                    reveal_strlit("*=");
                    assert("*="@ =~= op_text(Expression::MultiplyEquals));
                }
                "*="
            },
            Self::Multiply => {
                proof {
                    reveal_strlit("*");
                    assert("*"@ =~= op_text(Expression::Multiply));
                }
                "*"
            },
            Self::BinaryXorEquals => {
                proof {
                    reveal_strlit("^=");
                    assert("^="@ =~= op_text(Expression::BinaryXorEquals));
                }
                "^="
            },
            Self::BinaryXor => {
                proof {
                    reveal_strlit("^");
                    assert("^"@ =~= op_text(Expression::BinaryXor));
                }
                "^"
            },
            Self::BinaryModulusEquals => {
                proof {
                    reveal_strlit("%=");
                    assert("%="@ =~= op_text(Expression::BinaryModulusEquals));
                }
                "%="
            },
            Self::Modulus => {
                proof {
                    reveal_strlit("%");
                    assert("%"@ =~= op_text(Expression::Modulus));
                }
                "%"
            },
            Self::DivideEquals => {
                proof {
                    reveal_strlit("/=");
                    assert("/="@ =~= op_text(Expression::DivideEquals));
                }
                "/="
            },
            Self::Divide => {
                proof {
                    reveal_strlit("/");
                    assert("/"@ =~= op_text(Expression::Divide));
                }
                "/"
            },
            Self::Ternary => {
                proof {
                    reveal_strlit("?:");
                    assert("?:"@ =~= op_text(Expression::Ternary));
                }
                "?:"
            },
            Self::BinaryInvert => {
                proof {
                    reveal_strlit("~");
                    assert("~"@ =~= op_text(Expression::BinaryInvert));
                }
                "~"
            },
        }
    }

    /// Every operator, in declaration order.
    pub fn variants() -> (r: Vec<Expression>)
        ensures
            r@ == spec_variants(),
    {
        let mut v: Vec<Expression> = Vec::new();
        v.push(Expression::And);
        v.push(Expression::Or);
        v.push(Expression::Not);
        v.push(Expression::Equals);
        v.push(Expression::NotEquals);
        v.push(Expression::GreaterThan);
        v.push(Expression::LessThan);
        v.push(Expression::GreaterThanOrEqualTo);
        v.push(Expression::LessThanOrEqualTo);
        v.push(Expression::Add);
        v.push(Expression::Subtract);
        v.push(Expression::Multiply);
        v.push(Expression::Divide);
        v.push(Expression::BinaryInvert);
        v.push(Expression::BinaryXor);
        v.push(Expression::BinaryAnd);
        v.push(Expression::BinaryOr);
        v.push(Expression::Modulus);
        v.push(Expression::Increment);
        v.push(Expression::Decrement);
        v.push(Expression::Ternary);
        v.push(Expression::BinaryShiftLeft);
        v.push(Expression::BinaryShiftRight);
        v.push(Expression::AddEquals);
        v.push(Expression::MinusEquals);
        v.push(Expression::MultiplyEquals);
        v.push(Expression::DivideEquals);
        v.push(Expression::BinaryAndEquals);
        v.push(Expression::BinaryXorEquals);
        v.push(Expression::BinaryModulusEquals);
        v.push(Expression::BinaryOrEquals);
        v.push(Expression::BinaryShiftLeftEquals);
        v.push(Expression::BinaryShiftRightEquals);
        proof {
            assert(v@ =~= spec_variants());
        }
        v
    }

    /// The operators in the order the lexer tries them (longest first within
    /// each shared-prefix family).
    pub fn trial_list() -> (r: Vec<Expression>)
        ensures
            r@ == trial_order(),
    {
        let mut v: Vec<Expression> = Vec::new();
        v.push(Expression::BinaryShiftLeftEquals);
        v.push(Expression::BinaryShiftLeft);
        v.push(Expression::LessThanOrEqualTo);
        v.push(Expression::LessThan);
        v.push(Expression::BinaryShiftRightEquals);
        v.push(Expression::BinaryShiftRight);
        v.push(Expression::GreaterThanOrEqualTo);
        v.push(Expression::GreaterThan);
        v.push(Expression::And);
        v.push(Expression::BinaryAndEquals);
        v.push(Expression::BinaryAnd);
        v.push(Expression::NotEquals);
        v.push(Expression::Not);
        v.push(Expression::Or);
        v.push(Expression::BinaryOrEquals);
        v.push(Expression::BinaryOr);
        v.push(Expression::Equals);
        v.push(Expression::AddEquals);
        v.push(Expression::Increment);
        v.push(Expression::Add);
        v.push(Expression::MinusEquals);
        v.push(Expression::Decrement);
        v.push(Expression::Subtract);
        v.push(Expression::MultiplyEquals);
        v.push(Expression::Multiply);
        v.push(Expression::BinaryXorEquals);
        v.push(Expression::BinaryXor);
        v.push(Expression::BinaryModulusEquals);
        v.push(Expression::Modulus);
        v.push(Expression::DivideEquals);
        v.push(Expression::Divide);
        v.push(Expression::Ternary);
        v.push(Expression::BinaryInvert);
        proof {
            assert(v@ =~= trial_order());
        }
        v
    }

    /// The display texts of every operator, in declaration order.
    pub fn all_expressions() -> (r: Vec<&'static str>)
        ensures
            r@.len() == spec_variants().len(),
            forall|i: int| 0 <= i < r@.len() ==> r@[i]@ == op_text(spec_variants()[i]),
    {
        let variants = Self::variants();
        let mut out: Vec<&'static str> = Vec::new();
        let n = variants.len();
        let mut i: usize = 0;
        while i < n
            invariant
                0 <= i <= n,
                n == spec_variants().len(),
                variants@ == spec_variants(),
                out@.len() == i,
                forall|j: int| 0 <= j < i ==> out@[j]@ == op_text(spec_variants()[j]),
            decreases n - i,
        {
            let t = variants[i].to_str();
            out.push(t);
            i = i + 1;
        }
        out
    }
}

} // verus!
