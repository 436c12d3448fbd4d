use autorocks::eval::BareEvaluator;
use autorocks::eval::EvalError;
use autorocks::eval::EvaluatorWithStorage;
use autorocks::eval::Expr;
use autorocks::eval::Op;
use autorocks::eval::Value;

// ---------------------------------------------------------------------
// A small parser for the expression language, so tests can be written in
// its textual form.  It exists only for the tests: the library itself
// takes expressions as values.
// ---------------------------------------------------------------------

#[derive(Debug, Clone, PartialEq)]
enum Tok {
    Int(i64),
    True,
    False,
    Null,
    Ident(String),
    LParen,
    RParen,
    Plus,
    Minus,
    Star,
    Slash,
    Percent,
    Caret,
    EqEq,
    Ne,
    Ge,
    Le,
    Gt,
    Lt,
    AndAnd,
    OrOr,
    Bang,
}

fn tokenize(s: &str) -> Result<Vec<Tok>, String> {
    let b = s.as_bytes();
    let mut out = Vec::new();
    let mut i = 0;
    while i < b.len() {
        let c = b[i];
        match c {
            b' ' | b'\t' | b'\n' | b'\r' => i += 1,
            b'(' => {
                out.push(Tok::LParen);
                i += 1;
            }
            b')' => {
                out.push(Tok::RParen);
                i += 1;
            }
            b'+' => {
                out.push(Tok::Plus);
                i += 1;
            }
            b'-' => {
                out.push(Tok::Minus);
                i += 1;
            }
            b'*' => {
                out.push(Tok::Star);
                i += 1;
            }
            b'/' => {
                out.push(Tok::Slash);
                i += 1;
            }
            b'%' => {
                out.push(Tok::Percent);
                i += 1;
            }
            b'^' => {
                out.push(Tok::Caret);
                i += 1;
            }
            b'!' => {
                if i + 1 < b.len() && b[i + 1] == b'=' {
                    out.push(Tok::Ne);
                    i += 2;
                } else {
                    out.push(Tok::Bang);
                    i += 1;
                }
            }
            b'=' => {
                if i + 1 < b.len() && b[i + 1] == b'=' {
                    out.push(Tok::EqEq);
                    i += 2;
                } else {
                    return Err("lone '='".to_string());
                }
            }
            b'>' => {
                if i + 1 < b.len() && b[i + 1] == b'=' {
                    out.push(Tok::Ge);
                    i += 2;
                } else {
                    out.push(Tok::Gt);
                    i += 1;
                }
            }
            b'<' => {
                if i + 1 < b.len() && b[i + 1] == b'=' {
                    out.push(Tok::Le);
                    i += 2;
                } else {
                    out.push(Tok::Lt);
                    i += 1;
                }
            }
            b'&' => {
                if i + 1 < b.len() && b[i + 1] == b'&' {
                    out.push(Tok::AndAnd);
                    i += 2;
                } else {
                    return Err("lone '&'".to_string());
                }
            }
            b'|' => {
                if i + 1 < b.len() && b[i + 1] == b'|' {
                    out.push(Tok::OrOr);
                    i += 2;
                } else {
                    return Err("lone '|'".to_string());
                }
            }
            b'0'..=b'9' => {
                let mut n: i64 = 0;
                while i < b.len() && b[i].is_ascii_digit() {
                    n = n
                        .checked_mul(10)
                        .and_then(|m| m.checked_add((b[i] - b'0') as i64))
                        .ok_or_else(|| "integer literal too large".to_string())?;
                    i += 1;
                }
                out.push(Tok::Int(n));
            }
            c if c.is_ascii_alphabetic() || c == b'_' => {
                let start = i;
                while i < b.len() && (b[i].is_ascii_alphanumeric() || b[i] == b'_') {
                    i += 1;
                }
                let word = std::str::from_utf8(&b[start..i]).unwrap();
                out.push(match word {
                    "true" => Tok::True,
                    "false" => Tok::False,
                    "null" => Tok::Null,
                    _ => Tok::Ident(word.to_string()),
                });
            }
            _ => return Err(format!("unexpected byte {}", c)),
        }
    }
    Ok(out)
}

struct Parser {
    toks: Vec<Tok>,
    pos: usize,
}

impl Parser {
    fn peek(&self) -> Option<&Tok> {
        self.toks.get(self.pos)
    }

    fn bump(&mut self) -> Option<Tok> {
        let t = self.toks.get(self.pos).cloned();
        if t.is_some() {
            self.pos += 1;
        }
        t
    }

    fn parse_or(&mut self) -> Result<Expr, String> {
        let mut lhs = self.parse_and()?;
        while self.peek() == Some(&Tok::OrOr) {
            self.bump();
            let rhs = self.parse_and()?;
            lhs = Expr::Apply(Op::Or, vec![lhs, rhs]);
        }
        Ok(lhs)
    }

    fn parse_and(&mut self) -> Result<Expr, String> {
        let mut lhs = self.parse_cmp()?;
        while self.peek() == Some(&Tok::AndAnd) {
            self.bump();
            let rhs = self.parse_cmp()?;
            lhs = Expr::Apply(Op::And, vec![lhs, rhs]);
        }
        Ok(lhs)
    }

    fn parse_cmp(&mut self) -> Result<Expr, String> {
        let lhs = self.parse_add()?;
        let op = match self.peek() {
            Some(Tok::EqEq) => Some(Op::Eq),
            Some(Tok::Ne) => Some(Op::Neq),
            Some(Tok::Ge) => Some(Op::Ge),
            Some(Tok::Le) => Some(Op::Le),
            Some(Tok::Gt) => Some(Op::Gt),
            Some(Tok::Lt) => Some(Op::Lt),
            _ => None,
        };
        match op {
            None => Ok(lhs),
            Some(op) => {
                self.bump();
                let rhs = self.parse_add()?;
                Ok(Expr::Apply(op, vec![lhs, rhs]))
            }
        }
    }

    fn parse_add(&mut self) -> Result<Expr, String> {
        let mut lhs = self.parse_mul()?;
        loop {
            let op = match self.peek() {
                Some(Tok::Plus) => Op::Add,
                Some(Tok::Minus) => Op::Sub,
                _ => break,
            };
            self.bump();
            let rhs = self.parse_mul()?;
            lhs = Expr::Apply(op, vec![lhs, rhs]);
        }
        Ok(lhs)
    }

    fn parse_mul(&mut self) -> Result<Expr, String> {
        let mut lhs = self.parse_pow()?;
        loop {
            let op = match self.peek() {
                Some(Tok::Star) => Op::Mul,
                Some(Tok::Slash) => Op::Div,
                Some(Tok::Percent) => Op::Mod,
                _ => break,
            };
            self.bump();
            let rhs = self.parse_pow()?;
            lhs = Expr::Apply(op, vec![lhs, rhs]);
        }
        Ok(lhs)
    }

    fn parse_pow(&mut self) -> Result<Expr, String> {
        let lhs = self.parse_unary()?;
        if self.peek() == Some(&Tok::Caret) {
            self.bump();
            let rhs = self.parse_pow()?;
            Ok(Expr::Apply(Op::Pow, vec![lhs, rhs]))
        } else {
            Ok(lhs)
        }
    }

    fn parse_unary(&mut self) -> Result<Expr, String> {
        match self.peek() {
            Some(Tok::Minus) => {
                self.bump();
                let e = self.parse_unary()?;
                Ok(Expr::Apply(Op::Minus, vec![e]))
            }
            Some(Tok::Bang) => {
                self.bump();
                let e = self.parse_unary()?;
                Ok(Expr::Apply(Op::Neg, vec![e]))
            }
            _ => self.parse_atom(),
        }
    }

    fn parse_atom(&mut self) -> Result<Expr, String> {
        match self.bump() {
            Some(Tok::Int(n)) => Ok(Expr::Const(Value::Int(n))),
            Some(Tok::True) => Ok(Expr::Const(Value::Bool(true))),
            Some(Tok::False) => Ok(Expr::Const(Value::Bool(false))),
            Some(Tok::Null) => Ok(Expr::Const(Value::Null)),
            Some(Tok::Ident(name)) => Ok(Expr::Ident(name)),
            Some(Tok::LParen) => {
                let e = self.parse_or()?;
                if self.bump() != Some(Tok::RParen) {
                    return Err("expected ')'".to_string());
                }
                Ok(e)
            }
            other => Err(format!("unexpected token {:?}", other)),
        }
    }
}

fn parse_expr_from_str(s: &str) -> Result<Expr, String> {
    let toks = tokenize(s)?;
    let mut p = Parser { toks, pos: 0 };
    let e = p.parse_or()?;
    if p.pos != p.toks.len() {
        return Err("trailing input".to_string());
    }
    Ok(e)
}

fn fold_int(ev: &mut BareEvaluator, e: &Expr) -> i64 {
    match ev.visit_expr(e) {
        Ok(Expr::Const(Value::Int(n))) => n,
        other => panic!("expected an integer constant, got {:?}", other),
    }
}

fn fold_bool(ev: &mut BareEvaluator, e: &Expr) -> bool {
    match ev.visit_expr(e) {
        Ok(Expr::Const(Value::Bool(b))) => b,
        other => panic!("expected a boolean constant, got {:?}", other),
    }
}

fn fold_is_null(ev: &mut BareEvaluator, e: &Expr) -> bool {
    matches!(ev.visit_expr(e), Ok(Expr::Const(Value::Null)))
}

// ---------------------------------------------------------------------
// The tests themselves.
// ---------------------------------------------------------------------

#[test]
fn operators() {
    let mut ev = BareEvaluator::default();

    println!("{:#?}", ev.visit_expr(&parse_expr_from_str("1/10+(-2+3)*4^5").unwrap()).unwrap());
    println!("{:#?}", ev.visit_expr(&parse_expr_from_str("true && false").unwrap()).unwrap());
    println!("{:#?}", ev.visit_expr(&parse_expr_from_str("true || false").unwrap()).unwrap());
    println!("{:#?}", ev.visit_expr(&parse_expr_from_str("true || null").unwrap()).unwrap());
    println!("{:#?}", ev.visit_expr(&parse_expr_from_str("null || true").unwrap()).unwrap());
    println!("{:#?}", ev.visit_expr(&parse_expr_from_str("true && null").unwrap()).unwrap());
}

#[test]
fn test_eval_arithmetic() {
    let mut ev = BareEvaluator::default();
    assert_eq!(fold_int(&mut ev, &parse_expr_from_str("2+3").unwrap()), 5);
    assert_eq!(fold_int(&mut ev, &parse_expr_from_str("2-5").unwrap()), -3);
    assert_eq!(fold_int(&mut ev, &parse_expr_from_str("6*7").unwrap()), 42);
    assert_eq!(fold_int(&mut ev, &parse_expr_from_str("7/2").unwrap()), 3);
    assert_eq!(fold_int(&mut ev, &parse_expr_from_str("1/10").unwrap()), 0);
    assert_eq!(fold_int(&mut ev, &parse_expr_from_str("7%3").unwrap()), 1);
    assert_eq!(fold_int(&mut ev, &parse_expr_from_str("2^10").unwrap()), 1024);
    assert_eq!(fold_int(&mut ev, &parse_expr_from_str("4^0").unwrap()), 1);
    assert_eq!(fold_int(&mut ev, &parse_expr_from_str("-(2+3)").unwrap()), -5);
    assert_eq!(fold_int(&mut ev, &parse_expr_from_str("1/10+(-2+3)*4^5").unwrap()), 1024);
}

#[test]
fn test_eval_arith_errors() {
    let mut ev = BareEvaluator::default();
    let max = i64::MAX;
    let big = parse_expr_from_str(&format!("{} + 1", max)).unwrap();
    assert_eq!(ev.visit_expr(&big).unwrap_err(), EvalError::ArithError);
    let div0 = parse_expr_from_str("1/0").unwrap();
    assert_eq!(ev.visit_expr(&div0).unwrap_err(), EvalError::ArithError);
    let mod0 = parse_expr_from_str("1%0").unwrap();
    assert_eq!(ev.visit_expr(&mod0).unwrap_err(), EvalError::ArithError);
    let neg_pow = parse_expr_from_str("2^(-1)").unwrap();
    assert_eq!(ev.visit_expr(&neg_pow).unwrap_err(), EvalError::ArithError);
    let huge_pow = parse_expr_from_str("10^100").unwrap();
    assert_eq!(ev.visit_expr(&huge_pow).unwrap_err(), EvalError::ArithError);
}

#[test]
fn test_eval_type_errors() {
    let mut ev = BareEvaluator::default();
    let e = parse_expr_from_str("true + 1").unwrap();
    assert_eq!(ev.visit_expr(&e).unwrap_err(), EvalError::TypeError);
    let e = parse_expr_from_str("1 && true").unwrap();
    assert_eq!(ev.visit_expr(&e).unwrap_err(), EvalError::TypeError);
    let e = parse_expr_from_str("-true").unwrap();
    assert_eq!(ev.visit_expr(&e).unwrap_err(), EvalError::TypeError);
    let e = parse_expr_from_str("!3").unwrap();
    assert_eq!(ev.visit_expr(&e).unwrap_err(), EvalError::TypeError);
}

#[test]
fn test_eval_bool_tables() {
    let mut ev = BareEvaluator::default();
    assert_eq!(fold_bool(&mut ev, &parse_expr_from_str("true && false").unwrap()), false);
    assert_eq!(fold_bool(&mut ev, &parse_expr_from_str("true && true").unwrap()), true);
    assert_eq!(fold_bool(&mut ev, &parse_expr_from_str("true || false").unwrap()), true);
    assert_eq!(fold_bool(&mut ev, &parse_expr_from_str("false || false").unwrap()), false);
    assert_eq!(fold_bool(&mut ev, &parse_expr_from_str("true || null").unwrap()), true);
    assert_eq!(fold_bool(&mut ev, &parse_expr_from_str("null || true").unwrap()), true);
    assert!(fold_is_null(&mut ev, &parse_expr_from_str("true && null").unwrap()));
    assert!(fold_is_null(&mut ev, &parse_expr_from_str("null || false").unwrap()));
    assert_eq!(fold_bool(&mut ev, &parse_expr_from_str("false && null").unwrap()), false);
    assert_eq!(fold_bool(&mut ev, &parse_expr_from_str("!false").unwrap()), true);
}

#[test]
fn test_eval_null_propagation() {
    let mut ev = BareEvaluator::default();
    assert!(fold_is_null(&mut ev, &parse_expr_from_str("null + 1").unwrap()));
    assert!(fold_is_null(&mut ev, &parse_expr_from_str("1 > null").unwrap()));
    assert!(fold_is_null(&mut ev, &parse_expr_from_str("null == null").unwrap()));
    assert!(fold_is_null(&mut ev, &parse_expr_from_str("-null").unwrap()));
}

#[test]
fn test_eval_comparisons() {
    let mut ev = BareEvaluator::default();
    assert_eq!(fold_bool(&mut ev, &parse_expr_from_str("2 > 1").unwrap()), true);
    assert_eq!(fold_bool(&mut ev, &parse_expr_from_str("2 < 1").unwrap()), false);
    assert_eq!(fold_bool(&mut ev, &parse_expr_from_str("2 >= 2").unwrap()), true);
    assert_eq!(fold_bool(&mut ev, &parse_expr_from_str("2 <= 1").unwrap()), false);
    assert_eq!(fold_bool(&mut ev, &parse_expr_from_str("2 == 2").unwrap()), true);
    assert_eq!(fold_bool(&mut ev, &parse_expr_from_str("2 != 2").unwrap()), false);
    assert_eq!(fold_bool(&mut ev, &parse_expr_from_str("true == true").unwrap()), true);
}

#[test]
fn test_eval_null_tests_and_coalesce() {
    let mut ev = BareEvaluator::default();
    let is_null = Expr::Apply(Op::IsNull, vec![Expr::Const(Value::Null)]);
    assert_eq!(fold_bool(&mut ev, &is_null), true);
    let is_null = Expr::Apply(Op::IsNull, vec![Expr::Const(Value::Int(3))]);
    assert_eq!(fold_bool(&mut ev, &is_null), false);
    let not_null = Expr::Apply(Op::NotNull, vec![Expr::Const(Value::Int(3))]);
    assert_eq!(fold_bool(&mut ev, &not_null), true);
    let coalesce = Expr::Apply(
        Op::Coalesce,
        vec![Expr::Const(Value::Null), Expr::Const(Value::Int(7))],
    );
    assert_eq!(fold_int(&mut ev, &coalesce), 7);
    let coalesce = Expr::Apply(
        Op::Coalesce,
        vec![Expr::Const(Value::Int(1)), Expr::Const(Value::Int(7))],
    );
    assert_eq!(fold_int(&mut ev, &coalesce), 1);
}

#[test]
fn test_eval_text() {
    let mut ev = BareEvaluator::default();
    let concat = Expr::Apply(
        Op::Add,
        vec![
            Expr::Const(Value::Text("ab".to_string())),
            Expr::Const(Value::Text("cd".to_string())),
        ],
    );
    match ev.visit_expr(&concat) {
        Ok(Expr::Const(Value::Text(s))) => assert_eq!(s, "abcd"),
        other => panic!("expected a text constant, got {:?}", other),
    }
    let eq = Expr::Apply(
        Op::Eq,
        vec![
            Expr::Const(Value::Text("ab".to_string())),
            Expr::Const(Value::Text("ab".to_string())),
        ],
    );
    assert_eq!(fold_bool(&mut ev, &eq), true);
    let ne = Expr::Apply(
        Op::Eq,
        vec![
            Expr::Const(Value::Text("ab".to_string())),
            Expr::Const(Value::Text("cd".to_string())),
        ],
    );
    assert_eq!(fold_bool(&mut ev, &ne), false);
}

#[test]
fn test_eval_idents() {
    let mut ev = BareEvaluator::default();
    ev.env.bind("x", Value::Int(4));
    ev.env.bind("y", Value::Int(10));
    assert_eq!(fold_int(&mut ev, &parse_expr_from_str("x * y + x").unwrap()), 44);
    // A later binding of the same name shadows the earlier one.
    ev.env.bind("x", Value::Int(5));
    assert_eq!(fold_int(&mut ev, &parse_expr_from_str("x").unwrap()), 5);
    let missing = parse_expr_from_str("unknown_name").unwrap();
    assert_eq!(ev.visit_expr(&missing).unwrap_err(), EvalError::UndefinedParam);
}

#[test]
fn test_get_next_local_id() {
    let mut ev = BareEvaluator::default();
    assert_eq!(ev.get_next_local_id(true), 0);
    assert_eq!(ev.get_next_local_id(false), 0);
    assert_eq!(ev.get_next_local_id(false), 1);
    assert_eq!(ev.get_next_local_id(true), 0);
    assert_eq!(ev.get_next_local_id(false), 2);
}

#[test]
fn test_evaluator_with_storage() {
    let mut ev = EvaluatorWithStorage::new("./db".to_string()).unwrap();
    assert_eq!(fold_storage_int(&mut ev, &parse_expr_from_str("40 + 2").unwrap()), 42);
    ev.storage.db.put(0, b"key", b"value").unwrap();
    assert_eq!(
        ev.storage.db.get(0, b"key").unwrap().unwrap(),
        b"value".to_vec()
    );
}

fn fold_storage_int(ev: &mut EvaluatorWithStorage, e: &Expr) -> i64 {
    match ev.visit_expr(e) {
        Ok(Expr::Const(Value::Int(n))) => n,
        other => panic!("expected an integer constant, got {:?}", other),
    }
}
