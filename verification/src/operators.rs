//! The operator symbols of the source language that the compilers lower to
//! single instructions.

use vstd::prelude::*;

verus! {

/// An operator symbol.
#[derive(Copy, Clone, PartialEq, Eq, Debug, Structural)]
pub enum Operator {
    AndAnd,
    OrOr,
    Plus,
    Minus,
    Slash,
    Star,
    Percent,
    Shl,
    Shr,
    Pipe,
    Amp,
    Caret,
    EqEq,
    NotEq,
    Gt,
    Gte,
    Lt,
    Lte,
    Bang,
}

/// The operator a one-character symbol spells, if any.
pub open spec fn operator1(c: char) -> Option<Operator> {
    if c == '+' {
        Some(Operator::Plus)
    } else if c == '-' {
        Some(Operator::Minus)
    } else if c == '/' {
        Some(Operator::Slash)
    } else if c == '*' {
        Some(Operator::Star)
    } else if c == '%' {
        Some(Operator::Percent)
    } else if c == '|' {
        Some(Operator::Pipe)
    } else if c == '&' {
        Some(Operator::Amp)
    } else if c == '^' {
        Some(Operator::Caret)
    } else if c == '>' {
        Some(Operator::Gt)
    } else if c == '<' {
        Some(Operator::Lt)
    } else if c == '!' {
        Some(Operator::Bang)
    } else {
        None
    }
}

/// The operator a two-character symbol spells, if any.
pub open spec fn operator2(c0: char, c1: char) -> Option<Operator> {
    if c0 == '&' && c1 == '&' {
        Some(Operator::AndAnd)
    } else if c0 == '|' && c1 == '|' {
        Some(Operator::OrOr)
    } else if c0 == '<' && c1 == '<' {
        Some(Operator::Shl)
    } else if c0 == '>' && c1 == '>' {
        Some(Operator::Shr)
    } else if c0 == '=' && c1 == '=' {
        Some(Operator::EqEq)
    } else if c0 == '!' && c1 == '=' {
        Some(Operator::NotEq)
    } else if c0 == '>' && c1 == '=' {
        Some(Operator::Gte)
    } else if c0 == '<' && c1 == '=' {
        Some(Operator::Lte)
    } else {
        None
    }
}

/// The operator symbol `s` spells, if it spells one.
pub open spec fn operator_of(s: Seq<char>) -> Option<Operator> {
    if s.len() == 1 {
        operator1(s[0])
    } else if s.len() == 2 {
        operator2(s[0], s[1])
    } else {
        None
    }
}

/// Reads an operator symbol.
pub fn parse_operator(op: &str) -> (r: Option<Operator>)
    ensures
        r == operator_of(op@),
{
    let n = op.unicode_len();
    if n == 1 {
        let c = op.get_char(0);
        if c == '+' {
            Some(Operator::Plus)
        } else if c == '-' {
            Some(Operator::Minus)
        } else if c == '/' {
            Some(Operator::Slash)
        } else if c == '*' {
            Some(Operator::Star)
        } else if c == '%' {
            Some(Operator::Percent)
        } else if c == '|' {
            Some(Operator::Pipe)
        } else if c == '&' {
            Some(Operator::Amp)
        } else if c == '^' {
            Some(Operator::Caret)
        } else if c == '>' {
            Some(Operator::Gt)
        } else if c == '<' {
            Some(Operator::Lt)
        } else if c == '!' {
            Some(Operator::Bang)
        } else {
            None
        }
    } else if n == 2 {
        let c0 = op.get_char(0);
        let c1 = op.get_char(1);
        if c0 == '&' && c1 == '&' {
            Some(Operator::AndAnd)
        } else if c0 == '|' && c1 == '|' {
            Some(Operator::OrOr)
        } else if c0 == '<' && c1 == '<' {
            Some(Operator::Shl)
        } else if c0 == '>' && c1 == '>' {
            Some(Operator::Shr)
        } else if c0 == '=' && c1 == '=' {
            Some(Operator::EqEq)
        } else if c0 == '!' && c1 == '=' {
            Some(Operator::NotEq)
        } else if c0 == '>' && c1 == '=' {
            Some(Operator::Gte)
        } else if c0 == '<' && c1 == '=' {
            Some(Operator::Lte)
        } else {
            None
        }
    } else {
        None
    }
}

} // verus!
