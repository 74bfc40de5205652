//! The contract evaluator: a stack machine over a postfix expression that is
//! read from its end towards its beginning.
//!
//! Numbers are handled as the bit patterns of IEEE 754 doubles. The machine
//! decides what is pushed and popped, which operations exist and when a
//! divisor is zero; the arithmetic on doubles itself is handed in by the
//! caller as a function from an operation and two operands to the result.

use crate::datatypes::RevPolish;
use crate::error::EvalError;
use vstd::prelude::*;
use vstd::string::StrSliceExecFns;

verus! {

/// Whether `c` is one of the operations `+ - * / % p`.
pub open spec fn known_operation(c: char) -> bool {
    c == '+' || c == '-' || c == '*' || c == '/' || c == '%' || c == 'p'
}

/// Whether `c` divides by its second operand.
pub open spec fn divides(c: char) -> bool {
    c == '/' || c == '%'
}

/// Whether `bits` is the pattern of a zero, positive or negative.
pub open spec fn is_zero(bits: u64) -> bool {
    bits == 0 || bits == 0x8000_0000_0000_0000
}

/// The value of a contract under the arithmetic `arith`, from a state of the
/// machine: the items not yet read, the arguments not yet taken, the stack
/// with its top at the end.
///
/// The last item is read first. A number is pushed. An argument takes the
/// last argument left and pushes it. An operation pops `a`, then `b`, and
/// pushes `arith(op, a, b)`. When no item is left, the top of the stack is
/// the value.
pub open spec fn eval(
    arith: spec_fn(char, u64, u64) -> u64,
    contract: Seq<RevPolish>,
    args: Seq<u64>,
    stack: Seq<u64>,
) -> Result<u64, EvalError>
    decreases contract.len(),
{
    if contract.len() == 0 {
        if stack.len() == 0 {
            Err(EvalError::NoResult)
        } else {
            Ok(stack.last())
        }
    } else {
        let rest = contract.drop_last();
        match contract.last() {
            RevPolish::Number(bits) => eval(arith, rest, args, stack.push(bits)),
            RevPolish::Arg => if args.len() == 0 {
                Err(EvalError::MissingArgument)
            } else {
                eval(arith, rest, args.drop_last(), stack.push(args.last()))
            },
            RevPolish::Operation(op) => if !known_operation(op) {
                Err(EvalError::UnknownOperation)
            } else if stack.len() < 2 {
                Err(EvalError::MissingOperand)
            } else {
                let a = stack[stack.len() - 1];
                let b = stack[stack.len() - 2];
                if divides(op) && is_zero(b) {
                    Err(EvalError::DivisionByZero)
                } else {
                    eval(arith, rest, args, stack.subrange(0, stack.len() - 2).push(arith(op, a, b)))
                }
            },
        }
    }
}

/// The value of a contract on its arguments, from the empty stack.
pub open spec fn contract_value(
    arith: spec_fn(char, u64, u64) -> u64,
    contract: Seq<RevPolish>,
    args: Seq<u64>,
) -> Result<u64, EvalError> {
    eval(arith, contract, args, Seq::empty())
}

/// Whether the executable arithmetic `f` can be called wherever the machine
/// calls it: on a known operation whose divisor, if it divides, is not zero.
pub open spec fn callable<F: Fn(char, u64, u64) -> u64>(f: F) -> bool {
    forall|op: char, a: u64, b: u64|
        known_operation(op) && !(divides(op) && is_zero(b)) ==> call_requires(f, (op, a, b))
}

/// Whether the executable arithmetic `f` returns what `arith` says, and
/// nothing else.
pub open spec fn computes<F: Fn(char, u64, u64) -> u64>(
    f: F,
    arith: spec_fn(char, u64, u64) -> u64,
) -> bool {
    forall|op: char, a: u64, b: u64, r: u64|
        call_ensures(f, (op, a, b), r) ==> r == arith(op, a, b)
}

/// Whether `op` is one of the operations `+ - * / % p`.
pub fn is_known_operation(op: char) -> (known: bool)
    ensures
        known == known_operation(op),
{
    op == '+' || op == '-' || op == '*' || op == '/' || op == '%' || op == 'p'
}

/// Whether `bits` is the pattern of a zero, positive or negative.
pub fn is_zero_number(bits: u64) -> (zero: bool)
    ensures
        zero == is_zero(bits),
{
    bits == 0 || bits == 0x8000_0000_0000_0000
}

/// Evaluates `contract` on `args` with the arithmetic `f`.
///
/// Whatever function `f` computes, the result is the value of the contract
/// under that function: the value on top of the stack at the end, or the
/// first error met on the way. `f` is called only on known operations, and
/// never to divide by zero.
pub fn reverse_polish<F: Fn(char, u64, u64) -> u64>(
    contract: &Vec<RevPolish>,
    args: &Vec<u64>,
    f: F,
) -> (res: Result<u64, EvalError>)
    requires
        callable(f),
    ensures
        forall|arith: spec_fn(char, u64, u64) -> u64|
            computes(f, arith) ==> res == #[trigger] contract_value(arith, contract@, args@),
{
    let mut stack: Vec<u64> = Vec::new();
    let mut items_left: usize = contract.len();
    let mut args_left: usize = args.len();
    assert(contract@.subrange(0, items_left as int) =~= contract@);
    assert(args@.subrange(0, args_left as int) =~= args@);
    assert(stack@ =~= Seq::<u64>::empty());
    while items_left > 0
        invariant
            callable(f),
            items_left <= contract@.len(),
            args_left <= args@.len(),
            forall|arith: spec_fn(char, u64, u64) -> u64|
                computes(f, arith) ==> #[trigger] contract_value(arith, contract@, args@) == eval(
                    arith,
                    contract@.subrange(0, items_left as int),
                    args@.subrange(0, args_left as int),
                    stack@,
                ),
        decreases items_left,
    {
        let ghost items = contract@.subrange(0, items_left as int);
        let ghost taken = args@.subrange(0, args_left as int);
        let ghost before = stack@;
        assert(items.drop_last() =~= contract@.subrange(0, items_left - 1));
        assert(items.last() == contract@[items_left - 1]);
        items_left -= 1;
        match contract[items_left] {
            RevPolish::Number(bits) => {
                stack.push(bits);
            },
            RevPolish::Arg => {
                if args_left == 0 {
                    return Err(EvalError::MissingArgument);
                }
                assert(taken.drop_last() =~= args@.subrange(0, args_left - 1));
                args_left -= 1;
                stack.push(args[args_left]);
            },
            RevPolish::Operation(op) => {
                if !is_known_operation(op) {
                    return Err(EvalError::UnknownOperation);
                }
                if stack.len() < 2 {
                    return Err(EvalError::MissingOperand);
                }
                let a: u64 = stack[stack.len() - 1];
                let b: u64 = stack[stack.len() - 2];
                if (op == '/' || op == '%') && is_zero_number(b) {
                    return Err(EvalError::DivisionByZero);
                }
                let value: u64 = f(op, a, b);
                stack.pop();
                stack.pop();
                stack.push(value);
                assert forall|arith: spec_fn(char, u64, u64) -> u64| computes(f, arith) implies eval(
                    arith,
                    items,
                    taken,
                    before,
                ) == eval(arith, items.drop_last(), taken, stack@) by {
                    assert(value == arith(op, a, b));
                    assert(stack@ =~= before.subrange(0, before.len() - 2).push(arith(op, a, b)));
                }
            },
        }
    }
    assert(contract@.subrange(0, 0).len() == 0);
    if stack.len() == 0 {
        Err(EvalError::NoResult)
    } else {
        Ok(stack[stack.len() - 1])
    }
}

/// The index that a number denotes: the number cut to a whole number towards
/// zero and held between 0 and the largest index. A negative number denotes
/// 0, and so does one that is not a number.
///
/// Of the 64 bits, the highest is the sign, the next 11 are the exponent,
/// raised by 1023, and the low 52 are the fraction behind a leading one.
pub open spec fn number_index(bits: u64) -> int {
    let exponent = bits / 0x10_0000_0000_0000 % 0x800;
    let fraction = bits % 0x10_0000_0000_0000;
    let digits = (0x10_0000_0000_0000 + fraction) as u64;
    if bits >= 0x8000_0000_0000_0000 || exponent < 1023 || (exponent == 2047 && fraction != 0) {
        0
    } else if exponent >= 1023 + 64 {
        usize::MAX as int
    } else {
        let whole = if exponent <= 1023 + 52 {
            digits >> ((1023 + 52 - exponent) as u64)
        } else {
            digits << ((exponent - 1023 - 52) as u64)
        };
        if whole > usize::MAX {
            usize::MAX as int
        } else {
            whole as int
        }
    }
}

/// The index that a number denotes.
pub fn number_as_index(bits: u64) -> (index: usize)
    ensures
        index == number_index(bits),
{
    let exponent: u64 = bits / 0x10_0000_0000_0000 % 0x800;
    let fraction: u64 = bits % 0x10_0000_0000_0000;
    let digits: u64 = 0x10_0000_0000_0000 + fraction;
    if bits >= 0x8000_0000_0000_0000 || exponent < 1023 || (exponent == 2047 && fraction != 0) {
        0
    } else if exponent >= 1023 + 64 {
        usize::MAX
    } else {
        let whole: u64 = if exponent <= 1023 + 52 {
            digits >> (1023 + 52 - exponent)
        } else {
            digits << (exponent - 1023 - 52)
        };
        if whole > usize::MAX as u64 {
            usize::MAX
        } else {
            whole as usize
        }
    }
}


/// Dividing by zero, or taking a remainder by zero, is an error, whatever
/// the arithmetic and whatever stands before the operation in the contract.
pub proof fn lemma_zero_divisor_is_an_error(
    arith: spec_fn(char, u64, u64) -> u64,
    before: Seq<RevPolish>,
    op: char,
    args: Seq<u64>,
    stack: Seq<u64>,
)
    requires
        divides(op),
        stack.len() >= 2,
        is_zero(stack[stack.len() - 2]),
    ensures
        eval(arith, before.push(RevPolish::Operation(op)), args, stack) == Err::<u64, EvalError>(
            EvalError::DivisionByZero,
        ),
{
    let contract = before.push(RevPolish::Operation(op));
    assert(contract.last() == RevPolish::Operation(op));
}

/// Asking for an argument when none is left is an error, whatever the
/// arithmetic and whatever stands before the request in the contract.
pub proof fn lemma_missing_argument_is_an_error(
    arith: spec_fn(char, u64, u64) -> u64,
    before: Seq<RevPolish>,
    stack: Seq<u64>,
)
    ensures
        eval(arith, before.push(RevPolish::Arg), Seq::empty(), stack) == Err::<u64, EvalError>(
            EvalError::MissingArgument,
        ),
{
    let contract = before.push(RevPolish::Arg);
    assert(contract.last() == RevPolish::Arg);
}

/// What a word of a contract, as an operator types it, stands for.
#[derive(Clone, Copy, Debug, PartialEq, Eq, Structural)]
pub enum Token {
    /// The word begins with an operation: it stands for that operation.
    Operation(char),
    /// The word is `a`: it stands for an argument.
    Arg,
    /// Any other word: it is to be read as a number.
    Number,
}

/// What a word stands for; nothing, where the word is empty.
pub open spec fn token_kind(word: Seq<char>) -> Option<Token> {
    if word.len() == 0 {
        None
    } else if known_operation(word[0]) {
        Some(Token::Operation(word[0]))
    } else if word.len() == 1 && word[0] == 'a' {
        Some(Token::Arg)
    } else {
        Some(Token::Number)
    }
}

/// What a word of a contract stands for.
pub fn classify_token(word: &str) -> (kind: Option<Token>)
    ensures
        kind == token_kind(word@),
{
    let len: usize = word.unicode_len();
    if len == 0 {
        return None;
    }
    let first = word.get_char(0);
    if is_known_operation(first) {
        Some(Token::Operation(first))
    } else if len == 1 && first == 'a' {
        Some(Token::Arg)
    } else {
        Some(Token::Number)
    }
}


} // verus!
