//! What the operators of the machine compute on two values.
//!
//! The machine computes with integers, booleans, texts and lists. A number
//! with a fractional part is only carried: where an operator needs its
//! numeric value, the machine hands the operation to the host.

use vstd::prelude::*;
use vstd::string::StrSliceExecFns;
use vstd::string::StringExecFns;
use crate::compiler::VmOpCode;
use crate::compiler::value::BramaPrimative;
use crate::compiler::value::PrimativeView;
use crate::compiler::value::VmObject;
use crate::compiler::value::object_views;
use crate::compiler::value::list_view_is_item_views;
use crate::compiler::value::truthy;

verus! {

/// The outcome of an operator: a value, a fault, or the need for the host's
/// arithmetic.
pub enum Evaluation {
    Value(VmObject),
    Fault(&'static str),
    Host,
}

/// An `Evaluation` as a mathematical value.
pub enum Evaluated {
    Value(PrimativeView),
    Fault(Seq<char>),
    Host,
}

impl View for Evaluation {
    type V = Evaluated;

    open spec fn view(&self) -> Evaluated {
        match *self {
            Evaluation::Value(value) => Evaluated::Value(value@),
            Evaluation::Fault(message) => Evaluated::Fault(message@),
            Evaluation::Host => Evaluated::Host,
        }
    }
}

/// Whether a value is a number.
pub open spec fn numeric(value: PrimativeView) -> bool {
    value is Integer || value is Double
}

/// Whether an operator on these two numbers needs the host: both are
/// numbers and one has a fractional part.
pub open spec fn needs_host(left: PrimativeView, right: PrimativeView) -> bool {
    numeric(left) && numeric(right) && (left is Double || right is Double)
}

/// The quotient of two integers, rounded towards zero.
pub open spec fn quotient(dividend: int, divisor: int) -> int {
    if (dividend < 0) == (divisor < 0) {
        (vstd::math::abs(dividend) / vstd::math::abs(divisor)) as int
    } else {
        -(vstd::math::abs(dividend) / vstd::math::abs(divisor))
    }
}

/// The remainder of two integers: it has the sign of the dividend.
pub open spec fn remainder(dividend: int, divisor: int) -> int {
    if dividend < 0 {
        -(vstd::math::abs(dividend) % vstd::math::abs(divisor))
    } else {
        (vstd::math::abs(dividend) % vstd::math::abs(divisor)) as int
    }
}

/// An integer as a value, or the fault of an integer that 64 bits cannot
/// hold.
pub open spec fn integer_or_overflow(number: int) -> Evaluated {
    if i64::MIN <= number <= i64::MAX {
        Evaluated::Value(PrimativeView::Integer(number as i64))
    } else {
        Evaluated::Fault("Integer overflow"@)
    }
}

/// The order of two texts: by the first place where they differ, and the
/// shorter one first where one starts the other. The answer is -1, 0 or 1.
pub open spec fn text_order(left: Seq<char>, right: Seq<char>) -> int
    decreases left.len(),
{
    if left.len() == 0 && right.len() == 0 {
        0
    } else if left.len() == 0 {
        -1
    } else if right.len() == 0 {
        1
    } else if (left[0] as int) < (right[0] as int) {
        -1
    } else if (left[0] as int) > (right[0] as int) {
        1
    } else {
        text_order(left.drop_first(), right.drop_first())
    }
}

/// The place of a kind of value in the order of kinds.
pub open spec fn kind_rank(value: PrimativeView) -> int {
    match value {
        PrimativeView::Empty => 0,
        PrimativeView::Bool(_) => 1,
        PrimativeView::Integer(_) => 2,
        PrimativeView::Double(_) => 3,
        PrimativeView::Text(_) => 4,
        PrimativeView::List(_) => 5,
        PrimativeView::Function(_) => 6,
        PrimativeView::Class(_) => 7,
    }
}

/// -1, 0 or 1 as an integer is below, equal to or above another.
pub open spec fn sign_of(left: int, right: int) -> int {
    if left < right {
        -1
    } else if left > right {
        1
    } else {
        0
    }
}

/// The order of two values, as -1, 0 or 1. Values of different kinds are
/// ordered by kind. Booleans: false first. Integers: by size. Texts and
/// numbers with a fractional part: as texts. Lists: by the first place where
/// they differ, the shorter first where one starts the other. Functions and
/// classes: by name.
pub open spec fn ordering(left: PrimativeView, right: PrimativeView) -> int
    decreases left, 0nat,
{
    if kind_rank(left) != kind_rank(right) {
        sign_of(kind_rank(left), kind_rank(right))
    } else {
        match (left, right) {
            (PrimativeView::Bool(a), PrimativeView::Bool(b)) => sign_of(
                if a {
                    1
                } else {
                    0
                },
                if b {
                    1
                } else {
                    0
                },
            ),
            (PrimativeView::Integer(a), PrimativeView::Integer(b)) => sign_of(a as int, b as int),
            (PrimativeView::Double(a), PrimativeView::Double(b)) => text_order(a, b),
            (PrimativeView::Text(a), PrimativeView::Text(b)) => text_order(a, b),
            (PrimativeView::List(a), PrimativeView::List(b)) => list_order(a, b, 0),
            (PrimativeView::Function(a), PrimativeView::Function(b)) => text_order(a.name, b.name),
            (PrimativeView::Class(a), PrimativeView::Class(b)) => text_order(a, b),
            _ => 0,
        }
    }
}

/// The order of two lists from place `from` on.
pub open spec fn list_order(left: Seq<PrimativeView>, right: Seq<PrimativeView>, from: nat) -> int
    decreases left, left.len() - from,
{
    if from >= left.len() && from >= right.len() {
        0
    } else if from >= left.len() {
        -1
    } else if from >= right.len() {
        1
    } else if ordering(left[from as int], right[from as int]) != 0 {
        ordering(left[from as int], right[from as int])
    } else {
        list_order(left, right, from + 1)
    }
}

/// The order of texts turns round with its sides.
pub proof fn text_order_turns_round(left: Seq<char>, right: Seq<char>)
    ensures
        text_order(right, left) == -text_order(left, right),
        -1 <= text_order(left, right) <= 1,
    decreases left.len(),
{
    if left.len() > 0 && right.len() > 0 && left[0] == right[0] {
        text_order_turns_round(left.drop_first(), right.drop_first());
    }
}

/// The order of values turns round with its sides, and a value is equal to
/// itself in it: where one value stands before another, the other stands
/// behind the one.
pub proof fn ordering_turns_round(left: PrimativeView, right: PrimativeView)
    ensures
        ordering(right, left) == -ordering(left, right),
        -1 <= ordering(left, right) <= 1,
    decreases left, 0nat,
{
    if kind_rank(left) == kind_rank(right) {
        match (left, right) {
            (PrimativeView::Double(a), PrimativeView::Double(b)) => {
                text_order_turns_round(a, b);
            },
            (PrimativeView::Text(a), PrimativeView::Text(b)) => {
                text_order_turns_round(a, b);
            },
            (PrimativeView::List(a), PrimativeView::List(b)) => {
                list_order_turns_round(a, b, 0);
            },
            (PrimativeView::Function(a), PrimativeView::Function(b)) => {
                text_order_turns_round(a.name, b.name);
            },
            (PrimativeView::Class(a), PrimativeView::Class(b)) => {
                text_order_turns_round(a, b);
            },
            _ => {},
        }
    }
}

/// The order of lists turns round with its sides.
pub proof fn list_order_turns_round(left: Seq<PrimativeView>, right: Seq<PrimativeView>, from: nat)
    ensures
        list_order(right, left, from) == -list_order(left, right, from),
        -1 <= list_order(left, right, from) <= 1,
    decreases left, left.len() - from,
{
    if from < left.len() && from < right.len() {
        ordering_turns_round(left[from as int], right[from as int]);
        if ordering(left[from as int], right[from as int]) == 0 {
            list_order_turns_round(left, right, from + 1);
        }
    }
}

/// What a comparison opcode answers for an order.
pub open spec fn compared(opcode: VmOpCode, order: int) -> bool {
    match opcode {
        VmOpCode::GreaterThan => order > 0,
        VmOpCode::GreaterEqualThan => order >= 0,
        VmOpCode::LessThan => order < 0,
        VmOpCode::LessEqualThan => order <= 0,
        _ => false,
    }
}

/// What a binary opcode computes on two values.
pub open spec fn evaluated(opcode: VmOpCode, left: PrimativeView, right: PrimativeView) -> Evaluated {
    match opcode {
        VmOpCode::Addition => match (left, right) {
            (PrimativeView::Integer(a), PrimativeView::Integer(b)) => integer_or_overflow(a + b),
            (PrimativeView::Text(a), PrimativeView::Text(b)) => Evaluated::Value(
                PrimativeView::Text(a + b),
            ),
            _ => if needs_host(left, right) {
                Evaluated::Host
            } else {
                Evaluated::Fault("Invalid operands"@)
            },
        },
        VmOpCode::Subraction => match (left, right) {
            (PrimativeView::Integer(a), PrimativeView::Integer(b)) => integer_or_overflow(a - b),
            _ => if needs_host(left, right) {
                Evaluated::Host
            } else {
                Evaluated::Fault("Invalid operands"@)
            },
        },
        VmOpCode::Multiply => match (left, right) {
            (PrimativeView::Integer(a), PrimativeView::Integer(b)) => integer_or_overflow(a * b),
            _ => if needs_host(left, right) {
                Evaluated::Host
            } else {
                Evaluated::Fault("Invalid operands"@)
            },
        },
        VmOpCode::Division => match (left, right) {
            (PrimativeView::Integer(a), PrimativeView::Integer(b)) => if b == 0 {
                Evaluated::Fault("Division by zero"@)
            } else if remainder(a as int, b as int) == 0 {
                integer_or_overflow(quotient(a as int, b as int))
            } else {
                Evaluated::Host
            },
            _ => if needs_host(left, right) {
                Evaluated::Host
            } else {
                Evaluated::Fault("Invalid operands"@)
            },
        },
        VmOpCode::Module => match (left, right) {
            (PrimativeView::Integer(a), PrimativeView::Integer(b)) => if b == 0 {
                Evaluated::Fault("Division by zero"@)
            } else {
                integer_or_overflow(remainder(a as int, b as int))
            },
            _ => if needs_host(left, right) {
                Evaluated::Host
            } else {
                Evaluated::Fault("Invalid operands"@)
            },
        },
        VmOpCode::Equal => if needs_host(left, right) {
            Evaluated::Host
        } else {
            Evaluated::Value(PrimativeView::Bool(left == right))
        },
        VmOpCode::NotEqual => if needs_host(left, right) {
            Evaluated::Host
        } else {
            Evaluated::Value(PrimativeView::Bool(left != right))
        },
        VmOpCode::GreaterThan | VmOpCode::GreaterEqualThan | VmOpCode::LessThan | VmOpCode::LessEqualThan => if needs_host(
            left,
            right,
        ) {
            Evaluated::Host
        } else {
            Evaluated::Value(PrimativeView::Bool(compared(opcode, ordering(left, right))))
        },
        _ => Evaluated::Fault("Invalid operator"@),
    }
}

/// What an opcode with one operand computes.
pub open spec fn evaluated_unary(opcode: VmOpCode, operand: PrimativeView) -> Evaluated {
    match opcode {
        VmOpCode::Not => Evaluated::Value(PrimativeView::Bool(!truthy(operand))),
        VmOpCode::Negate => match operand {
            PrimativeView::Integer(number) => integer_or_overflow(-number),
            PrimativeView::Double(_) => Evaluated::Host,
            _ => Evaluated::Fault("Invalid operands"@),
        },
        _ => Evaluated::Fault("Invalid operator"@),
    }
}

/// The size of an integer without its sign.
pub fn magnitude(number: i64) -> (size: u64)
    ensures
        size == vstd::math::abs(number as int),
{
    if number < 0 {
        ((-(number + 1)) as u64) + 1
    } else {
        number as u64
    }
}

/// An integer as a value, from its sign and its size.
pub fn signed_value(negative: bool, size: u64) -> (result: Evaluation)
    ensures
        result@ == integer_or_overflow(
            if negative {
                -(size as int)
            } else {
                size as int
            },
        ),
{
    if negative {
        if size <= 0x7fff_ffff_ffff_ffff {
            Evaluation::Value(VmObject::from(BramaPrimative::Integer(-(size as i64))))
        } else if size == 0x8000_0000_0000_0000 {
            Evaluation::Value(VmObject::from(BramaPrimative::Integer(i64::MIN)))
        } else {
            Evaluation::Fault("Integer overflow")
        }
    } else {
        if size <= 0x7fff_ffff_ffff_ffff {
            Evaluation::Value(VmObject::from(BramaPrimative::Integer(size as i64)))
        } else {
            Evaluation::Fault("Integer overflow")
        }
    }
}

/// An integer as a value, where 64 bits can hold it.
pub fn checked_value(number: Option<i64>) -> (result: Evaluation)
    ensures
        match number {
            Some(held) => result@ == Evaluated::Value(PrimativeView::Integer(held)),
            None => result@ == Evaluated::Fault("Integer overflow"@),
        },
{
    match number {
        Some(held) => Evaluation::Value(VmObject::from(BramaPrimative::Integer(held))),
        None => Evaluation::Fault("Integer overflow"),
    }
}

/// A boolean as a value.
pub fn bool_value(flag: bool) -> (result: Evaluation)
    ensures
        result@ == Evaluated::Value(PrimativeView::Bool(flag)),
{
    Evaluation::Value(VmObject::from(BramaPrimative::Bool(flag)))
}

/// Whether a value is a number.
pub fn is_numeric(value: &BramaPrimative) -> (answer: bool)
    ensures
        answer == numeric(value@),
{
    match value {
        BramaPrimative::Integer(_) => true,
        BramaPrimative::Double(_) => true,
        _ => false,
    }
}

/// Whether an operator on these two values needs the host.
pub fn is_host_work(left: &BramaPrimative, right: &BramaPrimative) -> (answer: bool)
    ensures
        answer == needs_host(left@, right@),
{
    let left_double: bool = match left {
        BramaPrimative::Double(_) => true,
        _ => false,
    };
    let right_double: bool = match right {
        BramaPrimative::Double(_) => true,
        _ => false,
    };
    is_numeric(left) && is_numeric(right) && (left_double || right_double)
}

/// The order of two texts.
pub fn order_texts(left: &str, right: &str) -> (order: i8)
    ensures
        order == text_order(left@, right@),
{
    let left_count: usize = left.unicode_len();
    let right_count: usize = right.unicode_len();
    let mut i: usize = 0;
    assert(left@.skip(0) =~= left@ && right@.skip(0) =~= right@);
    while i < left_count && i < right_count
        invariant
            i <= left_count,
            i <= right_count,
            left_count == left@.len(),
            right_count == right@.len(),
            text_order(left@, right@) == text_order(left@.skip(i as int), right@.skip(i as int)),
        decreases left_count - i,
    {
        let a: char = left.get_char(i);
        let b: char = right.get_char(i);
        proof {
            let l = left@.skip(i as int);
            let r = right@.skip(i as int);
            assert(l[0] == a && r[0] == b);
            assert(l.drop_first() =~= left@.skip(i + 1));
            assert(r.drop_first() =~= right@.skip(i + 1));
        }
        if (a as u32) < (b as u32) {
            return -1;
        }
        if (a as u32) > (b as u32) {
            return 1;
        }
        i += 1;
    }
    proof {
        assert(left@.skip(i as int).len() == left_count - i);
        assert(right@.skip(i as int).len() == right_count - i);
    }
    if left_count == right_count {
        0
    } else if i == left_count {
        -1
    } else {
        1
    }
}

/// The place of the kind of a value in the order of kinds.
pub fn rank_of(value: &BramaPrimative) -> (rank: u8)
    ensures
        rank == kind_rank(value@),
{
    match value {
        BramaPrimative::Empty => 0,
        BramaPrimative::Bool(_) => 1,
        BramaPrimative::Integer(_) => 2,
        BramaPrimative::Double(_) => 3,
        BramaPrimative::Text(_) => 4,
        BramaPrimative::List(_) => 5,
        BramaPrimative::Function(_) => 6,
        BramaPrimative::Class(_) => 7,
    }
}

/// The order of two values.
pub fn order_values(left: &BramaPrimative, right: &BramaPrimative) -> (order: i8)
    ensures
        order == ordering(left@, right@),
    decreases *left,
{
    let left_rank: u8 = rank_of(left);
    let right_rank: u8 = rank_of(right);
    if left_rank < right_rank {
        return -1;
    }
    if left_rank > right_rank {
        return 1;
    }
    match (left, right) {
        (BramaPrimative::Bool(a), BramaPrimative::Bool(b)) => {
            if *a == *b {
                0
            } else if *b {
                -1
            } else {
                1
            }
        },
        (BramaPrimative::Integer(a), BramaPrimative::Integer(b)) => {
            if *a < *b {
                -1
            } else if *a > *b {
                1
            } else {
                0
            }
        },
        (BramaPrimative::Double(a), BramaPrimative::Double(b)) => order_texts(a.as_str(), b.as_str()),
        (BramaPrimative::Text(a), BramaPrimative::Text(b)) => order_texts(a.as_str(), b.as_str()),
        (BramaPrimative::List(a), BramaPrimative::List(b)) => {
            proof {
                list_view_is_item_views(*a);
                list_view_is_item_views(*b);
            }
            let mut i: usize = 0;
            while i < a.len() && i < b.len()
                invariant
                    i <= a@.len(),
                    i <= b@.len(),
                    *left is List,
                    left->List_0 == *a,
                    left@ == PrimativeView::List(object_views(a@)),
                    right@ == PrimativeView::List(object_views(b@)),
                    ordering(left@, right@) == list_order(
                        object_views(a@),
                        object_views(b@),
                        i as nat,
                    ),
                decreases a@.len() - i,
            {
                proof {
                    assert(decreases_to!(*a => a[i as int]));
                    assert(object_views(a@)[i as int] == a[i as int]@);
                    assert(object_views(b@)[i as int] == b[i as int]@);
                }
                let order: i8 = order_values(&a[i].value, &b[i].value);
                if order != 0 {
                    return order;
                }
                i += 1;
            }
            if a.len() == b.len() {
                0
            } else if i == a.len() {
                -1
            } else {
                1
            }
        },
        (BramaPrimative::Function(a), BramaPrimative::Function(b)) => order_texts(
            a.name.as_str(),
            b.name.as_str(),
        ),
        (BramaPrimative::Class(a), BramaPrimative::Class(b)) => order_texts(
            a.name.as_str(),
            b.name.as_str(),
        ),
        _ => 0,
    }
}

/// Computes a binary opcode on two values.
pub fn execute_binary(opcode: VmOpCode, left: &VmObject, right: &VmObject) -> (result: Evaluation)
    ensures
        result@ == evaluated(opcode, left@, right@),
{
    let host: bool = is_host_work(&left.value, &right.value);
    match opcode {
        VmOpCode::Addition => match (&*left.value, &*right.value) {
            (BramaPrimative::Integer(a), BramaPrimative::Integer(b)) => checked_value(
                a.checked_add(*b),
            ),
            (BramaPrimative::Text(a), BramaPrimative::Text(b)) => {
                let mut joined: String = crate::text::copy_text(a.as_str());
                joined.append(b.as_str());
                Evaluation::Value(VmObject::from(BramaPrimative::Text(joined)))
            },
            _ => if host {
                Evaluation::Host
            } else {
                Evaluation::Fault("Invalid operands")
            },
        },
        VmOpCode::Subraction => match (&*left.value, &*right.value) {
            (BramaPrimative::Integer(a), BramaPrimative::Integer(b)) => checked_value(
                a.checked_sub(*b),
            ),
            _ => if host {
                Evaluation::Host
            } else {
                Evaluation::Fault("Invalid operands")
            },
        },
        VmOpCode::Multiply => match (&*left.value, &*right.value) {
            (BramaPrimative::Integer(a), BramaPrimative::Integer(b)) => checked_value(
                a.checked_mul(*b),
            ),
            _ => if host {
                Evaluation::Host
            } else {
                Evaluation::Fault("Invalid operands")
            },
        },
        VmOpCode::Division => match (&*left.value, &*right.value) {
            (BramaPrimative::Integer(a), BramaPrimative::Integer(b)) => {
                if *b == 0 {
                    Evaluation::Fault("Division by zero")
                } else {
                    let dividend: u64 = magnitude(*a);
                    let divisor: u64 = magnitude(*b);
                    if dividend % divisor == 0 {
                        signed_value((*a < 0) != (*b < 0), dividend / divisor)
                    } else {
                        Evaluation::Host
                    }
                }
            },
            _ => if host {
                Evaluation::Host
            } else {
                Evaluation::Fault("Invalid operands")
            },
        },
        VmOpCode::Module => match (&*left.value, &*right.value) {
            (BramaPrimative::Integer(a), BramaPrimative::Integer(b)) => {
                if *b == 0 {
                    Evaluation::Fault("Division by zero")
                } else {
                    let dividend: u64 = magnitude(*a);
                    let divisor: u64 = magnitude(*b);
                    signed_value(*a < 0, dividend % divisor)
                }
            },
            _ => if host {
                Evaluation::Host
            } else {
                Evaluation::Fault("Invalid operands")
            },
        },
        VmOpCode::Equal => if host {
            Evaluation::Host
        } else {
            bool_value(left.value.equals(&right.value))
        },
        VmOpCode::NotEqual => if host {
            Evaluation::Host
        } else {
            bool_value(!left.value.equals(&right.value))
        },
        VmOpCode::GreaterThan => if host {
            Evaluation::Host
        } else {
            bool_value(order_values(&left.value, &right.value) > 0)
        },
        VmOpCode::GreaterEqualThan => if host {
            Evaluation::Host
        } else {
            bool_value(order_values(&left.value, &right.value) >= 0)
        },
        VmOpCode::LessThan => if host {
            Evaluation::Host
        } else {
            bool_value(order_values(&left.value, &right.value) < 0)
        },
        VmOpCode::LessEqualThan => if host {
            Evaluation::Host
        } else {
            bool_value(order_values(&left.value, &right.value) <= 0)
        },
        _ => Evaluation::Fault("Invalid operator"),
    }
}

/// Computes an opcode with one operand.
pub fn execute_unary(opcode: VmOpCode, operand: &VmObject) -> (result: Evaluation)
    ensures
        result@ == evaluated_unary(opcode, operand@),
{
    match opcode {
        VmOpCode::Not => bool_value(!operand.value.is_true()),
        VmOpCode::Negate => match &*operand.value {
            BramaPrimative::Integer(number) => {
                let zero: i64 = 0;
                checked_value(zero.checked_sub(*number))
            },
            BramaPrimative::Double(_) => Evaluation::Host,
            _ => Evaluation::Fault("Invalid operands"),
        },
        _ => Evaluation::Fault("Invalid operator"),
    }
}

} // verus!
