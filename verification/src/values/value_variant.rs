use vstd::prelude::*;

use crate::engine::tokens::{tokens_view, Token, TokenModel};
use crate::values::js_bool::JSBool;
use crate::values::js_function::JSFunction;
use crate::values::js_number::{
    float_add, float_div, float_mul, float_of_int, float_sub, float_text, JSNumber,
};
use crate::values::js_pointer::JSPointer;
use crate::values::js_string::JSString;

verus! {

/// A runtime value: one of a fixed set of tagged variants.
///
/// `JSNumber`, `JSBoolean`, `Null` and `Undefined` are copied by value on
/// assignment; strings shared across bindings are reached through a
/// `JSPointer` handle into the heap, so that copying copies the handle, not
/// the payload.
#[derive(Debug, PartialEq)]
pub enum JSValueVariant {
    JSString(JSString),
    JSNumber(JSNumber),
    JSBoolean(JSBool),
    JSFunction(JSFunction),
    JSPointer(JSPointer),
    Null,
    Undefined,
}

/// Mathematical model of a runtime value.
pub enum ValueModel {
    Str { text: Seq<char>, length_bits: u64 },
    Num(u64),
    Bool(bool),
    Func { params: Seq<Seq<char>>, frame: int, instructions: Seq<TokenModel> },
    Ptr(u64),
    Null,
    Undefined,
}

pub open spec fn value_view(v: JSValueVariant) -> ValueModel {
    match v {
        JSValueVariant::JSString(s) => ValueModel::Str {
            text: s.str_value@,
            length_bits: s.length_bits,
        },
        JSValueVariant::JSNumber(n) => ValueModel::Num(n.bits),
        JSValueVariant::JSBoolean(b) => ValueModel::Bool(b.bool_value),
        JSValueVariant::JSFunction(f) => ValueModel::Func {
            params: Seq::new(f.argument_names@.len(), |i: int| f.argument_names@[i]@),
            frame: f.frame as int,
            instructions: tokens_view(f.instructions@),
        },
        JSValueVariant::JSPointer(p) => ValueModel::Ptr(p.ptr),
        JSValueVariant::Null => ValueModel::Null,
        JSValueVariant::Undefined => ValueModel::Undefined,
    }
}

impl View for JSValueVariant {
    type V = ValueModel;

    open spec fn view(&self) -> ValueModel {
        value_view(*self)
    }
}

impl Clone for JSValueVariant {
    /// The clone has the same model as the original: copying a value copies
    /// the payload of a copy-semantic variant, and only the handle of a
    /// pointer.
    fn clone(&self) -> (r: JSValueVariant)
        ensures
            r@ == self@,
    {
        match self {
            JSValueVariant::JSString(s) => JSValueVariant::JSString(s.clone()),
            JSValueVariant::JSNumber(n) => JSValueVariant::JSNumber(*n),
            JSValueVariant::JSBoolean(b) => JSValueVariant::JSBoolean(*b),
            JSValueVariant::JSFunction(f) => JSValueVariant::JSFunction(f.clone()),
            JSValueVariant::JSPointer(p) => JSValueVariant::JSPointer(*p),
            JSValueVariant::Null => JSValueVariant::Null,
            JSValueVariant::Undefined => JSValueVariant::Undefined,
        }
    }
}

/// Well-formedness of a value: a string's cached length property always
/// mirrors its text, synchronously.
pub open spec fn value_wf(m: ValueModel) -> bool {
    match m {
        ValueModel::Str { text, length_bits } => text.len() <= u64::MAX ==> length_bits
            == float_of_int(text.len() as u64),
        _ => true,
    }
}

/// One of the compound-assignment operators `+=`, `-=`, `*=`, `/=`.
#[derive(Debug, Clone, Copy, PartialEq, Eq)]
pub enum CompoundOp {
    Add,
    Sub,
    Mul,
    Div,
}

/// What a compound assignment appends to string text: numbers stringify,
/// strings concatenate, every other operand leaves the text unchanged.
pub open spec fn str_append_model(text: Seq<char>, rhs: ValueModel) -> Seq<char> {
    match rhs {
        ValueModel::Num(c) => text + float_text(c),
        ValueModel::Str { text: t, .. } => text + t,
        _ => text,
    }
}

/// The compound-assignment capability, dispatched on the receiver's tag:
/// numbers combine arithmetically with number operands; string text under
/// `+=` coerces-and-appends and refreshes the cached length; every other
/// combination leaves the receiver unchanged.
pub open spec fn apply_compound(v: ValueModel, op: CompoundOp, rhs: ValueModel) -> ValueModel {
    match v {
        ValueModel::Num(b) => match rhs {
            ValueModel::Num(c) => ValueModel::Num(
                match op {
                    CompoundOp::Add => float_add(b, c),
                    CompoundOp::Sub => float_sub(b, c),
                    CompoundOp::Mul => float_mul(b, c),
                    CompoundOp::Div => float_div(b, c),
                },
            ),
            _ => v,
        },
        ValueModel::Str { text, length_bits } => match op {
            CompoundOp::Add => {
                let t2 = str_append_model(text, rhs);
                ValueModel::Str { text: t2, length_bits: float_of_int(t2.len() as u64) }
            },
            _ => v,
        },
        _ => v,
    }
}

/// Applies a compound assignment in place, by variant tag; variants without
/// the capability are left untouched, never a crash.
pub fn apply_compound_value(v: &mut JSValueVariant, op: CompoundOp, rhs: &JSValueVariant)
    ensures
        final(v)@ == apply_compound(old(v)@, op, rhs@),
{
    match v {
        JSValueVariant::JSNumber(n) => n.compound_assignment(op, rhs),
        JSValueVariant::JSString(s) => {
            if matches!(op, CompoundOp::Add) {
                s.addition_assignment(rhs);
            }
        },
        _ => {},
    }
}

/// A compound assignment keeps every value well formed: string text is the
/// only payload it rewrites, and the cached length is refreshed with it.
pub proof fn lemma_apply_compound_wf(v: ValueModel, op: CompoundOp, rhs: ValueModel)
    requires
        value_wf(v),
    ensures
        value_wf(apply_compound(v, op, rhs)),
{
}

} // verus!
