//! The value codec: the three-valued signal domain mapped to Verilog
//! literal text. Concrete integers become decimal literals, high
//! impedance becomes the fixed literal `'Z`, and the wildcard `X` is
//! rejected — it must never reach a literal position.

use vstd::prelude::*;

use crate::model::{EmitError, InputValue, OutputValue};
use crate::numfmt::{signed_dec_seq, signed_dec_value};

verus! {

/// A value as it appears in generated text.
#[derive(Debug, Clone, Copy, Hash, PartialEq, Eq, Structural)]
pub enum VerilogValue {
    Value(i64),
    Z,
}

/// The literal text of a value: the decimal spelling of a concrete
/// integer, or `'Z` for high impedance — independent of any bit width.
pub open spec fn value_text(v: VerilogValue) -> Seq<char> {
    match v {
        VerilogValue::Value(n) => signed_dec_seq(n as int),
        VerilogValue::Z => seq!['\'', 'Z'],
    }
}

/// The codec translation of an input value; inputs have no wildcard.
pub open spec fn of_input(v: InputValue) -> VerilogValue {
    match v {
        InputValue::Value(n) => VerilogValue::Value(n),
        InputValue::Z => VerilogValue::Z,
    }
}

/// The codec translation of an expected output value, if it has one.
pub open spec fn of_output(v: OutputValue) -> Option<VerilogValue> {
    match v {
        OutputValue::Value(n) => Some(VerilogValue::Value(n)),
        OutputValue::Z => Some(VerilogValue::Z),
        OutputValue::X => None,
    }
}

impl VerilogValue {
    /// Translates an input value; total, since inputs cannot be `X`.
    pub fn from_input(value: InputValue) -> (r: Self)
        ensures
            r == of_input(value),
    {
        match value {
            InputValue::Value(num) => VerilogValue::Value(num),
            InputValue::Z => VerilogValue::Z,
        }
    }

    /// Translates an expected output value. Fails exactly on the
    /// wildcard `X`, which has no literal spelling: a wildcard in a
    /// checked position is an upstream contract violation.
    pub fn from_output(value: OutputValue) -> (r: Result<Self, EmitError>)
        ensures
            match value {
                OutputValue::Value(n) => r == Ok::<Self, EmitError>(VerilogValue::Value(n)),
                OutputValue::Z => r == Ok::<Self, EmitError>(VerilogValue::Z),
                OutputValue::X => r == Err::<Self, EmitError>(EmitError::InvalidValue),
            },
    {
        match value {
            OutputValue::Value(num) => Ok(VerilogValue::Value(num)),
            OutputValue::Z => Ok(VerilogValue::Z),
            OutputValue::X => Err(EmitError::InvalidValue),
        }
    }

    /// Renders the literal text of this value.
    pub fn render(&self) -> (r: String)
        ensures
            r@ == value_text(*self),
    {
        match self {
            VerilogValue::Value(num) => crate::numfmt::i64_to_dec(*num),
            VerilogValue::Z => {
                let r = String::from_str("'Z");
                proof {
                    reveal_strlit("'Z");
                    assert(r@ =~= seq!['\'', 'Z']);
                }
                r
            },
        }
    }
}

/// Concrete literals round-trip: decoding the decimal spelling of
/// `Concrete(n)` yields `n` again.
pub proof fn lemma_value_round_trip(n: i64)
    ensures
        signed_dec_value(value_text(VerilogValue::Value(n))) == n as int,
{
    crate::numfmt::lemma_signed_dec_round_trip(n as int);
}

/// High impedance always encodes to the fixed literal `'Z`.
pub proof fn lemma_z_literal()
    ensures
        value_text(VerilogValue::Z) == "'Z"@,
{
    reveal_strlit("'Z");
    assert(value_text(VerilogValue::Z) =~= "'Z"@);
}

} // verus!
