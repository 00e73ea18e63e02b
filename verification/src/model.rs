//! The data the emission engine reads: signals with a direction and a
//! bit width, three-valued stimulus and expectation entries, and test
//! rows in simulation-time order. The engine only reads these values;
//! the upstream loader produces them.

use vstd::prelude::*;

verus! {

/// Which side drives a signal, seen from the device under test.
#[derive(Debug, Clone, Copy, PartialEq, Eq, Structural)]
pub enum SignalDirection {
    Input,
    Output,
    Bidirectional,
}

/// A named signal of the test: unique name, bit width of at least one,
/// and a direction.
#[derive(Debug, Clone)]
pub struct Signal {
    pub name: String,
    pub bits: u32,
    pub direction: SignalDirection,
}

/// A value driven onto an input: a concrete integer or high impedance.
#[derive(Debug, Clone, Copy, PartialEq, Eq, Structural)]
pub enum InputValue {
    Value(i64),
    Z,
}

/// An expected output value: a concrete integer, high impedance, or the
/// wildcard `X` meaning "do not check this output on this row".
#[derive(Debug, Clone, Copy, PartialEq, Eq, Structural)]
pub enum OutputValue {
    Value(i64),
    Z,
    X,
}

/// One stimulus entry of a row: the index of the driven signal in the
/// test's signal list, the value, and whether the value differs from
/// the previous row. The changed flag is authoritative: only changed
/// entries are emitted.
#[derive(Debug, Clone, Copy, PartialEq, Eq, Structural)]
pub struct InputEntry {
    pub signal: usize,
    pub value: InputValue,
    pub changed: bool,
}

/// One expectation entry of a row: the index of the checked signal and
/// the expected value.
#[derive(Debug, Clone, Copy, PartialEq, Eq, Structural)]
pub struct ExpectedEntry {
    pub signal: usize,
    pub value: OutputValue,
}

/// One test row: a source line reference for diagnostics, the stimulus
/// entries and the expectation entries.
#[derive(Debug, Clone)]
pub struct DataRow {
    pub line: u64,
    pub inputs: Vec<InputEntry>,
    pub expected: Vec<ExpectedEntry>,
}

/// A loaded test case: the ordered signal list, the rows, and the
/// optional default row representing the reset/idle state, emitted
/// before the main rows only when so configured.
#[derive(Debug, Clone)]
pub struct TestCase {
    pub signals: Vec<Signal>,
    pub rows: Vec<DataRow>,
    pub default_row: Option<DataRow>,
}

pub open spec fn signal_wf(s: Signal) -> bool {
    s.bits >= 1
}

pub open spec fn row_wf(row: DataRow, n_signals: int) -> bool {
    &&& forall|i: int| 0 <= i < row.inputs@.len() ==> (#[trigger] row.inputs@[i]).signal < n_signals
    &&& forall|i: int|
        0 <= i < row.expected@.len() ==> (#[trigger] row.expected@[i]).signal < n_signals
}

/// Well-formedness of a test case: widths of at least one bit, and every
/// row entry naming a signal of the list.
pub open spec fn test_case_wf(tc: TestCase) -> bool {
    &&& forall|i: int| 0 <= i < tc.signals@.len() ==> signal_wf(#[trigger] tc.signals@[i])
    &&& forall|i: int| 0 <= i < tc.rows@.len() ==> row_wf(#[trigger] tc.rows@[i], tc.signals@.len() as int)
    &&& (tc.default_row matches Some(r) ==> row_wf(r, tc.signals@.len() as int))
}

impl Signal {
    /// Whether the device under test may drive this signal as well.
    pub fn is_bidirectional(&self) -> (r: bool)
        ensures
            r == (self.direction == SignalDirection::Bidirectional),
    {
        match self.direction {
            SignalDirection::Bidirectional => true,
            _ => false,
        }
    }
}

/// The failure conditions of the engine: a wildcard value where a
/// literal is needed, malformed configuration text, or a test case that
/// breaks the data-model invariants.
#[derive(Debug, Clone, Copy, PartialEq, Eq, Structural)]
pub enum EmitError {
    InvalidValue,
    InvalidDelay,
    InvalidTimescale,
    MalformedTestCase,
}

impl EmitError {
    /// A short operator-facing description of the failure.
    pub fn describe(&self) -> (r: &'static str)
        ensures
            r@ == error_text(*self),
    {
        match self {
            EmitError::InvalidValue => "unexpected X output value",
            EmitError::InvalidDelay => "invalid delay format",
            EmitError::InvalidTimescale => "unknown timestamp format",
            EmitError::MalformedTestCase => "malformed test case",
        }
    }
}

pub open spec fn error_text(e: EmitError) -> Seq<char> {
    match e {
        EmitError::InvalidValue => "unexpected X output value"@,
        EmitError::InvalidDelay => "invalid delay format"@,
        EmitError::InvalidTimescale => "unknown timestamp format"@,
        EmitError::MalformedTestCase => "malformed test case"@,
    }
}

} // verus!
