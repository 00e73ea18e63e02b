//! Emission of self-checking Verilog testbenches from digital test
//! descriptions: identifier and value encoding, port and declaration
//! synthesis, per-row stimulus/assertion translation, and the
//! surrounding module text, all specified down to the character.

pub mod emit;
pub mod ident;
pub mod model;
pub mod numfmt;
pub mod options;
pub mod value;

use vstd::prelude::*;

use crate::emit::{opt_str_view, render_testbench, testbench_text};
use crate::model::{row_wf, signal_wf, test_case_wf, DataRow, EmitError, TestCase};

verus! {

/// The view of an optional owned string.
pub open spec fn opt_string_view(s: Option<String>) -> Option<Seq<char>> {
    match s {
        Some(t) => Some(t@),
        None => None,
    }
}

/// The delay pair an emission uses: the configured pair, or the
/// default of ten ticks to settle after the inputs and none after the
/// checks.
pub open spec fn effective_delay(d: Option<(u32, u32)>) -> (u32, u32) {
    match d {
        Some(p) => p,
        None => (10u32, 0u32),
    }
}

/// Whether a loaded test case meets the data-model invariants the
/// emission relies on.
fn check_test_case(tc: &TestCase) -> (b: bool)
    ensures
        b == test_case_wf(*tc),
{
    let nsig = tc.signals.len();
    let mut i: usize = 0;
    while i < nsig
        invariant
            i <= nsig,
            nsig == tc.signals@.len(),
            forall|j: int| 0 <= j < i ==> signal_wf(#[trigger] tc.signals@[j]),
        decreases nsig - i,
    {
        if tc.signals[i].bits < 1 {
            return false;
        }
        i = i + 1;
    }
    let nrows = tc.rows.len();
    let mut r: usize = 0;
    while r < nrows
        invariant
            r <= nrows,
            nrows == tc.rows@.len(),
            nsig == tc.signals@.len(),
            forall|j: int| 0 <= j < tc.signals@.len() ==> signal_wf(#[trigger] tc.signals@[j]),
            forall|j: int| 0 <= j < r ==> row_wf(#[trigger] tc.rows@[j], tc.signals@.len() as int),
        decreases nrows - r,
    {
        if !check_row(&tc.rows[r], nsig) {
            proof {
                assert(!row_wf(tc.rows@[r as int], tc.signals@.len() as int));
            }
            return false;
        }
        r = r + 1;
    }
    match &tc.default_row {
        Some(row) => check_row(row, nsig),
        None => true,
    }
}

/// Whether every entry of a row names a signal of the list.
fn check_row(row: &DataRow, nsig: usize) -> (b: bool)
    ensures
        b == row_wf(*row, nsig as int),
{
    let ni = row.inputs.len();
    let mut k: usize = 0;
    while k < ni
        invariant
            k <= ni,
            ni == row.inputs@.len(),
            forall|j: int| 0 <= j < k ==> (#[trigger] row.inputs@[j]).signal < nsig,
        decreases ni - k,
    {
        if row.inputs[k].signal >= nsig {
            return false;
        }
        k = k + 1;
    }
    let ne = row.expected.len();
    let mut k2: usize = 0;
    while k2 < ne
        invariant
            k2 <= ne,
            ne == row.expected@.len(),
            forall|j: int| 0 <= j < k2 ==> (#[trigger] row.expected@[j]).signal < nsig,
        decreases ne - k2,
    {
        if row.expected[k2].signal >= nsig {
            return false;
        }
        k2 = k2 + 1;
    }
    true
}

/// Configures and performs one emission over a loaded test case:
/// output destination, optional timing-unit directive and delay pair
/// are set before `done` renders the testbench text.
pub struct Builder<'a> {
    test_case: &'a TestCase,
    output_path: Option<String>,
    timescale: Option<String>,
    delay: Option<(u32, u32)>,
    emit_default: bool,
}

impl<'a> Builder<'a> {
    pub closed spec fn spec_test_case(&self) -> TestCase {
        *self.test_case
    }

    pub closed spec fn spec_output_path(&self) -> Option<Seq<char>> {
        opt_string_view(self.output_path)
    }

    pub closed spec fn spec_timescale(&self) -> Option<Seq<char>> {
        opt_string_view(self.timescale)
    }

    pub closed spec fn spec_delay(&self) -> Option<(u32, u32)> {
        self.delay
    }

    pub closed spec fn spec_emit_default(&self) -> bool {
        self.emit_default
    }

    pub closed spec fn wf(&self) -> bool {
        test_case_wf(*self.test_case)
    }

    /// Starts an emission over a test case, with no destination,
    /// directive or delays configured. Succeeds exactly on a
    /// well-formed test case.
    pub fn try_new(test_case: &'a TestCase) -> (r: Result<Self, EmitError>)
        ensures
            match r {
                Ok(b) => {
                    &&& test_case_wf(*test_case)
                    &&& b.wf()
                    &&& b.spec_test_case() == *test_case
                    &&& b.spec_output_path() is None
                    &&& b.spec_timescale() is None
                    &&& b.spec_delay() is None
                    &&& !b.spec_emit_default()
                },
                Err(e) => !test_case_wf(*test_case) && e == EmitError::MalformedTestCase,
            },
    {
        if check_test_case(test_case) {
            Ok(
                Builder {
                    test_case,
                    output_path: None,
                    timescale: None,
                    delay: None,
                    emit_default: false,
                },
            )
        } else {
            Err(EmitError::MalformedTestCase)
        }
    }

    /// Sets the output destination; `None` stands for standard output.
    /// The destination is configuration only: `done` returns the text,
    /// and the caller writes it where this says.
    pub fn with_output(self, path: Option<String>) -> (r: Self)
        ensures
            r.spec_output_path() == opt_string_view(path),
            r.spec_test_case() == self.spec_test_case(),
            r.spec_timescale() == self.spec_timescale(),
            r.spec_delay() == self.spec_delay(),
            r.spec_emit_default() == self.spec_emit_default(),
            r.wf() == self.wf(),
    {
        Builder { output_path: path, ..self }
    }

    /// Sets the timing-unit directive text, already normalized.
    pub fn with_timescale(self, timescale: Option<String>) -> (r: Self)
        ensures
            r.spec_timescale() == opt_string_view(timescale),
            r.spec_test_case() == self.spec_test_case(),
            r.spec_output_path() == self.spec_output_path(),
            r.spec_delay() == self.spec_delay(),
            r.spec_emit_default() == self.spec_emit_default(),
            r.wf() == self.wf(),
    {
        Builder { timescale, ..self }
    }

    /// Sets the delay pair: settle delay after the inputs, and delay
    /// after the checks.
    pub fn with_delay(self, delay: Option<(u32, u32)>) -> (r: Self)
        ensures
            r.spec_delay() == delay,
            r.spec_test_case() == self.spec_test_case(),
            r.spec_output_path() == self.spec_output_path(),
            r.spec_timescale() == self.spec_timescale(),
            r.spec_emit_default() == self.spec_emit_default(),
            r.wf() == self.wf(),
    {
        Builder { delay, ..self }
    }

    /// Sets whether a leading default/reset row is emitted before the
    /// main row sequence.
    pub fn with_default(self, emit_default: bool) -> (r: Self)
        ensures
            r.spec_emit_default() == emit_default,
            r.spec_test_case() == self.spec_test_case(),
            r.spec_output_path() == self.spec_output_path(),
            r.spec_timescale() == self.spec_timescale(),
            r.spec_delay() == self.spec_delay(),
            r.wf() == self.wf(),
    {
        Builder { emit_default, ..self }
    }

    /// The configured output destination, for the caller that writes.
    pub fn output_path(&self) -> (r: &Option<String>)
        ensures
            opt_string_view(*r) == self.spec_output_path(),
    {
        &self.output_path
    }

    /// Renders the complete testbench text for the configured
    /// emission.
    pub fn done(self) -> (r: String)
        requires
            self.wf(),
        ensures
            r@ == testbench_text(
                self.spec_test_case(),
                self.spec_timescale(),
                effective_delay(self.spec_delay()),
                self.spec_emit_default(),
            ),
    {
        let delay = match self.delay {
            Some(d) => d,
            None => (10, 0),
        };
        let ts: Option<&str> = match &self.timescale {
            Some(t) => Some(t.as_str()),
            None => None,
        };
        proof {
            assert(opt_str_view(ts) == self.spec_timescale());
        }
        render_testbench(self.test_case, ts, delay, self.emit_default)
    }
}

} // verus!
