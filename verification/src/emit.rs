//! The emission engine proper: port and declaration synthesis, per-row
//! translation of stimulus and checks into timed statements, the
//! self-check macro and the pass/fail epilogue, and the orchestration
//! of all parts into one module text. Every emitted character is fixed
//! by the spec functions here.

use vstd::prelude::*;

use crate::ident::{ident_text, input_suffix, VerilogIdentifier};
use crate::model::{
    DataRow, ExpectedEntry, InputEntry, InputValue, OutputValue, Signal, SignalDirection, TestCase,
    row_wf, test_case_wf,
};
use crate::numfmt::{dec_seq, u64_to_dec};
use crate::value::{of_input, value_text, VerilogValue};

verus! {

/// The view of an optional borrowed string.
pub open spec fn opt_str_view(s: Option<&str>) -> Option<Seq<char>> {
    match s {
        Some(t) => Some(t@),
        None => None,
    }
}

/// Concatenation of a sequence of text fragments, in order.
pub open spec fn concat_lines(lines: Seq<Seq<char>>) -> Seq<char>
    decreases lines.len(),
{
    if lines.len() == 0 {
        Seq::empty()
    } else {
        concat_lines(lines.drop_last()) + lines.last()
    }
}

/// The port-list keyword for a direction: the harness drives inputs of
/// the device (a register output of the testbench), reads its outputs,
/// and shares bidirectional nets.
pub open spec fn direction_keyword(d: SignalDirection) -> Seq<char> {
    match d {
        SignalDirection::Input => "output reg"@,
        SignalDirection::Output => "input"@,
        SignalDirection::Bidirectional => "inout"@,
    }
}

/// The bit-range suffix of a declaration: `[width-1:0] ` when the
/// width is more than one bit, nothing otherwise.
pub open spec fn width_text(bits: u32) -> Seq<char> {
    if bits > 1 {
        "["@ + dec_seq((bits - 1) as nat) + ":0] "@
    } else {
        Seq::empty()
    }
}

/// One entry of the module port list.
pub open spec fn port_entry(sig: Signal) -> Seq<char> {
    "    "@ + direction_keyword(sig.direction) + " "@ + width_text(sig.bits) + ident_text(
        sig.name@,
        None,
    )
}

/// The port entries, one per signal, in the signal list's given order.
pub open spec fn port_entries(sigs: Seq<Signal>) -> Seq<Seq<char>>
    decreases sigs.len(),
{
    if sigs.len() == 0 {
        Seq::empty()
    } else {
        port_entries(sigs.drop_last()).push(port_entry(sigs.last()))
    }
}

/// The port entries joined by comma-newline separators.
pub open spec fn join_ports(entries: Seq<Seq<char>>) -> Seq<char>
    decreases entries.len(),
{
    if entries.len() == 0 {
        Seq::empty()
    } else if entries.len() == 1 {
        entries[0]
    } else {
        join_ports(entries.drop_last()) + ",\n"@ + entries.last()
    }
}

/// The shadow-register declaration of a bidirectional signal: a
/// harness-local register under the reserved suffix, initially at high
/// impedance.
pub open spec fn shadow_decl(sig: Signal) -> Seq<char> {
    "reg "@ + ident_text(sig.name@, Some("_reg"@)) + " = "@ + value_text(VerilogValue::Z) + ";\n"@
}

/// The continuous assignment driving a bidirectional net from its
/// shadow register.
pub open spec fn assign_decl(sig: Signal) -> Seq<char> {
    "assign "@ + ident_text(sig.name@, None) + " = "@ + ident_text(sig.name@, Some("_reg"@))
        + ";\n"@
}

/// One shadow-register declaration per bidirectional signal, and none
/// for any other signal.
pub open spec fn shadow_decls(sigs: Seq<Signal>) -> Seq<Seq<char>>
    decreases sigs.len(),
{
    if sigs.len() == 0 {
        Seq::empty()
    } else {
        let rest = shadow_decls(sigs.drop_last());
        if sigs.last().direction == SignalDirection::Bidirectional {
            rest.push(shadow_decl(sigs.last()))
        } else {
            rest
        }
    }
}

/// One continuous assignment per bidirectional signal, and none for
/// any other signal.
pub open spec fn assign_decls(sigs: Seq<Signal>) -> Seq<Seq<char>>
    decreases sigs.len(),
{
    if sigs.len() == 0 {
        Seq::empty()
    } else {
        let rest = assign_decls(sigs.drop_last());
        if sigs.last().direction == SignalDirection::Bidirectional {
            rest.push(assign_decl(sigs.last()))
        } else {
            rest
        }
    }
}

/// The number of bidirectional signals in the list.
pub open spec fn count_bidirectional(sigs: Seq<Signal>) -> nat
    decreases sigs.len(),
{
    if sigs.len() == 0 {
        0
    } else {
        count_bidirectional(sigs.drop_last()) + if sigs.last().direction
            == SignalDirection::Bidirectional {
            1nat
        } else {
            0nat
        }
    }
}

/// Exactly one shadow register and exactly one continuous assignment
/// are emitted per bidirectional signal, and none for pure input or
/// output signals.
pub proof fn lemma_bidirectional_decl_counts(sigs: Seq<Signal>)
    ensures
        shadow_decls(sigs).len() == count_bidirectional(sigs),
        assign_decls(sigs).len() == count_bidirectional(sigs),
    decreases sigs.len(),
{
    if sigs.len() > 0 {
        lemma_bidirectional_decl_counts(sigs.drop_last());
    }
}

/// One timed input assignment: the harness-side spelling of the signal
/// (through the shadow register for a bidirectional signal) set to the
/// encoded value.
pub open spec fn assignment_line(e: InputEntry, sigs: Seq<Signal>) -> Seq<char> {
    "    "@ + ident_text(sigs[e.signal as int].name@, input_suffix(sigs[e.signal as int].direction))
        + " = "@ + value_text(of_input(e.value)) + ";\n"@
}

/// The assignment statements of a row: one per changed-flagged input
/// entry, in order; unchanged entries are not emitted.
pub open spec fn assignment_lines(inputs: Seq<InputEntry>, sigs: Seq<Signal>) -> Seq<Seq<char>>
    decreases inputs.len(),
{
    if inputs.len() == 0 {
        Seq::empty()
    } else {
        let rest = assignment_lines(inputs.drop_last(), sigs);
        if inputs.last().changed {
            rest.push(assignment_line(inputs.last(), sigs))
        } else {
            rest
        }
    }
}

/// The literal text of a checked expected value; the wildcard has none
/// and never reaches an assertion.
pub open spec fn checked_value_text(v: OutputValue) -> Seq<char> {
    match v {
        OutputValue::Value(n) => value_text(VerilogValue::Value(n)),
        OutputValue::Z => value_text(VerilogValue::Z),
        OutputValue::X => Seq::empty(),
    }
}

/// One self-check assertion: the diagnostic line reference, the target
/// identifier and the expected literal handed to the assertion macro.
pub open spec fn assertion_line(line: u64, e: ExpectedEntry, sigs: Seq<Signal>) -> Seq<char> {
    "    `assert_eq("@ + dec_seq(line as nat) + ", "@ + ident_text(sigs[e.signal as int].name@, None)
        + ", "@ + checked_value_text(e.value) + ");\n"@
}

/// The assertion statements of a row: one per checked-output entry, in
/// order; wildcard entries are not emitted.
pub open spec fn assertion_lines(line: u64, expected: Seq<ExpectedEntry>, sigs: Seq<Signal>) -> Seq<
    Seq<char>,
>
    decreases expected.len(),
{
    if expected.len() == 0 {
        Seq::empty()
    } else {
        let rest = assertion_lines(line, expected.drop_last(), sigs);
        if expected.last().value != OutputValue::X {
            rest.push(assertion_line(line, expected.last(), sigs))
        } else {
            rest
        }
    }
}

/// The number of changed-flagged input entries.
pub open spec fn count_changed(inputs: Seq<InputEntry>) -> nat
    decreases inputs.len(),
{
    if inputs.len() == 0 {
        0
    } else {
        count_changed(inputs.drop_last()) + if inputs.last().changed {
            1nat
        } else {
            0nat
        }
    }
}

/// The number of checked (non-wildcard) expected entries.
pub open spec fn count_checked(expected: Seq<ExpectedEntry>) -> nat
    decreases expected.len(),
{
    if expected.len() == 0 {
        0
    } else {
        count_checked(expected.drop_last()) + if expected.last().value != OutputValue::X {
            1nat
        } else {
            0nat
        }
    }
}

/// For any row, as many assignment statements are emitted as there are
/// changed-flagged input entries, and as many assertions as there are
/// checked-output entries — wildcards never appear in the output.
pub proof fn lemma_row_statement_counts(
    line: u64,
    inputs: Seq<InputEntry>,
    expected: Seq<ExpectedEntry>,
    sigs: Seq<Signal>,
)
    ensures
        assignment_lines(inputs, sigs).len() == count_changed(inputs),
        assertion_lines(line, expected, sigs).len() == count_checked(expected),
    decreases inputs.len() + expected.len(),
{
    if inputs.len() > 0 {
        lemma_row_statement_counts(line, inputs.drop_last(), expected, sigs);
    } else if expected.len() > 0 {
        lemma_row_statement_counts(line, inputs, expected.drop_last(), sigs);
    }
}

/// A delay statement.
pub open spec fn delay_line(d: u32) -> Seq<char> {
    "#"@ + dec_seq(d as nat) + ";\n"@
}

/// The timed statement block of one row: the changed-input
/// assignments, the settle delay, the assertions, the post-check delay
/// when it is non-zero, and a blank separator line. A row with no
/// changed inputs still gets its delays and checks, and a pure
/// stimulus row still gets both delays.
pub open spec fn row_text(row: DataRow, sigs: Seq<Signal>, delay: (u32, u32)) -> Seq<char> {
    concat_lines(assignment_lines(row.inputs@, sigs)) + delay_line(delay.0) + concat_lines(
        assertion_lines(row.line, row.expected@, sigs),
    ) + (if delay.1 > 0 {
        delay_line(delay.1)
    } else {
        Seq::empty()
    }) + "\n"@
}

/// The statement blocks of all rows, in simulation-time order.
pub open spec fn rows_text(rows: Seq<DataRow>, sigs: Seq<Signal>, delay: (u32, u32)) -> Seq<char>
    decreases rows.len(),
{
    if rows.len() == 0 {
        Seq::empty()
    } else {
        rows_text(rows.drop_last(), sigs, delay) + row_text(rows.last(), sigs, delay)
    }
}

/// The self-check assertion macro: compares with four-state inequality
/// (so high impedance and unknown compare distinctly from concrete
/// mismatches), prints a diagnostic with the line reference, and
/// increments the failure counter on mismatch.
pub open spec fn macro_text() -> Seq<char> {
    "`define assert_eq(line_num, signal, value) \\\n    if (signal !== value) begin \\\n        $display(\"ASSERTION FAILED on line line_num: signal != value\"); \\\n        error_count += 1; \\\n    end\n\n"@
}

/// The pass/fail epilogue: on a non-zero failure count, a failure
/// banner and a non-zero simulator exit; otherwise a success banner.
pub open spec fn epilogue_text() -> Seq<char> {
    "  if(error_count > 0) begin\n    $display(\"There were failed assertions\");\n    $finish_and_return(1);\n  end\n  $display(\"All tests passed.\");\n"@
}

/// The optional leading timing-unit directive.
pub open spec fn timescale_text(ts: Option<Seq<char>>) -> Seq<char> {
    match ts {
        Some(t) => "`timescale "@ + t + "\n\n"@,
        None => Seq::empty(),
    }
}

/// The leading reset/idle block: the default row's statement block
/// when its emission is configured and the test provides one, nothing
/// otherwise.
pub open spec fn default_row_text(
    tc: TestCase,
    emit_default: bool,
    delay: (u32, u32),
) -> Seq<char> {
    if emit_default {
        match tc.default_row {
            Some(r) => row_text(r, tc.signals@, delay),
            None => Seq::empty(),
        }
    } else {
        Seq::empty()
    }
}

/// The complete testbench module: the optional timescale directive,
/// the assertion macro, the port list in the signal list's order, the
/// failure counter, the bidirectional shadow machinery, the optional
/// leading default row, the row blocks, and the epilogue.
pub open spec fn testbench_text(
    tc: TestCase,
    ts: Option<Seq<char>>,
    delay: (u32, u32),
    emit_default: bool,
) -> Seq<char> {
    timescale_text(ts) + macro_text() + "module tb (\n"@ + join_ports(port_entries(tc.signals@))
        + "\n);\n"@ + "integer error_count = 0;\n"@ + concat_lines(shadow_decls(tc.signals@))
        + concat_lines(assign_decls(tc.signals@)) + "initial begin\n"@ + default_row_text(
        tc,
        emit_default,
        delay,
    ) + rows_text(tc.rows@, tc.signals@, delay) + epilogue_text() + "end\nendmodule\n"@
}

proof fn lemma_port_entries_len(sigs: Seq<Signal>)
    ensures
        port_entries(sigs).len() == sigs.len(),
    decreases sigs.len(),
{
    if sigs.len() > 0 {
        lemma_port_entries_len(sigs.drop_last());
    }
}

fn render_port_entry(sig: &Signal) -> (r: String)
    ensures
        r@ == port_entry(*sig),
{
    let mut out = String::from_str("    ");
    match sig.direction {
        SignalDirection::Input => out.append("output reg"),
        SignalDirection::Output => out.append("input"),
        SignalDirection::Bidirectional => out.append("inout"),
    }
    out.append(" ");
    if sig.bits > 1 {
        out.append("[");
        out.append(u64_to_dec((sig.bits - 1) as u64).as_str());
        out.append(":0] ");
    }
    let id = VerilogIdentifier::new(sig.name.as_str());
    out.append(id.render().as_str());
    proof {
        assert(out@ =~= port_entry(*sig));
    }
    out
}

/// Renders the port list, joined by comma-newline, in given order.
fn render_ports(signals: &Vec<Signal>) -> (r: String)
    ensures
        r@ == join_ports(port_entries(signals@)),
{
    let mut out = String::new();
    let n = signals.len();
    let mut i: usize = 0;
    while i < n
        invariant
            i <= n,
            n == signals@.len(),
            out@ == join_ports(port_entries(signals@.take(i as int))),
        decreases n - i,
    {
        let entry = render_port_entry(&signals[i]);
        if i > 0 {
            out.append(",\n");
        }
        out.append(entry.as_str());
        proof {
            let sv = signals@;
            let t0 = sv.take(i as int);
            let t1 = sv.take(i as int + 1);
            assert(t1.drop_last() =~= t0);
            assert(t1.last() == sv[i as int]);
            let es0 = port_entries(t0);
            let es1 = port_entries(t1);
            assert(es1 == es0.push(port_entry(sv[i as int])));
            lemma_port_entries_len(t0);
            assert(es1.drop_last() =~= es0);
            if i == 0 {
                assert(out@ =~= join_ports(es1));
            } else {
                assert(join_ports(es1) == join_ports(es0) + ",\n"@ + es1.last());
                assert(out@ =~= join_ports(es1));
            }
        }
        i = i + 1;
    }
    proof {
        assert(signals@.take(n as int) =~= signals@);
    }
    out
}

fn render_shadow_decl(sig: &Signal) -> (r: String)
    ensures
        r@ == shadow_decl(*sig),
{
    let mut out = String::from_str("reg ");
    let id = VerilogIdentifier::with_suffix(sig.name.as_str(), "_reg");
    out.append(id.render().as_str());
    out.append(" = ");
    out.append(VerilogValue::from_input(InputValue::Z).render().as_str());
    out.append(";\n");
    proof {
        assert(out@ =~= shadow_decl(*sig));
    }
    out
}

fn render_assign_decl(sig: &Signal) -> (r: String)
    ensures
        r@ == assign_decl(*sig),
{
    let mut out = String::from_str("assign ");
    let net = VerilogIdentifier::new(sig.name.as_str());
    out.append(net.render().as_str());
    out.append(" = ");
    let reg = VerilogIdentifier::with_suffix(sig.name.as_str(), "_reg");
    out.append(reg.render().as_str());
    out.append(";\n");
    proof {
        assert(out@ =~= assign_decl(*sig));
    }
    out
}

/// Renders the shadow-register declarations of the bidirectional
/// signals, in given order.
fn render_shadow_decls(signals: &Vec<Signal>) -> (r: String)
    ensures
        r@ == concat_lines(shadow_decls(signals@)),
{
    let mut out = String::new();
    let n = signals.len();
    let mut i: usize = 0;
    while i < n
        invariant
            i <= n,
            n == signals@.len(),
            out@ == concat_lines(shadow_decls(signals@.take(i as int))),
        decreases n - i,
    {
        if signals[i].is_bidirectional() {
            out.append(render_shadow_decl(&signals[i]).as_str());
        }
        proof {
            let sv = signals@;
            let t0 = sv.take(i as int);
            let t1 = sv.take(i as int + 1);
            assert(t1.drop_last() =~= t0);
            assert(t1.last() == sv[i as int]);
            let ds0 = shadow_decls(t0);
            let ds1 = shadow_decls(t1);
            if sv[i as int].direction == SignalDirection::Bidirectional {
                assert(ds1 == ds0.push(shadow_decl(sv[i as int])));
                assert(ds1.drop_last() =~= ds0);
                assert(out@ =~= concat_lines(ds1));
            } else {
                assert(ds1 == ds0);
            }
        }
        i = i + 1;
    }
    proof {
        assert(signals@.take(n as int) =~= signals@);
    }
    out
}

/// Renders the continuous assignments of the bidirectional signals, in
/// given order.
fn render_assign_decls(signals: &Vec<Signal>) -> (r: String)
    ensures
        r@ == concat_lines(assign_decls(signals@)),
{
    let mut out = String::new();
    let n = signals.len();
    let mut i: usize = 0;
    while i < n
        invariant
            i <= n,
            n == signals@.len(),
            out@ == concat_lines(assign_decls(signals@.take(i as int))),
        decreases n - i,
    {
        if signals[i].is_bidirectional() {
            out.append(render_assign_decl(&signals[i]).as_str());
        }
        proof {
            let sv = signals@;
            let t0 = sv.take(i as int);
            let t1 = sv.take(i as int + 1);
            assert(t1.drop_last() =~= t0);
            assert(t1.last() == sv[i as int]);
            let ds0 = assign_decls(t0);
            let ds1 = assign_decls(t1);
            if sv[i as int].direction == SignalDirection::Bidirectional {
                assert(ds1 == ds0.push(assign_decl(sv[i as int])));
                assert(ds1.drop_last() =~= ds0);
                assert(out@ =~= concat_lines(ds1));
            } else {
                assert(ds1 == ds0);
            }
        }
        i = i + 1;
    }
    proof {
        assert(signals@.take(n as int) =~= signals@);
    }
    out
}

/// Renders the changed-input assignments of a row, in entry order.
fn render_assignments(inputs: &Vec<InputEntry>, signals: &Vec<Signal>) -> (r: String)
    requires
        forall|i: int| 0 <= i < inputs@.len() ==> (#[trigger] inputs@[i]).signal < signals@.len(),
    ensures
        r@ == concat_lines(assignment_lines(inputs@, signals@)),
{
    let mut out = String::new();
    let n = inputs.len();
    let mut i: usize = 0;
    while i < n
        invariant
            i <= n,
            n == inputs@.len(),
            forall|j: int|
                0 <= j < inputs@.len() ==> (#[trigger] inputs@[j]).signal < signals@.len(),
            out@ == concat_lines(assignment_lines(inputs@.take(i as int), signals@)),
        decreases n - i,
    {
        let e = inputs[i];
        if e.changed {
            out.append("    ");
            let id = VerilogIdentifier::from_input(&signals[e.signal]);
            out.append(id.render().as_str());
            out.append(" = ");
            out.append(VerilogValue::from_input(e.value).render().as_str());
            out.append(";\n");
        }
        proof {
            let iv = inputs@;
            let t0 = iv.take(i as int);
            let t1 = iv.take(i as int + 1);
            assert(t1.drop_last() =~= t0);
            assert(t1.last() == iv[i as int]);
            let ls0 = assignment_lines(t0, signals@);
            let ls1 = assignment_lines(t1, signals@);
            if iv[i as int].changed {
                assert(ls1 == ls0.push(assignment_line(iv[i as int], signals@)));
                assert(ls1.drop_last() =~= ls0);
                assert(out@ =~= concat_lines(ls1));
            } else {
                assert(ls1 == ls0);
            }
        }
        i = i + 1;
    }
    proof {
        assert(inputs@.take(n as int) =~= inputs@);
    }
    out
}

/// Renders the assertions of a row, one per checked entry, skipping
/// wildcards.
fn render_assertions(line: u64, expected: &Vec<ExpectedEntry>, signals: &Vec<Signal>) -> (r: String)
    requires
        forall|i: int|
            0 <= i < expected@.len() ==> (#[trigger] expected@[i]).signal < signals@.len(),
    ensures
        r@ == concat_lines(assertion_lines(line, expected@, signals@)),
{
    let mut out = String::new();
    let n = expected.len();
    let mut i: usize = 0;
    while i < n
        invariant
            i <= n,
            n == expected@.len(),
            forall|j: int|
                0 <= j < expected@.len() ==> (#[trigger] expected@[j]).signal < signals@.len(),
            out@ == concat_lines(assertion_lines(line, expected@.take(i as int), signals@)),
        decreases n - i,
    {
        let e = expected[i];
        match VerilogValue::from_output(e.value) {
            Ok(v) => {
                out.append("    `assert_eq(");
                out.append(u64_to_dec(line).as_str());
                out.append(", ");
                let id = VerilogIdentifier::new(signals[e.signal].name.as_str());
                out.append(id.render().as_str());
                out.append(", ");
                out.append(v.render().as_str());
                out.append(");\n");
            },
            Err(_) => (),
        }
        proof {
            let ev = expected@;
            let t0 = ev.take(i as int);
            let t1 = ev.take(i as int + 1);
            assert(t1.drop_last() =~= t0);
            assert(t1.last() == ev[i as int]);
            let ls0 = assertion_lines(line, t0, signals@);
            let ls1 = assertion_lines(line, t1, signals@);
            if ev[i as int].value != OutputValue::X {
                assert(ls1 == ls0.push(assertion_line(line, ev[i as int], signals@)));
                assert(ls1.drop_last() =~= ls0);
                assert(out@ =~= concat_lines(ls1));
            } else {
                assert(ls1 == ls0);
            }
        }
        i = i + 1;
    }
    proof {
        assert(expected@.take(n as int) =~= expected@);
    }
    out
}

/// Renders the timed statement block of one row.
fn render_row(row: &DataRow, signals: &Vec<Signal>, delay: (u32, u32)) -> (r: String)
    requires
        row_wf(*row, signals@.len() as int),
    ensures
        r@ == row_text(*row, signals@, delay),
{
    let mut out = render_assignments(&row.inputs, signals);
    out.append("#");
    out.append(u64_to_dec(delay.0 as u64).as_str());
    out.append(";\n");
    out.append(render_assertions(row.line, &row.expected, signals).as_str());
    if delay.1 > 0 {
        out.append("#");
        out.append(u64_to_dec(delay.1 as u64).as_str());
        out.append(";\n");
    }
    out.append("\n");
    proof {
        assert(out@ =~= row_text(*row, signals@, delay));
    }
    out
}

/// Renders all row blocks in simulation-time order: one single forward
/// pass over the rows.
fn render_rows(rows: &Vec<DataRow>, signals: &Vec<Signal>, delay: (u32, u32)) -> (r: String)
    requires
        forall|i: int| 0 <= i < rows@.len() ==> row_wf(#[trigger] rows@[i], signals@.len() as int),
    ensures
        r@ == rows_text(rows@, signals@, delay),
{
    let mut out = String::new();
    let n = rows.len();
    let mut i: usize = 0;
    while i < n
        invariant
            i <= n,
            n == rows@.len(),
            forall|j: int|
                0 <= j < rows@.len() ==> row_wf(#[trigger] rows@[j], signals@.len() as int),
            out@ == rows_text(rows@.take(i as int), signals@, delay),
        decreases n - i,
    {
        out.append(render_row(&rows[i], signals, delay).as_str());
        proof {
            let rv = rows@;
            let t0 = rv.take(i as int);
            let t1 = rv.take(i as int + 1);
            assert(t1.drop_last() =~= t0);
            assert(t1.last() == rv[i as int]);
            assert(out@ =~= rows_text(t1, signals@, delay));
        }
        i = i + 1;
    }
    proof {
        assert(rows@.take(n as int) =~= rows@);
    }
    out
}

/// Renders the complete testbench module text for a well-formed test
/// case, with the optional timescale directive, the configured delay
/// pair, and the optional leading default row.
pub fn render_testbench(
    tc: &TestCase,
    timescale: Option<&str>,
    delay: (u32, u32),
    emit_default: bool,
) -> (r: String)
    requires
        test_case_wf(*tc),
    ensures
        r@ == testbench_text(*tc, opt_str_view(timescale), delay, emit_default),
{
    let mut out = String::new();
    match timescale {
        Some(t) => {
            out.append("`timescale ");
            out.append(t);
            out.append("\n\n");
        },
        None => (),
    }
    out.append(
        "`define assert_eq(line_num, signal, value) \\\n    if (signal !== value) begin \\\n        $display(\"ASSERTION FAILED on line line_num: signal != value\"); \\\n        error_count += 1; \\\n    end\n\n",
    );
    out.append("module tb (\n");
    out.append(render_ports(&tc.signals).as_str());
    out.append("\n);\n");
    out.append("integer error_count = 0;\n");
    out.append(render_shadow_decls(&tc.signals).as_str());
    out.append(render_assign_decls(&tc.signals).as_str());
    out.append("initial begin\n");
    if emit_default {
        match &tc.default_row {
            Some(r) => out.append(render_row(r, &tc.signals, delay).as_str()),
            None => (),
        }
    }
    out.append(render_rows(&tc.rows, &tc.signals, delay).as_str());
    out.append(
        "  if(error_count > 0) begin\n    $display(\"There were failed assertions\");\n    $finish_and_return(1);\n  end\n  $display(\"All tests passed.\");\n",
    );
    out.append("end\nendmodule\n");
    proof {
        assert(out@ =~= testbench_text(*tc, opt_str_view(timescale), delay, emit_default));
    }
    out
}

} // verus!
