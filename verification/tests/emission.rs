//! Whole-testbench emission: port synthesis, bidirectional shadow
//! machinery, row translation and the epilogue, checked against exact
//! expected text.

use digital_test_to_verilog::model::{
    DataRow, EmitError, ExpectedEntry, InputEntry, InputValue, OutputValue, Signal,
    SignalDirection, TestCase,
};
use digital_test_to_verilog::Builder;

fn signal(name: &str, bits: u32, direction: SignalDirection) -> Signal {
    Signal {
        name: String::from(name),
        bits,
        direction,
    }
}

/// The two-input, one-checked-output adder test case: `A` and `B` are
/// eight-bit inputs, `|S|` is the checked eight-bit sum, `C` a
/// one-bit output left unchecked on the only row.
fn adder_test_case() -> TestCase {
    TestCase {
        default_row: None,
        signals: vec![
            signal("A", 8, SignalDirection::Input),
            signal("B", 8, SignalDirection::Input),
            signal("|S|", 8, SignalDirection::Output),
            signal("C", 1, SignalDirection::Output),
        ],
        rows: vec![DataRow {
            line: 2,
            inputs: vec![
                InputEntry {
                    signal: 0,
                    value: InputValue::Value(1),
                    changed: true,
                },
                InputEntry {
                    signal: 1,
                    value: InputValue::Value(1),
                    changed: true,
                },
            ],
            expected: vec![
                ExpectedEntry {
                    signal: 2,
                    value: OutputValue::Value(2),
                },
                ExpectedEntry {
                    signal: 3,
                    value: OutputValue::X,
                },
            ],
        }],
    }
}

fn expected_output(pre: &str, delay1: &str, delay2: &str) -> String {
    format!(
        r#"{pre}`define assert_eq(line_num, signal, value) \
    if (signal !== value) begin \
        $display("ASSERTION FAILED on line line_num: signal != value"); \
        error_count += 1; \
    end

module tb (
    output reg [7:0] A,
    output reg [7:0] B,
    input [7:0] \|S| ,
    input C
);
integer error_count = 0;
initial begin
    A = 1;
    B = 1;
{delay1}
    `assert_eq(2, \|S| , 2);
{delay2}
  if(error_count > 0) begin
    $display("There were failed assertions");
    $finish_and_return(1);
  end
  $display("All tests passed.");
end
endmodule
"#
    )
}

#[test]
fn can_load_test_file() {
    let expected = expected_output("", "#10;", "");
    let tc = adder_test_case();
    let text = Builder::try_new(&tc)
        .unwrap()
        .with_delay(Some((10, 0)))
        .done();
    assert_eq!(text, expected);
}

#[test]
fn end_to_end_emits_timescale_prefix() {
    let expected = expected_output("`timescale 1us/1ns\n\n", "#10;", "");
    let tc = adder_test_case();
    let text = Builder::try_new(&tc)
        .unwrap()
        .with_delay(Some((10, 0)))
        .with_timescale(Some(String::from("1us/1ns")))
        .done();
    assert_eq!(text, expected);
}

#[test]
fn end_to_end_emits_both_delays() {
    let expected = expected_output("", "#20;", "#10;\n");
    let tc = adder_test_case();
    let text = Builder::try_new(&tc)
        .unwrap()
        .with_delay(Some((20, 10)))
        .done();
    assert_eq!(text, expected);
}

#[test]
fn default_delay_pair_is_ten_then_zero() {
    let expected = expected_output("", "#10;", "");
    let tc = adder_test_case();
    let text = Builder::try_new(&tc).unwrap().done();
    assert_eq!(text, expected);
}

#[test]
fn bidirectional_signal_gets_one_shadow_register_and_one_assignment() {
    let tc = TestCase {
        default_row: None,
        signals: vec![
            signal("A", 1, SignalDirection::Input),
            signal("D", 4, SignalDirection::Bidirectional),
            signal("Q", 1, SignalDirection::Output),
        ],
        rows: vec![],
    };
    let text = Builder::try_new(&tc).unwrap().done();
    assert_eq!(text.matches("reg D_reg = 'Z;\n").count(), 1);
    assert_eq!(text.matches("assign D = D_reg;\n").count(), 1);
    // No shadow machinery for the pure input and output signals.
    assert_eq!(text.matches("A_reg").count(), 0);
    assert_eq!(text.matches("Q_reg").count(), 0);
    // The port list declares the bidirectional net as inout.
    assert!(text.contains("    inout [3:0] D"));
}

#[test]
fn bidirectional_inputs_are_driven_through_the_shadow_register() {
    let tc = TestCase {
        default_row: None,
        signals: vec![signal("D", 1, SignalDirection::Bidirectional)],
        rows: vec![DataRow {
            line: 1,
            inputs: vec![InputEntry {
                signal: 0,
                value: InputValue::Z,
                changed: true,
            }],
            expected: vec![],
        }],
    };
    let text = Builder::try_new(&tc).unwrap().done();
    assert!(text.contains("    D_reg = 'Z;\n"));
}

#[test]
fn assignment_count_equals_changed_entries_and_assertion_count_equals_checked_entries() {
    let tc = TestCase {
        default_row: None,
        signals: vec![
            signal("A", 1, SignalDirection::Input),
            signal("B", 1, SignalDirection::Input),
            signal("C", 1, SignalDirection::Input),
            signal("X0", 1, SignalDirection::Output),
            signal("X1", 1, SignalDirection::Output),
            signal("X2", 1, SignalDirection::Output),
        ],
        rows: vec![DataRow {
            line: 7,
            inputs: vec![
                InputEntry {
                    signal: 0,
                    value: InputValue::Value(1),
                    changed: true,
                },
                InputEntry {
                    signal: 1,
                    value: InputValue::Value(0),
                    changed: false,
                },
                InputEntry {
                    signal: 2,
                    value: InputValue::Value(1),
                    changed: true,
                },
            ],
            expected: vec![
                ExpectedEntry {
                    signal: 3,
                    value: OutputValue::Value(1),
                },
                ExpectedEntry {
                    signal: 4,
                    value: OutputValue::X,
                },
                ExpectedEntry {
                    signal: 5,
                    value: OutputValue::Z,
                },
            ],
        }],
    };
    let text = Builder::try_new(&tc).unwrap().done();
    // Two changed inputs give two assignments; the unchanged one is
    // not emitted.
    assert_eq!(text.matches(" = 1;\n").count(), 2);
    assert!(!text.contains("B = "));
    // Two checked outputs give two assertions; the wildcard never
    // appears.
    assert_eq!(text.matches("`assert_eq(7, ").count(), 2);
    assert!(text.contains("`assert_eq(7, X0, 1);\n"));
    assert!(text.contains("`assert_eq(7, X2, 'Z);\n"));
    assert!(!text.contains("`assert_eq(7, X1"));
}

#[test]
fn row_with_no_changed_inputs_still_emits_delay_and_checks() {
    let tc = TestCase {
        default_row: None,
        signals: vec![
            signal("A", 1, SignalDirection::Input),
            signal("Q", 1, SignalDirection::Output),
        ],
        rows: vec![DataRow {
            line: 3,
            inputs: vec![InputEntry {
                signal: 0,
                value: InputValue::Value(0),
                changed: false,
            }],
            expected: vec![ExpectedEntry {
                signal: 1,
                value: OutputValue::Value(0),
            }],
        }],
    };
    let text = Builder::try_new(&tc).unwrap().with_delay(Some((5, 0))).done();
    assert!(text.contains("initial begin\n#5;\n    `assert_eq(3, Q, 0);\n\n"));
}

#[test]
fn pure_stimulus_row_still_emits_both_delays() {
    let tc = TestCase {
        default_row: None,
        signals: vec![signal("A", 1, SignalDirection::Input)],
        rows: vec![DataRow {
            line: 4,
            inputs: vec![InputEntry {
                signal: 0,
                value: InputValue::Value(1),
                changed: true,
            }],
            expected: vec![],
        }],
    };
    let text = Builder::try_new(&tc).unwrap().with_delay(Some((6, 2))).done();
    assert!(text.contains("initial begin\n    A = 1;\n#6;\n#2;\n\n"));
}

#[test]
fn rows_are_emitted_in_given_order() {
    let tc = TestCase {
        default_row: None,
        signals: vec![signal("A", 1, SignalDirection::Input)],
        rows: vec![
            DataRow {
                line: 1,
                inputs: vec![InputEntry {
                    signal: 0,
                    value: InputValue::Value(0),
                    changed: true,
                }],
                expected: vec![],
            },
            DataRow {
                line: 2,
                inputs: vec![InputEntry {
                    signal: 0,
                    value: InputValue::Value(1),
                    changed: true,
                }],
                expected: vec![],
            },
        ],
    };
    let text = Builder::try_new(&tc).unwrap().with_delay(Some((1, 0))).done();
    let first = text.find("    A = 0;").unwrap();
    let second = text.find("    A = 1;").unwrap();
    assert!(first < second);
}

#[test]
fn malformed_test_case_is_rejected() {
    let bad_index = TestCase {
        default_row: None,
        signals: vec![signal("A", 1, SignalDirection::Input)],
        rows: vec![DataRow {
            line: 1,
            inputs: vec![InputEntry {
                signal: 1,
                value: InputValue::Value(0),
                changed: true,
            }],
            expected: vec![],
        }],
    };
    assert!(matches!(
        Builder::try_new(&bad_index),
        Err(EmitError::MalformedTestCase)
    ));
    let bad_width = TestCase {
        default_row: None,
        signals: vec![signal("A", 0, SignalDirection::Input)],
        rows: vec![],
    };
    assert!(matches!(
        Builder::try_new(&bad_width),
        Err(EmitError::MalformedTestCase)
    ));
}

#[test]
fn output_path_is_kept_as_configured() {
    let tc = adder_test_case();
    let b = Builder::try_new(&tc)
        .unwrap()
        .with_output(Some(String::from("tb.v")));
    assert_eq!(b.output_path().as_deref(), Some("tb.v"));
}

#[test]
fn default_row_is_prepended_only_when_configured() {
    let tc = TestCase {
        default_row: Some(DataRow {
            line: 0,
            inputs: vec![InputEntry {
                signal: 0,
                value: InputValue::Value(0),
                changed: true,
            }],
            expected: vec![],
        }),
        signals: vec![signal("A", 1, SignalDirection::Input)],
        rows: vec![DataRow {
            line: 5,
            inputs: vec![InputEntry {
                signal: 0,
                value: InputValue::Value(1),
                changed: true,
            }],
            expected: vec![],
        }],
    };
    let with_default = Builder::try_new(&tc)
        .unwrap()
        .with_delay(Some((10, 0)))
        .with_default(true)
        .done();
    assert!(with_default.contains("initial begin\n    A = 0;\n#10;\n\n    A = 1;\n"));
    let without_default = Builder::try_new(&tc)
        .unwrap()
        .with_delay(Some((10, 0)))
        .done();
    assert!(without_default.contains("initial begin\n    A = 1;\n"));
    assert!(!without_default.contains("A = 0;"));
}
