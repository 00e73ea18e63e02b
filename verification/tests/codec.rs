//! Identifier and value codec behaviour on concrete inputs.

use digital_test_to_verilog::ident::VerilogIdentifier;
use digital_test_to_verilog::model::{EmitError, InputValue, OutputValue, Signal, SignalDirection};
use digital_test_to_verilog::numfmt::{i64_to_dec, u64_to_dec};
use digital_test_to_verilog::value::VerilogValue;

#[test]
fn simple_names_render_bare() {
    assert_eq!(VerilogIdentifier::new("A").render(), "A");
    assert_eq!(VerilogIdentifier::new("_bus$2").render(), "_bus$2");
    assert_eq!(VerilogIdentifier::new("Counter_out").render(), "Counter_out");
}

#[test]
fn non_simple_names_render_escaped_with_delimiter() {
    assert_eq!(VerilogIdentifier::new("|S|").render(), "\\|S| ");
    assert_eq!(VerilogIdentifier::new("2fast").render(), "\\2fast ");
    assert_eq!(VerilogIdentifier::new("a-b").render(), "\\a-b ");
    assert_eq!(VerilogIdentifier::new("").render(), "\\ ");
}

#[test]
fn suffix_is_appended_without_separator() {
    assert_eq!(VerilogIdentifier::with_suffix("A", "_reg").render(), "A_reg");
    assert_eq!(
        VerilogIdentifier::with_suffix("|S|", "_reg").render(),
        "\\|S|_reg "
    );
}

#[test]
fn input_spelling_uses_shadow_register_for_bidirectional() {
    let bidi = Signal {
        name: String::from("D"),
        bits: 1,
        direction: SignalDirection::Bidirectional,
    };
    let plain = Signal {
        name: String::from("D"),
        bits: 1,
        direction: SignalDirection::Input,
    };
    assert_eq!(VerilogIdentifier::from_input(&bidi).render(), "D_reg");
    assert_eq!(VerilogIdentifier::from_input(&plain).render(), "D");
}

#[test]
fn escaped_identifier_reparses_to_original_name() {
    // The spelling of a name, fed back through the target format's
    // identifier tokenization, yields the name again.
    let tokenize = |text: &str| -> String {
        let chars: Vec<char> = text.chars().collect();
        if !chars.is_empty() && chars[0] == '\\' {
            chars[1..]
                .iter()
                .copied()
                .take_while(|c| *c != ' ')
                .collect::<String>()
        } else {
            chars
                .iter()
                .copied()
                .take_while(|c| c.is_ascii_alphanumeric() || *c == '_' || *c == '$')
                .collect::<String>()
        }
    };
    for name in ["A", "_bus$2", "|S|", "2fast", "a-b"] {
        let rendered = VerilogIdentifier::new(name).render();
        assert_eq!(tokenize(&rendered), name);
        let suffixed = VerilogIdentifier::with_suffix(name, "_reg").render();
        assert_eq!(tokenize(&suffixed), format!("{name}_reg"));
    }
}

#[test]
fn concrete_values_render_in_decimal() {
    assert_eq!(VerilogValue::Value(0).render(), "0");
    assert_eq!(VerilogValue::Value(2).render(), "2");
    assert_eq!(VerilogValue::Value(255).render(), "255");
    assert_eq!(VerilogValue::Value(-42).render(), "-42");
}

#[test]
fn concrete_literals_round_trip() {
    for n in [0i64, 1, 9, 10, 42, -1, -100, i64::MAX, i64::MIN] {
        let text = VerilogValue::Value(n).render();
        let back: i64 = text.parse().unwrap();
        assert_eq!(back, n);
    }
}

#[test]
fn high_impedance_renders_fixed_literal() {
    assert_eq!(VerilogValue::Z.render(), "'Z");
    assert_eq!(VerilogValue::from_input(InputValue::Z).render(), "'Z");
}

#[test]
fn wildcard_output_is_rejected_by_the_codec() {
    assert_eq!(
        VerilogValue::from_output(OutputValue::X),
        Err(EmitError::InvalidValue)
    );
    assert_eq!(
        VerilogValue::from_output(OutputValue::Value(7)),
        Ok(VerilogValue::Value(7))
    );
    assert_eq!(
        VerilogValue::from_output(OutputValue::Z),
        Ok(VerilogValue::Z)
    );
}

#[test]
fn decimal_rendering_matches_std() {
    for n in [0u64, 9, 10, 99, 100, 1000000007, u64::MAX] {
        assert_eq!(u64_to_dec(n), n.to_string());
    }
    for v in [0i64, -1, 1, -9, -10, i64::MIN, i64::MAX] {
        assert_eq!(i64_to_dec(v), v.to_string());
    }
}
