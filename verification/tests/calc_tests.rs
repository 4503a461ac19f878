use luts::calc::{calc_plan_of, division_by_zero_message, CalcStep};

fn num(t: &str) -> CalcStep {
    CalcStep::Number(t.to_string())
}

fn mul(t: &str) -> CalcStep {
    CalcStep::Multiply(t.to_string())
}

fn div(t: &str) -> CalcStep {
    CalcStep::Divide(t.to_string())
}

fn fail(m: &str) -> CalcStep {
    CalcStep::Fail(m.to_string())
}

/// Runs a plan in floating point, as the calculator tool does.
fn run(plan: &[CalcStep]) -> Result<f64, String> {
    let mut result = 0.0;
    let mut pending = 0.0;
    let mut term = 0.0;
    for step in plan {
        match step {
            CalcStep::Number(t) => term = t.parse::<f64>().unwrap(),
            CalcStep::Multiply(t) => term *= t.parse::<f64>().unwrap(),
            CalcStep::Divide(t) => {
                let f = t.parse::<f64>().unwrap();
                if f == 0.0 {
                    return Err(division_by_zero_message().to_string());
                }
                term /= f;
            }
            CalcStep::Add => pending += term,
            CalcStep::Subtract => pending -= term,
            CalcStep::Flush => {
                result += pending;
                pending = 0.0;
            }
            CalcStep::Fail(m) => return Err(m.clone()),
            CalcStep::Unsupported => panic!("unsupported"),
        }
    }
    Ok(result)
}

#[test]
fn plan_follows_precedence() {
    assert_eq!(
        calc_plan_of("2 + 3 * 4"),
        vec![num("2"), CalcStep::Add, CalcStep::Flush, num("3"), mul("4"), CalcStep::Add, CalcStep::Flush]
    );
    assert_eq!(
        calc_plan_of("10-4/2"),
        vec![num("10"), CalcStep::Add, CalcStep::Flush, num("4"), div("2"), CalcStep::Subtract, CalcStep::Flush]
    );
}

#[test]
fn plan_reads_signed_and_decimal_numbers() {
    assert_eq!(
        calc_plan_of("-5 + 3.14"),
        vec![num("-5"), CalcStep::Add, CalcStep::Flush, num("3.14"), CalcStep::Add, CalcStep::Flush]
    );
    assert_eq!(
        calc_plan_of("1.2.3"),
        vec![num("1.2"), CalcStep::Add, num("3"), fail("Invalid operator: .")]
    );
}

#[test]
fn plan_reports_reading_errors() {
    assert_eq!(calc_plan_of("(2 + 3) * 4"), vec![fail("Invalid number: ")]);
    assert_eq!(
        calc_plan_of("2 + + 3"),
        vec![num("2"), CalcStep::Add, CalcStep::Flush, fail("Invalid number: ")]
    );
    assert_eq!(calc_plan_of("2x3"), vec![num("2"), CalcStep::Add, num("3"), fail("Invalid operator: x")]);
    assert_eq!(calc_plan_of("-"), vec![fail("Invalid number: -")]);
}

#[test]
fn plan_of_empty_expression_is_empty() {
    assert_eq!(calc_plan_of(""), vec![]);
    assert_eq!(calc_plan_of("   "), vec![]);
}

#[test]
fn plan_stops_at_non_ascii_operator() {
    assert_eq!(calc_plan_of("2é3"), vec![num("2"), CalcStep::Add, CalcStep::Unsupported]);
    assert_eq!(calc_plan_of("é"), vec![fail("Invalid number: ")]);
}

#[test]
fn test_evaluate_expression() {
    assert_eq!(run(&calc_plan_of("2 + 3")).unwrap(), 5.0);
    assert_eq!(run(&calc_plan_of("2 - 3")).unwrap(), -1.0);
    assert_eq!(run(&calc_plan_of("2 * 3")).unwrap(), 6.0);
    assert_eq!(run(&calc_plan_of("6 / 3")).unwrap(), 2.0);
    assert_eq!(run(&calc_plan_of("2 + 3 * 4")).unwrap(), 14.0);
    assert_eq!(run(&calc_plan_of("(2 + 3) * 4")).unwrap_err().to_string(), "Invalid number: ");
    assert_eq!(run(&calc_plan_of("6 / 0")).unwrap_err().to_string(), "Division by zero");
}

#[test]
fn plans_evaluate_like_the_calculator() {
    assert_eq!(run(&calc_plan_of("-5 + 3")), Ok(-2.0));
    assert_eq!(run(&calc_plan_of("  2   +   3  ")), Ok(5.0));
    assert_eq!(run(&calc_plan_of("2+3*4")), Ok(14.0));
    assert_eq!(run(&calc_plan_of("")), Ok(0.0));
    assert!(run(&calc_plan_of("2 + + 3")).is_err());
    assert!(run(&calc_plan_of("5 / 0")).is_err());
    assert!((run(&calc_plan_of("3.14 * 2")).unwrap() - 6.28).abs() < 0.001);
}

#[test]
fn trailing_operator_ends_reading() {
    assert_eq!(run(&calc_plan_of("2*")), Ok(2.0));
    assert_eq!(run(&calc_plan_of("2x")), Ok(0.0));
}

#[test]
fn plan_numbers_read_as_floats() {
    for expr in ["2+3.5*-4", "1.2.3", "-.5/5.", "7*8/9-10", "3x4.4.4"] {
        for step in calc_plan_of(expr) {
            match step {
                CalcStep::Number(t) | CalcStep::Multiply(t) | CalcStep::Divide(t) => {
                    assert!(t.parse::<f64>().is_ok(), "{}", t)
                }
                _ => {}
            }
        }
    }
}
