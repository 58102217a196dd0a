use cryptography::arithmetization::r1cs::{Program, Variable, R1CS};
use cryptography::arithmetization::text::{is_whitespace, split, trim};

fn names(program: &Program) -> Vec<&str> {
    program.variables.iter().map(|v| v.name.as_str()).collect()
}

#[test]
fn program_reads_two_statements() {
    let program = Program::new("v = x * x; z = v + y;".to_string());
    assert_eq!(program.constraints.len(), 2);
    assert_eq!(names(&program), vec!["x", "v", "y", "z"]);
    assert!(program.variables.iter().all(|v| v.value == 0));
    assert_eq!(program.constraints[0].left.name, "x");
    assert_eq!(program.constraints[0].operator, "*");
    assert_eq!(program.constraints[0].right.name, "x");
    assert_eq!(program.constraints[1].left.name, "v");
    assert_eq!(program.constraints[1].operator, "+");
    assert_eq!(program.constraints[1].right.name, "y");
    assert_eq!(program.constraints[1].left.value, 0);
}

#[test]
fn program_skips_lines_without_exactly_one_equals_sign() {
    let program = Program::new("a b c; x = y = z; ; r = s - t".to_string());
    assert_eq!(program.constraints.len(), 1);
    assert_eq!(names(&program), vec!["s", "t", "r"]);
}

#[test]
fn program_of_the_empty_text_is_empty() {
    let program = Program::new(String::new());
    assert!(program.variables.is_empty());
    assert!(program.constraints.is_empty());
}

#[test]
fn program_splits_the_expression_at_every_blank() {
    // Two blanks in a row leave an empty piece, which is read as the operator.
    let program = Program::new("out = a  + b".to_string());
    assert_eq!(program.constraints.len(), 1);
    assert_eq!(program.constraints[0].left.name, "a");
    assert_eq!(program.constraints[0].operator, "");
    assert_eq!(program.constraints[0].right.name, "+");
    assert_eq!(names(&program), vec!["a", "+", "out"]);
}

#[test]
fn is_well_formed_asks_for_three_pieces_after_the_equals_sign() {
    assert!(Program::is_well_formed("v = x * x; z = v + y;"));
    assert!(Program::is_well_formed(""));
    assert!(Program::is_well_formed("no statement; a = b = c"));
    assert!(Program::is_well_formed("a = b + c + d"));
    assert!(!Program::is_well_formed("a = b"));
    assert!(!Program::is_well_formed("a = b +"));
    assert!(!Program::is_well_formed("v = x * x; z = v+y"));
    assert!(!Program::is_well_formed("a = b + "));
    assert!(!Program::is_well_formed("a =  b +c"));
    assert!(Program::is_well_formed("a = b  c"));
}

#[test]
fn add_variable_keeps_names_distinct() {
    let mut program = Program::new(String::new());
    program.add_variable("x".to_string());
    program.add_variable("y".to_string());
    program.add_variable("x".to_string());
    assert_eq!(names(&program), vec!["x", "y"]);
    // A variable of the same name with another value is another variable.
    program.variables.push(Variable { name: "w".to_string(), value: 5 });
    program.add_variable("w".to_string());
    assert_eq!(names(&program), vec!["x", "y", "w", "w"]);
}

#[test]
fn add_constraint_appends() {
    let mut program = Program::new(String::new());
    program.add_constraint(
        Variable { name: "l".to_string(), value: 1 },
        Variable { name: "r".to_string(), value: 2 },
        "/".to_string(),
    );
    assert_eq!(program.constraints.len(), 1);
    assert_eq!(program.constraints[0].left.value, 1);
    assert_eq!(program.constraints[0].right.name, "r");
    assert_eq!(program.constraints[0].operator, "/");
    assert!(program.variables.is_empty());
}

#[test]
fn parse_adds_to_what_the_program_holds() {
    let mut program = Program::new("v = x * x".to_string());
    program.parse("z = v + y".to_string());
    assert_eq!(program.constraints.len(), 2);
    assert_eq!(names(&program), vec!["x", "v", "y", "z"]);
}

#[test]
fn r1cs_prove_builds_the_witness() {
    let mut r1cs = R1CS::new("v = x * x; z = v + y;".to_string());
    assert!(r1cs.witness.is_empty());
    assert!(r1cs.solution.is_empty());
    r1cs.prove(vec![2, 3, 4, 5]);
    assert_eq!(r1cs.witness, vec![1, 2, 3, 4, 5]);
    assert!(r1cs.solution.is_empty());
    r1cs.prove(vec![6, 7, 8, 9]);
    assert_eq!(r1cs.witness, vec![1, 2, 3, 4, 5, 1, 6, 7, 8, 9]);
}

#[test]
fn split_keeps_empty_pieces() {
    assert_eq!(split("a;b;;c;", ';'), "a;b;;c;".split(';').collect::<Vec<&str>>());
    assert_eq!(split("a;b;;c;", ';'), vec!["a", "b", "", "c", ""]);
    assert_eq!(split("", ';'), vec![""]);
    assert_eq!(split(";", ';'), vec!["", ""]);
    assert_eq!(split("no separator", ';'), vec!["no separator"]);
    assert_eq!(split("\u{e9}=\u{4e2d}", '='), vec!["\u{e9}", "\u{4e2d}"]);
}

#[test]
fn trim_strips_white_space_at_both_ends() {
    assert_eq!(trim("  x * x \t\n"), "x * x");
    assert_eq!(trim(""), "");
    assert_eq!(trim(" \u{a0}\u{3000} "), "");
    assert_eq!(trim("\u{2003}a b\u{85}"), "a b");
    assert_eq!(trim("\u{200b}a"), "\u{200b}a");
}

#[test]
fn is_whitespace_agrees_with_the_standard_library() {
    for code in 0u32..0x11_0000 {
        if let Some(c) = char::from_u32(code) {
            assert_eq!(is_whitespace(c), c.is_whitespace(), "U+{:04X}", code);
        }
    }
}
