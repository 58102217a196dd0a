//! Programs of statements `output = left operator right`, separated by
//! semicolons, and the constraint systems made from them.

use vstd::prelude::*;
use crate::arithmetization::text::split;
use crate::arithmetization::text::split_spec;
use crate::arithmetization::text::texts;
use crate::arithmetization::text::trim;
use crate::arithmetization::text::trim_spec;

verus! {

/// A constraint system: a program, and the solution and the witness that
/// have been built for it.
pub struct R1CS {
    pub program: Program,
    pub solution: Vec<i32>,
    pub witness: Vec<i32>,
}

/// A named variable and its value.
pub struct Variable {
    pub name: String,
    pub value: i32,
}

/// One statement of a program: two operands and the operator between them.
pub struct Constraint {
    pub left: Variable,
    pub right: Variable,
    pub operator: String,
}

/// The variables of a program, each name once, and its constraints, in the
/// order of the text.
pub struct Program {
    pub variables: Vec<Variable>,
    pub constraints: Vec<Constraint>,
}

/// A variable as its name and its value.
pub struct VariableView {
    pub name: Seq<char>,
    pub value: i32,
}

/// A constraint as the views of its operands and its operator.
pub struct ConstraintView {
    pub left: VariableView,
    pub right: VariableView,
    pub operator: Seq<char>,
}

/// A program as the views of its variables and constraints, in order.
pub struct ProgramView {
    pub variables: Seq<VariableView>,
    pub constraints: Seq<ConstraintView>,
}

impl View for Variable {
    type V = VariableView;

    open spec fn view(&self) -> VariableView {
        VariableView { name: self.name@, value: self.value }
    }
}

impl View for Constraint {
    type V = ConstraintView;

    open spec fn view(&self) -> ConstraintView {
        ConstraintView { left: self.left@, right: self.right@, operator: self.operator@ }
    }
}

impl View for Program {
    type V = ProgramView;

    open spec fn view(&self) -> ProgramView {
        ProgramView {
            variables: Seq::new(self.variables@.len(), |i: int| self.variables@[i]@),
            constraints: Seq::new(self.constraints@.len(), |i: int| self.constraints@[i]@),
        }
    }
}

/// A fresh variable of a name: its value is zero.
pub open spec fn fresh(name: Seq<char>) -> VariableView {
    VariableView { name, value: 0 }
}

/// The variables with a fresh variable of the name at the end, unless one
/// is among them already.
pub open spec fn with_variable(variables: Seq<VariableView>, name: Seq<char>) -> Seq<
    VariableView,
> {
    if variables.contains(fresh(name)) {
        variables
    } else {
        variables.push(fresh(name))
    }
}

/// A line is a statement when it holds exactly one `=`.
pub open spec fn is_statement(line: Seq<char>) -> bool {
    split_spec(line, '=').len() == 2
}

/// The name on the left of the `=`.
pub open spec fn output_of(line: Seq<char>) -> Seq<char> {
    trim_spec(split_spec(line, '=')[0])
}

/// The pieces of the expression on the right of the `=`, split at each
/// blank.
pub open spec fn operands_of(line: Seq<char>) -> Seq<Seq<char>> {
    split_spec(trim_spec(split_spec(line, '=')[1]), ' ')
}

/// A statement can be read when its expression has three pieces at least:
/// an operand, an operator, an operand.
pub open spec fn readable(line: Seq<char>) -> bool {
    is_statement(line) ==> operands_of(line).len() >= 3
}

/// Every line of the program can be read.
pub open spec fn well_formed(program: Seq<char>) -> bool {
    forall|n: int|
        0 <= n < split_spec(program, ';').len() ==> readable(
            #[trigger] split_spec(program, ';')[n],
        )
}

/// The program after one more line: a statement adds its constraint, then
/// its left operand, its right operand and its output as variables; any
/// other line adds nothing.
pub open spec fn after_line(p: ProgramView, line: Seq<char>) -> ProgramView {
    if is_statement(line) {
        let left = trim_spec(operands_of(line)[0]);
        let operator = trim_spec(operands_of(line)[1]);
        let right = trim_spec(operands_of(line)[2]);
        ProgramView {
            variables: with_variable(
                with_variable(with_variable(p.variables, left), right),
                output_of(line),
            ),
            constraints: p.constraints.push(
                ConstraintView { left: fresh(left), right: fresh(right), operator },
            ),
        }
    } else {
        p
    }
}

/// The program after the first `n` of the lines.
pub open spec fn after_lines(p: ProgramView, lines: Seq<Seq<char>>, n: nat) -> ProgramView
    decreases n,
{
    if n == 0 {
        p
    } else {
        after_line(after_lines(p, lines, (n - 1) as nat), lines[n - 1])
    }
}

/// The program after every line of a text.
pub open spec fn parse_spec(p: ProgramView, program: Seq<char>) -> ProgramView {
    after_lines(p, split_spec(program, ';'), split_spec(program, ';').len())
}

/// The program without variables or constraints.
pub open spec fn empty_program() -> ProgramView {
    ProgramView { variables: Seq::empty(), constraints: Seq::empty() }
}

impl Program {
    /// Tells whether every line of a text can be read, which `new` and
    /// `parse` ask of their input.
    pub fn is_well_formed(program: &str) -> (r: bool)
        ensures
            r == well_formed(program@),
    {
        let lines = split(program, ';');
        let mut n: usize = 0;
        while n < lines.len()
            invariant
                n <= lines@.len(),
                texts(lines@) == split_spec(program@, ';'),
                forall|j: int| 0 <= j < n ==> readable(#[trigger] texts(lines@)[j]),
            decreases lines@.len() - n,
        {
            let line: &str = lines[n];
            assert(line@ == texts(lines@)[n as int]);
            let parts = split(line, '=');
            if parts.len() == 2 {
                let operands = split(trim(parts[1]), ' ');
                if operands.len() < 3 {
                    return false;
                }
            }
            n += 1;
        }
        true
    }

    /// Reads a program from its text.
    pub fn new(program: String) -> (p: Program)
        requires
            well_formed(program@),
        ensures
            p@ == parse_spec(empty_program(), program@),
    {
        let mut p = Program { variables: Vec::new(), constraints: Vec::new() };
        assert(p@.variables =~= Seq::<VariableView>::empty());
        assert(p@.constraints =~= Seq::<ConstraintView>::empty());
        p.parse(program);
        p
    }

    /// Adds a fresh variable of a name unless the program has one.
    pub fn add_variable(&mut self, name: String)
        ensures
            final(self)@.variables == with_variable(old(self)@.variables, name@),
            final(self)@.constraints == old(self)@.constraints,
    {
        let variable = Variable { name, value: 0 };
        let mut found: bool = false;
        let mut i: usize = 0;
        while i < self.variables.len()
            invariant
                i <= self.variables@.len(),
                *self == *old(self),
                found == exists|k: int| 0 <= k < i && self.variables@[k]@ == variable@,
            decreases self.variables@.len() - i,
        {
            if self.variables[i].name == variable.name && self.variables[i].value
                == variable.value {
                found = true;
            }
            i += 1;
        }
        proof {
            let views = self@.variables;
            if found {
                let k = choose|k: int| 0 <= k < i && self.variables@[k]@ == variable@;
                assert(views[k] == fresh(name@));
            } else {
                assert forall|k: int| 0 <= k < views.len() implies views[k] != fresh(name@) by {}
            }
        }
        if !found {
            self.variables.push(variable);
        }
    }

    /// Adds a constraint at the end.
    pub fn add_constraint(&mut self, left: Variable, right: Variable, operator: String)
        ensures
            final(self)@.constraints == old(self)@.constraints.push(
                ConstraintView { left: left@, right: right@, operator: operator@ },
            ),
            final(self)@.variables == old(self)@.variables,
    {
        let constraint = Constraint { left, right, operator };
        self.constraints.push(constraint);
    }

    /// Reads the lines of a text into the program.
    pub fn parse(&mut self, program: String)
        requires
            well_formed(program@),
        ensures
            final(self)@ == parse_spec(old(self)@, program@),
    {
        let lines = split(program.as_str(), ';');
        let mut n: usize = 0;
        while n < lines.len()
            invariant
                n <= lines@.len(),
                texts(lines@) == split_spec(program@, ';'),
                well_formed(program@),
                self@ == after_lines(old(self)@, texts(lines@), n as nat),
            decreases lines@.len() - n,
        {
            let line: &str = lines[n];
            assert(line@ == texts(lines@)[n as int]);
            let parts = split(line, '=');
            if parts.len() == 2 {
                let output = trim(parts[0]);
                let expression = trim(parts[1]);
                let parts = split(expression, ' ');
                let left = trim(parts[0]);
                let operator = trim(parts[1]);
                let right = trim(parts[2]);
                let var_left = Variable { name: left.to_owned(), value: 0 };
                let var_right = Variable { name: right.to_owned(), value: 0 };
                self.add_constraint(var_left, var_right, operator.to_owned());
                self.add_variable(left.to_owned());
                self.add_variable(right.to_owned());
                self.add_variable(output.to_owned());
            }
            n += 1;
        }
    }
}

impl R1CS {
    /// A constraint system for the program of a text, with no solution and
    /// no witness yet.
    pub fn new(program: String) -> (r1cs: Self)
        requires
            well_formed(program@),
        ensures
            r1cs.program@ == parse_spec(empty_program(), program@),
            r1cs.solution@ == Seq::<i32>::empty(),
            r1cs.witness@ == Seq::<i32>::empty(),
    {
        R1CS { program: Program::new(program), solution: Vec::new(), witness: Vec::new() }
    }

    /// Appends to the witness the constant one and then the value of each
    /// variable of the program.
    pub fn prove(&mut self, variables: Vec<i32>)
        requires
            variables@.len() == old(self).program.variables@.len(),
        ensures
            final(self).witness@ == old(self).witness@ + seq![1i32] + variables@,
            final(self).program == old(self).program,
            final(self).solution == old(self).solution,
    {
        self.witness.push(1);
        let mut i: usize = 0;
        while i < self.program.variables.len()
            invariant
                i <= variables@.len(),
                variables@.len() == self.program.variables@.len(),
                self.program == old(self).program,
                self.solution == old(self).solution,
                self.witness@ == old(self).witness@ + seq![1i32] + variables@.subrange(
                    0,
                    i as int,
                ),
            decreases variables@.len() - i,
        {
            self.witness.push(variables[i]);
            i += 1;
        }
    }
}

} // verus!
