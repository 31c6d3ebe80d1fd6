use vstd::prelude::*;
use vstd::string::*;
use std::collections::HashMap;

verus! {

/// What `char::is_alphabetic` returns for `c` (Unicode's Alphabetic property).
pub uninterp spec fn char_is_alphabetic(c: char) -> bool;

/// Calls `char::is_alphabetic`; its result is named `char_is_alphabetic(c)`.
#[verifier::external_body]
fn is_alphabetic(c: char) -> (r: bool)
    ensures
        r == char_is_alphabetic(c),
{
    c.is_alphabetic()
}

/// Why a variable name is refused.
#[derive(PartialEq, Eq, Debug, Clone, Copy, Structural)]
pub enum VariableNameError {
    Empty,
    InvalidFirstChar,
}

/// The errors that running a program reports.
#[derive(PartialEq, Eq, Debug, Clone)]
pub enum ErrorType {
    NewType(String),
    RootIsNotSequence,
    VariableNameError(VariableNameError),
}

/// A value computed by a program. A float is held as its IEEE 754 bits.
#[derive(PartialEq, Eq, Debug, Clone)]
pub enum ReturnValue {
    String(String),
    Int(isize),
    Float(u64),
    Bool(bool),
}

/// The bits of a float with the sign bit cleared are zero exactly for
/// `0.0` and `-0.0`.
pub open spec fn float_bits_is_zero(bits: u64) -> bool {
    bits & 0x7fff_ffff_ffff_ffffu64 == 0
}

/// The message for a string used as a condition.
pub open spec fn not_a_bool_message(val: Seq<char>) -> Seq<char> {
    "error should return a bool, not a string ("@ + val + ")"@
}

/// The variables of a running program, keyed by name and scope.
pub type VariableMap = HashMap<(String, u32), ReturnValue>;

/// A snapshot of the variables, taken at each assignment.
pub struct State {
    pub variables: VariableMap,
}

/// What a program printed.
pub struct Console {
    pub stdout: Vec<String>,
    stderr: Vec<String>,
}

impl Console {
    /// The lines written to standard output.
    pub closed spec fn stdout_view(&self) -> Seq<Seq<char>> {
        self.stdout@.map_values(|s: String| s@)
    }

    /// The lines written to standard error.
    pub closed spec fn stderr_view(&self) -> Seq<Seq<char>> {
        self.stderr@.map_values(|s: String| s@)
    }

    pub fn new(stdout: Vec<String>) -> (r: Self)
        ensures
            r.stdout_view() == stdout@.map_values(|s: String| s@),
            r.stderr_view().len() == 0,
    {
        Console { stdout, stderr: Vec::new() }
    }
}

impl Default for Console {
    fn default() -> (r: Self)
        ensures
            r.stdout_view().len() == 0,
            r.stderr_view().len() == 0,
    {
        Console { stdout: Vec::new(), stderr: Vec::new() }
    }
}

/// Whether `x` counts as true: a boolean is itself, a number is true when it
/// is not zero, a string is an error.
pub open spec fn to_bool_spec(x: ReturnValue) -> Result<bool, Seq<char>> {
    match x {
        ReturnValue::Bool(b) => Ok(b),
        ReturnValue::String(s) => Err(not_a_bool_message(s@)),
        ReturnValue::Int(i) => Ok(i != 0),
        ReturnValue::Float(bits) => Ok(!float_bits_is_zero(bits)),
    }
}

impl ReturnValue {
    pub fn to_bool(&self) -> (r: Result<bool, ErrorType>)
        ensures
            (match to_bool_spec(*self) {
                Ok(b) => r == Ok::<bool, ErrorType>(b),
                Err(m) => r matches Err(ErrorType::NewType(s)) && s@ == m,
            }),
    {
        match self {
            ReturnValue::Bool(val) => Ok(*val),
            ReturnValue::String(val) => {
                let msg = String::from_str("error should return a bool, not a string (");
                let msg = msg.concat(val.as_str());
                let msg = msg.concat(")");
                Err(ErrorType::NewType(msg))
            },
            ReturnValue::Int(val) => Ok(*val != 0),
            ReturnValue::Float(bits) => Ok(*bits & 0x7fff_ffff_ffff_ffffu64 != 0),
        }
    }
}

/// A condition's value as a boolean; a missing value is an error.
pub fn get_bool(return_value: Option<ReturnValue>) -> (r: Result<bool, ErrorType>)
    ensures
        (match return_value {
            Some(x) => match to_bool_spec(x) {
                Ok(b) => r == Ok::<bool, ErrorType>(b),
                Err(m) => r matches Err(ErrorType::NewType(s)) && s@ == m,
            },
            None => r matches Err(ErrorType::NewType(s)) && s@ == "void should not be evaluated"@,
        }),
{
    if let Some(return_value) = return_value {
        return_value.to_bool()
    } else {
        Err(ErrorType::NewType(String::from_str("void should not be evaluated")))
    }
}

/// A variable name is not empty and starts with a letter or an underscore.
pub open spec fn var_name_check(name: Seq<char>) -> Result<(), VariableNameError> {
    if name.len() == 0 {
        Err(VariableNameError::Empty)
    } else if !char_is_alphabetic(name[0]) && name[0] != '_' {
        Err(VariableNameError::InvalidFirstChar)
    } else {
        Ok(())
    }
}

pub fn is_var_name_valid(name: &str) -> (r: Result<(), ErrorType>)
    ensures
        (match var_name_check(name@) {
            Ok(()) => r == Ok::<(), ErrorType>(()),
            Err(e) => r == Err::<(), ErrorType>(ErrorType::VariableNameError(e)),
        }),
{
    if name.is_empty() {
        return Err(ErrorType::VariableNameError(VariableNameError::Empty));
    }
    let first = name.get_char(0);
    if !is_alphabetic(first) && first != '_' {
        return Err(ErrorType::VariableNameError(VariableNameError::InvalidFirstChar));
    }
    Ok(())
}

/// How an expression reads as mathematics.
#[derive(PartialEq, Eq, Debug, Clone, Copy, Structural)]
pub enum MathParsability {
    IntParsable,
    FloatParsable,
    Unparsable,
}

} // verus!
