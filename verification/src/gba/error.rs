use crate::utils::text::{decimal_digits, decimal_string};
use vstd::prelude::*;

verus! {

/// Why an instruction word could not be decoded.
#[derive(Debug, PartialEq, Eq, Structural, Clone, Copy)]
pub enum InstructionDecodeError {
    ConditionalNotValid { value: u32, cond: u32 },
    NoMatchingOperation(u32),
}

impl InstructionDecodeError {
    /// The message shown for the error, with the numbers in decimal.
    pub open spec fn message_text(self) -> Seq<char> {
        match self {
            InstructionDecodeError::ConditionalNotValid { value, cond } => "Condition "@
                + decimal_digits(cond as nat) + " not valid for instruction: "@ + decimal_digits(
                value as nat,
            ),
            InstructionDecodeError::NoMatchingOperation(v) => "No matching operation for instruction: "@
                + decimal_digits(v as nat),
        }
    }

    pub fn message(&self) -> (r: String)
        ensures
            r@ == self.message_text(),
    {
        match self {
            InstructionDecodeError::ConditionalNotValid { value, cond } => {
                let mut m = String::from_str("Condition ");
                let c = decimal_string(*cond);
                m.append(c.as_str());
                m.append(" not valid for instruction: ");
                let v = decimal_string(*value);
                m.append(v.as_str());
                m
            },
            InstructionDecodeError::NoMatchingOperation(v) => {
                let mut m = String::from_str("No matching operation for instruction: ");
                let s = decimal_string(*v);
                m.append(s.as_str());
                m
            },
        }
    }
}

} // verus!
