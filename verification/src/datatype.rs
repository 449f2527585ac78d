//! The kinds of value that the runtime knows.

use vstd::prelude::*;

verus! {

/// The kind of a value, without what the value holds.
#[derive(Debug, Clone, Copy, PartialEq, Eq)]
pub enum DataKind {
    /// `nil`.
    Nil,
    /// No value at all.
    Void,
    /// A boolean.
    Boolean,
    /// A number.
    Number,
    /// A string.
    StaticString,
    /// A function.
    Function,
    /// A table.
    Table,
    /// Several values at once.
    Tuple,
    /// Data of the host program.
    UserData,
    /// A coroutine.
    Coroutine,
    /// A request for a tail call.
    TailCallRequest,
    /// A request to yield.
    YieldRequest,
}

/// How the name of a kind is written where a value of the wrong type is
/// reported.
#[derive(Debug, Clone, Copy, PartialEq, Eq)]
pub enum NameForm {
    /// As the words `no value`.
    NoValue,
    /// As the value is written, between `internal<` and `>`.
    Internal,
    /// As the value is written.
    Plain,
}

impl DataKind {
    /// The kinds that can have type metatables: `nil`, no value, booleans,
    /// numbers, strings and functions.
    pub open spec fn spec_can_have_type_metatables(self) -> bool {
        self is Nil || self is Void || self is Boolean || self is Number || self is StaticString
            || self is Function
    }

    /// Determines whether the specified kind of value can have type
    /// metatables.
    pub fn can_have_type_metatables(kind: DataKind) -> (can: bool)
        ensures
            can == kind.spec_can_have_type_metatables(),
    {
        match kind {
            DataKind::Nil
            | DataKind::Void
            | DataKind::Boolean
            | DataKind::Number
            | DataKind::StaticString
            | DataKind::Function => true,
            _ => false,
        }
    }

    /// The form in which the name of the kind is written: no value has
    /// words of its own, the kinds that only the runtime itself handles
    /// are marked as internal, and every other kind is written plainly.
    pub open spec fn spec_name_form(self) -> NameForm {
        if self is Void {
            NameForm::NoValue
        } else if self is Tuple || self is TailCallRequest || self is YieldRequest {
            NameForm::Internal
        } else {
            NameForm::Plain
        }
    }

    /// The form in which the name of the kind is written.
    pub fn name_form(self) -> (form: NameForm)
        ensures
            form == self.spec_name_form(),
    {
        match self {
            DataKind::Void => NameForm::NoValue,
            DataKind::Tuple | DataKind::TailCallRequest | DataKind::YieldRequest => {
                NameForm::Internal
            },
            _ => NameForm::Plain,
        }
    }
}

} // verus!
