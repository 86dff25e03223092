//! A compiled program with its source, and the steps by which it is applied to
//! a host value. The engine compiles and resolves outside this library, where
//! a panic of the engine can be caught; what is decided before and after each
//! of those calls is decided here.

use vstd::prelude::*;
use crate::engine::value_model;
use crate::error::{RemapError, RemapFault};
use crate::host::HostValue;
use crate::value::{convertible, fault_of, free_of_nan, lowered, raises_to, VrlValue};

verus! {

/// A compiled program together with the source it was compiled from. Nothing
/// changes it once it is built.
pub struct Transform {
    source: String,
    program: vrl::compiler::Program,
}

/// What a remap is told: the host value to work on, or what the engine made of
/// the target it was asked to resolve, a failure as the engine's message.
pub enum RemapEvent {
    Input(HostValue),
    Resolved(Result<vrl::value::Value, String>),
}

/// What a remap asks for next: that the program be resolved against a context
/// made for this one call, with the given value as its target, or that the
/// given outcome be returned to the host.
pub enum RemapAction {
    Resolve(vrl::value::Value),
    Return(Result<HostValue, RemapError>),
}

/// Makes a transform of what the compiler gave for `source`: the program with
/// the source beside it, or the rendered diagnostics as a compile failure.
pub fn assemble(source: String, compiled: Result<vrl::compiler::Program, String>) -> (r: Result<
    Transform,
    RemapError,
>)
    ensures
        match compiled {
            Ok(program) => r is Ok && r->Ok_0.text() == source@ && r->Ok_0.compiled() == program,
            Err(text) => r is Err && r->Err_0@ == RemapFault::Compile(text@),
        },
{
    match compiled {
        Ok(program) => Ok(Transform { source, program }),
        Err(text) => Err(RemapError::Compile(text)),
    }
}

/// Makes the result of a remap of what the engine gave: the host value that
/// the resolved value becomes, or the engine's message as a remap failure.
pub fn conclude(resolution: Result<vrl::value::Value, String>) -> (r: Result<HostValue, RemapError>)
    ensures
        match resolution {
            Ok(value) => r is Ok && raises_to(value_model(value), r->Ok_0@) && free_of_nan(
                r->Ok_0@,
            ),
            Err(text) => r is Err && r->Err_0@ == RemapFault::RemapFailure(text@),
        },
{
    match resolution {
        Ok(value) => Ok(VrlValue::new(value).into_py_object()),
        Err(text) => Err(RemapError::RemapFailure(text)),
    }
}

/// The action that answers an event of a remap. A host value that is
/// convertible asks for the resolution of what it lowers to; any other is
/// returned with its fault, and the engine is not asked. A resolved value is
/// returned as the host value that it becomes, a failure of the engine as a
/// remap failure.
pub open spec fn answers(event: RemapEvent, action: RemapAction) -> bool {
    match event {
        RemapEvent::Input(data) => if convertible(data@) {
            action is Resolve && value_model(action->Resolve_0) == lowered(data@)
        } else {
            action is Return && action->Return_0 is Err && action->Return_0->Err_0@ == fault_of(
                data@,
            )
        },
        RemapEvent::Resolved(Ok(value)) => {
            &&& action is Return
            &&& action->Return_0 is Ok
            &&& raises_to(value_model(value), action->Return_0->Ok_0@)
            &&& free_of_nan(action->Return_0->Ok_0@)
        },
        RemapEvent::Resolved(Err(text)) => action is Return && action->Return_0 is Err
            && action->Return_0->Err_0@ == RemapFault::RemapFailure(text@),
    }
}

impl Transform {
    /// The source text of the transform.
    pub closed spec fn text(&self) -> Seq<char> {
        self.source@
    }

    /// The compiled program of the transform.
    pub closed spec fn compiled(&self) -> vrl::compiler::Program {
        self.program
    }

    /// The source that the program was compiled from.
    pub fn source(&self) -> (r: &String)
        ensures
            r@ == self.text(),
    {
        &self.source
    }

    /// The compiled program, for the engine to resolve.
    pub fn program(&self) -> (r: &vrl::compiler::Program)
        ensures
            *r == self.compiled(),
    {
        &self.program
    }

    /// One step of applying the program to a host value: begun with the input,
    /// it asks at most once for a resolution, and answers the resolution with
    /// what is to be returned. The transform itself stays as it was.
    pub fn remap(&self, event: RemapEvent) -> (action: RemapAction)
        ensures
            answers(event, action),
    {
        match event {
            RemapEvent::Input(data) => match VrlValue::extract(&data) {
                Ok(target) => RemapAction::Resolve(target.inner),
                Err(e) => RemapAction::Return(Err(e)),
            },
            RemapEvent::Resolved(resolution) => RemapAction::Return(conclude(resolution)),
        }
    }
}

} // verus!
