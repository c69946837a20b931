//! The entry point: one routine for one declaration.

use crate::config::{Config, ConfigView};
use crate::decl::{Data, DataView, DeriveInput, DeriveInputView};
use crate::enums::{impl_nom_enums, spec_impl_nom_enums, EnumRoutine, EnumRoutineView};
use crate::error::SynthesisError;
use crate::structs::{
    impl_nom_structs, spec_impl_nom_structs, RecordRoutine, RecordRoutineView,
};
use vstd::prelude::*;

verus! {

/// The routine of a type.
#[derive(Debug)]
pub enum GeneratedRoutine {
    Record(RecordRoutine),
    Union(EnumRoutine),
}

/// The routine of a type, as characters.
pub enum GeneratedRoutineView {
    Record(RecordRoutineView),
    Union(EnumRoutineView),
}

impl DeepView for GeneratedRoutine {
    type V = GeneratedRoutineView;

    open spec fn deep_view(&self) -> GeneratedRoutineView {
        match self {
            GeneratedRoutine::Record(r) => GeneratedRoutineView::Record(r.deep_view()),
            GeneratedRoutine::Union(r) => GeneratedRoutineView::Union(r.deep_view()),
        }
    }
}

/// The routine of a type: that of a record for a record, that of a tagged
/// union for a tagged union.
pub open spec fn spec_synthesize_type(ast: DeriveInputView, config: ConfigView) -> Result<
    GeneratedRoutineView,
    SynthesisError,
> {
    match ast.data {
        DataView::Struct(_) => match spec_impl_nom_structs(ast, config) {
            Ok(r) => Ok(GeneratedRoutineView::Record(r)),
            Err(e) => Err(e),
        },
        DataView::Enum(_) => match spec_impl_nom_enums(ast, config) {
            Ok(r) => Ok(GeneratedRoutineView::Union(r)),
            Err(e) => Err(e),
        },
    }
}

/// Whether a result of the library is the given result over characters.
pub open spec fn routine_result(
    r: Result<GeneratedRoutine, SynthesisError>,
    expected: Result<GeneratedRoutineView, SynthesisError>,
) -> bool {
    match r {
        Ok(routine) => expected == Ok::<GeneratedRoutineView, SynthesisError>(
            routine.deep_view(),
        ),
        Err(e) => expected == Err::<GeneratedRoutineView, SynthesisError>(e),
    }
}

/// Synthesizes the routine of a type under the given settings.
pub fn synthesize_type(ast: &DeriveInput, config: &Config) -> (r: Result<
    GeneratedRoutine,
    SynthesisError,
>)
    ensures
        routine_result(r, spec_synthesize_type(ast.deep_view(), config.deep_view())),
{
    match &ast.data {
        Data::Struct(_) => match impl_nom_structs(ast, config) {
            Ok(r) => Ok(GeneratedRoutine::Record(r)),
            Err(e) => Err(e),
        },
        Data::Enum(_) => match impl_nom_enums(ast, config) {
            Ok(r) => Ok(GeneratedRoutine::Union(r)),
            Err(e) => Err(e),
        },
    }
}

} // verus!
