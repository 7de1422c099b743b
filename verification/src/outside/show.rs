//! Printing for `Debug`, through the formatter of the standard library. What a formatter
//! has printed is not modelled, so nothing is promised of these calls.

use vstd::prelude::*;

verus! {

#[verifier::external_type_specification]
#[verifier::external_body]
pub struct ExFormatter<'a>(std::fmt::Formatter<'a>);

#[verifier::external_type_specification]
#[verifier::external_body]
pub struct ExDebugStruct<'a, 'b: 'a>(std::fmt::DebugStruct<'a, 'b>);

#[verifier::external_type_specification]
#[verifier::external_body]
pub struct ExFormatError(std::fmt::Error);

/// `Formatter::debug_struct` begins to print a struct under a name.
#[verifier::external_body]
pub(crate) fn debug_struct<'a, 'b>(
    f: &'a mut std::fmt::Formatter<'b>,
    name: &str,
) -> std::fmt::DebugStruct<'a, 'b> {
    f.debug_struct(name)
}

/// `DebugStruct::field` prints one field under a name.
#[verifier::external_body]
pub(crate) fn debug_field<T: std::fmt::Debug>(
    d: &mut std::fmt::DebugStruct<'_, '_>,
    name: &str,
    value: &T,
) {
    d.field(name, value);
}

/// `DebugStruct::finish` ends the struct. Whether that succeeds is the writer's.
#[verifier::external_body]
pub(crate) fn debug_finish(d: &mut std::fmt::DebugStruct<'_, '_>) -> std::fmt::Result {
    d.finish()
}

} // verus!
