//! The values handed to the waiting page's template.

use vstd::prelude::*;

verus! {

#[verifier::external_type_specification]
#[verifier::external_body]
pub struct ExTemplateContext(tera::Context);

/// A value placed in a template context.
pub enum ContextValue {
    /// A JSON string.
    Text(Seq<char>),
    /// A JSON number that is an unsigned 64-bit integer.
    Number(u64),
    /// Any other JSON value, by its JSON text.
    Other(Seq<char>),
}

/// What a template context holds: every variable name it has, with its value.
pub uninterp spec fn context_entries(ctx: tera::Context) -> Map<Seq<char>, ContextValue>;

/// Calls `tera::Context::insert` with a string value. That method
/// serializes the value (a string becomes a JSON string, which cannot
/// fail) and stores it under `key` in its map, replacing any earlier value.
#[verifier::external_body]
pub(crate) fn context_insert_text(ctx: &mut tera::Context, key: &str, value: &str)
    ensures
        context_entries(*final(ctx)) == context_entries(*old(ctx)).insert(
            key@,
            ContextValue::Text(value@),
        ),
{
    ctx.insert(key, value);
}

/// Calls `tera::Context::insert` with an unsigned number. That method
/// serializes the value (a `u64` becomes a JSON number, which cannot
/// fail) and stores it under `key` in its map, replacing any earlier value.
#[verifier::external_body]
pub(crate) fn context_insert_number(ctx: &mut tera::Context, key: &str, value: u64)
    ensures
        context_entries(*final(ctx)) == context_entries(*old(ctx)).insert(
            key@,
            ContextValue::Number(value),
        ),
{
    ctx.insert(key, &value);
}

} // verus!
