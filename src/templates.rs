//! Rendering of templated table names through `tera`.

use vstd::prelude::*;
use tera::{Context, Tera};

verus! {

#[verifier::external_type_specification]
#[verifier::external_body]
pub struct ExTera(Tera);

#[verifier::external_type_specification]
#[verifier::external_body]
pub struct ExContext(Context);

#[verifier::external_type_specification]
#[verifier::external_body]
pub struct ExTeraError(tera::Error);

/// Relies on `tera::Context::new`: an empty context.
#[verifier::external_body]
pub(crate) fn context_new() -> Context {
    Context::new()
}

/// Relies on `tera::Context::insert`: binds `key` to a text; serialising a
/// string cannot fail, so the call does not panic.
#[verifier::external_body]
pub(crate) fn context_insert(c: &mut Context, key: &String, value: &String) {
    c.insert(key.as_str(), value)
}

/// Relies on `tera::Tera::render`: the result depends on the templates that
/// were loaded, so nothing is promised of it.
#[verifier::external_body]
pub(crate) fn render(t: &Tera, template: &str, c: &Context) -> Result<String, tera::Error> {
    t.render(template, c)
}

/// Relies on the `Display` of `tera::Error`: a message for the caller.
#[verifier::external_body]
pub(crate) fn error_message(e: &tera::Error) -> String {
    e.to_string()
}

} // verus!
