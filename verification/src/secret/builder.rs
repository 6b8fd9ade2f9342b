//! Entry point for a sandbox's secrets, and the builder of a single rotation.

use std::borrow::Cow;

use vstd::prelude::*;

use crate::secret::rotation::{optional_text, SecretRotationRequest};
use crate::text::{quote, quoted};

verus! {

/// A value that can be handed over as an owned text.
pub trait IntoText: Sized {
    /// The characters of the text.
    spec fn text(self) -> Seq<char>;

    /// The text, owned.
    fn into_text(self) -> (owned: String)
        ensures
            owned@ == self.text(),
    ;
}

impl IntoText for String {
    open spec fn text(self) -> Seq<char> {
        self@
    }

    fn into_text(self) -> (owned: String) {
        self
    }
}

impl<'a> IntoText for &'a str {
    open spec fn text(self) -> Seq<char> {
        self@
    }

    fn into_text(self) -> (owned: String) {
        self.to_owned()
    }
}

impl<'a> IntoText for &'a String {
    open spec fn text(self) -> Seq<char> {
        self@
    }

    fn into_text(self) -> (owned: String) {
        self.clone()
    }
}

impl IntoText for Box<str> {
    open spec fn text(self) -> Seq<char> {
        self@
    }

    fn into_text(self) -> (owned: String) {
        (*self).to_owned()
    }
}

impl<'a> IntoText for Cow<'a, str> {
    open spec fn text(self) -> Seq<char> {
        match self {
            Cow::Borrowed(borrowed) => borrowed@,
            Cow::Owned(owned) => owned@,
        }
    }

    fn into_text(self) -> (owned: String) {
        match self {
            Cow::Borrowed(borrowed) => borrowed.to_owned(),
            Cow::Owned(owned) => owned,
        }
    }
}

impl IntoText for char {
    open spec fn text(self) -> Seq<char> {
        seq![self]
    }

    fn into_text(self) -> (owned: String) {
        let mut owned = String::new();
        owned.push(self);
        owned
    }
}

/// Entry point for a sandbox's secrets.
///
/// A namespace rather than a value: secrets are addressed by sandbox and name, and
/// hold no client-side state worth carrying between calls.
pub struct Secret;

/// Builder for a single secret rotation, constructed via [`Secret::rotate`].
///
/// A rotation is a value plus an optional version precondition, so the builder keeps
/// the required part positional and the precondition a named step.
///
/// There is no `Debug`: it would print the new value.
pub struct SecretRotationBuilder {
    sandbox: String,
    name: String,
    request: SecretRotationRequest,
}

/// How a builder is printed whose sandbox and name are quoted already, and whose request
/// is rendered.
pub open spec fn rendered_builder(
    quoted_sandbox: Seq<char>,
    quoted_name: Seq<char>,
    request: Seq<char>,
) -> Seq<char> {
    "SecretRotationBuilder { sandbox: "@ + quoted_sandbox + ", name: "@ + quoted_name
        + ", request: "@ + request + " }"@
}

/// A builder as text, from its sandbox and name between quotes and its rendered request.
pub fn render_builder(quoted_sandbox: &str, quoted_name: &str, request: &str) -> (text: String)
    ensures
        text@ == rendered_builder(quoted_sandbox@, quoted_name@, request@),
{
    "SecretRotationBuilder { sandbox: ".to_owned().concat(quoted_sandbox).concat(
        ", name: ",
    ).concat(quoted_name).concat(", request: ").concat(request).concat(" }")
}

impl Secret {
    /// Start a rotation of one secret.
    pub fn rotate<S: IntoText, N: IntoText, V: IntoText>(
        sandbox: S,
        name: N,
        value: V,
    ) -> (builder: SecretRotationBuilder)
        ensures
            builder.sandbox() == sandbox.text(),
            builder.name() == name.text(),
            builder.request().value@ == value.text(),
            builder.request().version is None,
    {
        SecretRotationBuilder::new(sandbox, name, value)
    }
}

impl SecretRotationBuilder {
    /// The sandbox whose secret is rotated.
    pub closed spec fn sandbox(self) -> Seq<char> {
        self.sandbox@
    }

    /// The secret that is rotated.
    pub closed spec fn name(self) -> Seq<char> {
        self.name@
    }

    /// The request built so far.
    pub closed spec fn request(self) -> SecretRotationRequest {
        self.request
    }

    /// How the builder is printed: the request shows without its value.
    pub open spec fn rendered(self) -> Seq<char> {
        rendered_builder(
            quoted(self.sandbox()),
            quoted(self.name()),
            self.request().rendered(),
        )
    }

    /// Start building a rotation of `name` on `sandbox` to `value`.
    pub fn new<S: IntoText, N: IntoText, V: IntoText>(
        sandbox: S,
        name: N,
        value: V,
    ) -> (builder: Self)
        ensures
            builder.sandbox() == sandbox.text(),
            builder.name() == name.text(),
            builder.request().value@ == value.text(),
            builder.request().version is None,
    {
        SecretRotationBuilder {
            sandbox: sandbox.into_text(),
            name: name.into_text(),
            request: SecretRotationRequest { value: value.into_text(), version: None },
        }
    }

    /// Apply only if the secret is still at `version`.
    ///
    /// Omit it to rotate whatever is current. A version named earlier is replaced.
    pub fn if_version<T: IntoText>(self, version: T) -> (builder: Self)
        ensures
            builder.sandbox() == self.sandbox(),
            builder.name() == self.name(),
            builder.request().value == self.request().value,
            builder.request().version matches Some(named) && named@ == version.text(),
    {
        SecretRotationBuilder {
            sandbox: self.sandbox,
            name: self.name,
            request: SecretRotationRequest {
                value: self.request.value,
                version: Some(version.into_text()),
            },
        }
    }

    /// Build the request without sending it.
    pub fn build(self) -> (request: SecretRotationRequest)
        ensures
            request == self.request(),
    {
        self.request
    }

    /// The sandbox, the name and the request, for the one who sends it.
    pub fn into_parts(self) -> (parts: (String, String, SecretRotationRequest))
        ensures
            parts.0@ == self.sandbox(),
            parts.1@ == self.name(),
            parts.2 == self.request(),
    {
        (self.sandbox, self.name, self.request)
    }

    /// The builder as text, with the value redacted.
    pub fn debug_text(&self) -> (text: String)
        ensures
            text@ == self.rendered(),
    {
        render_builder(
            quote(self.sandbox.as_str()).as_str(),
            quote(self.name.as_str()).as_str(),
            self.request.debug_text().as_str(),
        )
    }
}

/// Secret material never reaches a rendering: builders that differ in their values
/// alone print the same.
pub proof fn lemma_builder_rendering_hides_the_value(
    a: SecretRotationBuilder,
    b: SecretRotationBuilder,
)
    requires
        a.sandbox() == b.sandbox(),
        a.name() == b.name(),
        optional_text(a.request().version) == optional_text(b.request().version),
    ensures
        a.rendered() == b.rendered(),
{
}

/// A builder is printed with its sandbox and its name between quotes, in that order, and
/// with its request as the request is printed.
pub proof fn lemma_the_rendering_of_a_builder(builder: SecretRotationBuilder)
    ensures
        builder.rendered() == "SecretRotationBuilder { sandbox: "@ + quoted(builder.sandbox())
            + ", name: "@ + quoted(builder.name()) + ", request: "@ + builder.request().rendered()
            + " }"@,
{
}

} // verus!
