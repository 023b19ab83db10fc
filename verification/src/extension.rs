//! Extension negotiation as a pluggable policy.

use crate::wire::{header_views, HeaderView, RawHeader};
use vstd::prelude::*;

verus! {

/// What an extension provider may answer: the extension and the header value
/// to answer with, `None` where nothing was agreed on, or a message that
/// says why the request is refused.
pub type Negotiated<E> = Result<Option<(E, http::HeaderValue)>, String>;

/// A policy that decides, from the headers of a request, whether the
/// connection gets an extension.
pub trait ExtensionProvider {
    /// The extension that a successful negotiation yields.
    type Extension;

    /// What the provider may answer to a request with the given headers.
    /// A provider that does not say is taken to answer anything.
    open spec fn answers(&self, headers: Seq<HeaderView>, r: Negotiated<Self::Extension>) -> bool {
        true
    }

    /// Looks at the headers that a client sent. Returns the extension and the
    /// header value to answer with; `None` where the client asked for nothing
    /// this provider offers; a message where the client asked for something
    /// malformed.
    fn negotiate_server(&self, headers: &[RawHeader]) -> (r: Negotiated<Self::Extension>)
        ensures
            self.answers(header_views(headers@), r),
    ;
}

/// The provider has one answer to each request.
pub open spec fn is_determined<P: ExtensionProvider>(provider: P) -> bool {
    forall|headers: Seq<HeaderView>, a: Negotiated<P::Extension>, b: Negotiated<P::Extension>|
        #[trigger] provider.answers(headers, a) && #[trigger] provider.answers(headers, b) ==> a
            == b
}

/// What an extension negotiation came to: an extension, or none. Either way
/// there is a value, so that what follows the handshake has one shape to
/// match on.
#[derive(Debug, PartialEq, Eq)]
pub struct NegotiatedExtension<E> {
    pub extension: Option<E>,
}

impl<E> From<Option<E>> for NegotiatedExtension<E> {
    fn from(extension: Option<E>) -> (r: NegotiatedExtension<E>) {
        NegotiatedExtension { extension }
    }
}

impl<E> vstd::std_specs::convert::FromSpecImpl<Option<E>> for NegotiatedExtension<E> {
    open spec fn obeys_from_spec() -> bool {
        true
    }

    open spec fn from_spec(extension: Option<E>) -> NegotiatedExtension<E> {
        NegotiatedExtension { extension }
    }
}

/// The extension of a connection that has none.
#[derive(Clone, Copy, Debug, PartialEq, Eq)]
pub struct NoExt;

/// The provider that never agrees on an extension.
#[derive(Clone, Copy, Debug, PartialEq, Eq)]
pub struct NoExtProvider;

impl ExtensionProvider for NoExtProvider {
    type Extension = NoExt;

    open spec fn answers(&self, headers: Seq<HeaderView>, r: Negotiated<NoExt>) -> bool {
        r == Ok::<Option<(NoExt, http::HeaderValue)>, String>(None)
    }

    fn negotiate_server(&self, headers: &[RawHeader]) -> (r: Negotiated<NoExt>) {
        Ok(None)
    }
}

/// The provider that never agrees on an extension has one answer.
pub proof fn no_ext_provider_is_determined()
    ensures
        is_determined(NoExtProvider),
{
}

} // verus!
