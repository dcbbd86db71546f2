//! A registered API, and the steps by which its endpoints become known.

use vstd::prelude::*;
use vstd::string::*;
use crate::openapi::endpoint::{EndPointView, EndPoints};

verus! {

/// A registered API: its name, where its OpenAPI document is, the base URL
/// of its service, and its endpoints once they are known.
#[derive(Debug)]
pub struct ApiSpec {
    /// Name of the API service
    pub name: String,
    /// URL of the OpenAPI/Swagger specification
    pub spec_url: String,
    /// Base URL for the API service
    pub base_url: String,
    /// The endpoints, once they have been loaded or fetched
    pub endpoints: Option<EndPoints>,
}

/// The mathematical value of an [`ApiSpec`].
pub struct ApiSpecView {
    pub name: Seq<char>,
    pub spec_url: Seq<char>,
    pub base_url: Seq<char>,
    pub endpoints: Option<Seq<EndPointView>>,
}

impl View for ApiSpec {
    type V = ApiSpecView;

    open spec fn view(&self) -> ApiSpecView {
        ApiSpecView {
            name: self.name@,
            spec_url: self.spec_url@,
            base_url: self.base_url@,
            endpoints: match self.endpoints {
                Some(endpoints) => Some(endpoints@),
                None => None,
            },
        }
    }
}

/// `url::Url`, a parsed absolute URL. It is only carried through.
#[verifier::external_type_specification]
#[verifier::external_body]
pub struct ExUrl(url::Url);

/// `url::ParseError`, the reason why `Url::parse` took a string for no URL.
/// It is only carried through.
#[verifier::external_type_specification]
#[verifier::external_body]
pub struct ExUrlParseError(url::ParseError);

/// Whether `Url::parse` accepts a string as an absolute URL.
pub uninterp spec fn url_accepted(input: Seq<char>) -> bool;

/// `Url::parse` parses an absolute URL from a string and returns the URL or
/// the reason why the string is none; whether it accepts depends on the
/// string alone, and is named `url_accepted`.
pub assume_specification[ url::Url::parse ](input: &str) -> (r: Result<url::Url, url::ParseError>)
    ensures
        r is Ok <==> url_accepted(input@),
;

/// What happened outside since the endpoints were last asked for.
#[derive(Debug)]
pub enum FetchEvent {
    /// Nothing yet: the endpoints are wanted.
    Wanted,
    /// The cache of resolved endpoints was read.
    CacheLoaded(EndPoints),
    /// There is no cache of resolved endpoints, or it could not be read.
    CacheUnreadable,
    /// The document was fetched and resolved anew, and both caches written.
    Refreshed(EndPoints),
}

/// What is to be done about the endpoints next.
#[derive(Debug)]
pub enum FetchAction {
    /// Nothing: here they are.
    Deliver(EndPoints),
    /// Read the cache of resolved endpoints.
    LoadCache,
    /// Fetch the document, resolve it, and write both caches.
    Refresh,
}

impl FetchEvent {
    /// The endpoints that the event brings, if any.
    pub open spec fn brought(self) -> Option<Seq<EndPointView>> {
        match self {
            FetchEvent::CacheLoaded(endpoints) => Some(endpoints@),
            FetchEvent::Refreshed(endpoints) => Some(endpoints@),
            _ => None,
        }
    }
}

/// The endpoints known after an event: those known before, if any, and
/// else those that the event brings.
pub open spec fn known_after(known: Option<Seq<EndPointView>>, event: FetchEvent) -> Option<
    Seq<EndPointView>,
> {
    match known {
        Some(endpoints) => Some(endpoints),
        None => event.brought(),
    }
}

impl ApiSpec {
    /// A new API whose endpoints are not yet known.
    pub fn new(name: String, spec_url: String, base_url: String) -> (r: ApiSpec)
        ensures
            r@ == (ApiSpecView {
                name: name@,
                spec_url: spec_url@,
                base_url: base_url@,
                endpoints: None,
            }),
    {
        ApiSpec { name, spec_url, base_url, endpoints: None }
    }

    /// One step towards the endpoints of this API. Endpoints that are known
    /// are delivered, whatever the event. Otherwise endpoints that the event
    /// brings are kept and delivered; when they are first wanted the cache is
    /// to be read, and when that could not be read the document is to be
    /// fetched anew.
    pub fn get_endpoints(&mut self, event: FetchEvent) -> (action: FetchAction)
        ensures
            final(self)@ == (ApiSpecView {
                endpoints: known_after(old(self)@.endpoints, event),
                ..old(self)@
            }),
            match known_after(old(self)@.endpoints, event) {
                Some(endpoints) => action matches FetchAction::Deliver(delivered) && delivered@
                    == endpoints,
                None => match event {
                    FetchEvent::Wanted => action is LoadCache,
                    _ => action is Refresh,
                },
            },
    {
        match &self.endpoints {
            Some(endpoints) => {
                return FetchAction::Deliver(endpoints.clone());
            },
            None => {},
        }
        match event {
            FetchEvent::Wanted => FetchAction::LoadCache,
            FetchEvent::CacheUnreadable => FetchAction::Refresh,
            FetchEvent::CacheLoaded(endpoints) => {
                let delivered = endpoints.clone();
                self.endpoints = Some(endpoints);
                FetchAction::Deliver(delivered)
            },
            FetchEvent::Refreshed(endpoints) => {
                let delivered = endpoints.clone();
                self.endpoints = Some(endpoints);
                FetchAction::Deliver(delivered)
            },
        }
    }

    /// The URL from which the document of this API is to be fetched, or why
    /// the registered location is no URL.
    pub fn request_url(&self) -> (r: Result<url::Url, url::ParseError>)
        ensures
            r is Ok <==> url_accepted(self.spec_url@),
    {
        url::Url::parse(self.spec_url.as_str())
    }

    /// The endpoints of this API, if they are known.
    pub fn endpoints(&self) -> (r: Option<&EndPoints>)
        ensures
            match r {
                Some(endpoints) => self@.endpoints == Some(endpoints@),
                None => self@.endpoints is None,
            },
    {
        match &self.endpoints {
            Some(endpoints) => Some(endpoints),
            None => None,
        }
    }
}

} // verus!
