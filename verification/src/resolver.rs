//! Handing a host to a resolver.

use crate::name::{hyper_name_text, InvalidNameError, Name};
use crate::target::{
    host_readable, is_bare_host, is_host_readable, lemma_host_is_bare, opt_string, uri_authority,
    uri_host, PortRule, UriParts,
};
use http::Uri;
use hyper_util::client::legacy::connect::dns::Name as HyperName;
use std::str::FromStr;
use vstd::prelude::*;

verus! {

/// A question to put: this resolver is to be asked for this name.
///
/// `R` is whatever handle a caller keeps its resolvers by.
#[derive(Debug)]
pub struct Query<'a, R> {
    pub resolver: &'a R,
    pub name: Name,
}

/// A question on behalf of a URI, and what to do to the ports of its answer.
#[derive(Debug)]
pub struct HttpQuery<'a, R> {
    pub query: Query<'a, R>,
    pub ports: PortRule,
}

/// Why no question could be put for a URI.
#[derive(Debug)]
pub enum HttpResolveError {
    /// The URI names no host.
    MissingHost,
    /// The host is no DNS name.
    InvalidName(InvalidNameError),
}

impl HttpResolveError {
    /// What the error is called in front of a user.
    pub fn message(&self) -> (text: String)
        ensures
            text@ == (match self {
                HttpResolveError::MissingHost => "missing host"@,
                HttpResolveError::InvalidName(_) => "invalid DNS name"@,
            }),
    {
        match self {
            HttpResolveError::MissingHost => "missing host".to_string(),
            HttpResolveError::InvalidName(error) => error.message(),
        }
    }
}

/// A resolver behind a handle, which can be asked for names and for URIs.
#[derive(Debug)]
pub struct DynResolver<R> {
    pub resolver: R,
}

impl<R: Clone> Clone for DynResolver<R> {
    /// The same resolver, behind a clone of the handle.
    fn clone(&self) -> (copy: Self)
        ensures
            cloned::<R>(self.resolver, copy.resolver),
    {
        DynResolver { resolver: self.resolver.clone() }
    }
}

impl<R> DynResolver<R> {
    /// Takes the handle of a resolver.
    pub fn new(resolver: R) -> (this: DynResolver<R>)
        ensures
            this.resolver == resolver,
    {
        DynResolver { resolver }
    }

    /// Passes a name on to the resolver as it is.
    pub fn call(&self, name: HyperName) -> (query: Query<'_, R>)
        ensures
            *query.resolver == self.resolver,
            query.name == Name(name),
            query.name@ == hyper_name_text(name),
    {
        Query { resolver: &self.resolver, name: Name(name) }
    }

    /// Resolve an HTTP host and port, not just a domain name.
    ///
    /// The answer to the question goes to [`PortRule::finish`].
    pub fn http_resolve(&self, target: &Uri) -> (asked: Result<
        HttpQuery<'_, R>,
        HttpResolveError,
    >)
        requires
            host_readable(*target),
        ensures
            match asked {
                Ok(asked) => {
                    &&& uri_host(*target) == Some(asked.query.name@)
                    &&& is_bare_host(asked.query.name@)
                    &&& *asked.query.resolver == self.resolver
                    &&& asked.ports == PortRule::for_uri(*target)
                },
                Err(error) => error is MissingHost && uri_authority(*target) is None,
            },
    {
        proof {
            if let Some(authority) = uri_authority(*target) {
                lemma_host_is_bare(authority);
            }
        }
        self.http_resolve_parts(&UriParts::of(target))
    }

    /// As [`DynResolver::http_resolve`], for any URI: `None` where its host cannot
    /// be told.
    pub fn http_resolve_checked(&self, target: &Uri) -> (checked: Option<
        Result<HttpQuery<'_, R>, HttpResolveError>,
    >)
        ensures
            checked is Some <==> host_readable(*target),
            checked matches Some(asked) ==> match asked {
                Ok(asked) => {
                    &&& uri_host(*target) == Some(asked.query.name@)
                    &&& is_bare_host(asked.query.name@)
                    &&& *asked.query.resolver == self.resolver
                    &&& asked.ports == PortRule::for_uri(*target)
                },
                Err(error) => error is MissingHost && uri_authority(*target) is None,
            },
    {
        if is_host_readable(target) {
            Some(self.http_resolve(target))
        } else {
            None
        }
    }

    /// As [`DynResolver::http_resolve`], for a URI that was read already.
    pub fn http_resolve_parts(&self, target: &UriParts) -> (asked: Result<
        HttpQuery<'_, R>,
        HttpResolveError,
    >)
        ensures
            match asked {
                Ok(asked) => {
                    &&& opt_string(target.host) == Some(asked.query.name@)
                    &&& *asked.query.resolver == self.resolver
                    &&& asked.ports == PortRule::for_parts(
                        target.port,
                        target.explicit_port,
                        opt_string(target.scheme),
                    )
                },
                Err(error) => error is MissingHost && target.host is None,
            },
    {
        let host = match &target.host {
            Some(host) => host,
            None => return Err(HttpResolveError::MissingHost),
        };
        let ports = target.port_rule();
        let name = match Name::from_str(host.as_str()) {
            Ok(name) => name,
            Err(error) => return Err(HttpResolveError::InvalidName(error)),
        };
        Ok(HttpQuery { query: Query { resolver: &self.resolver, name }, ports })
    }
}

} // verus!
