use vstd::prelude::*;

verus! {

/// is a generic HTTP endpoint. This wraps around an endpoint providing support
/// for each of the HTTP servers.
pub struct Endpoint<TEndpoint> {
    /// the endpoint which is being wrapped.
    pub endpoint: TEndpoint,
}

impl<TEndpoint> Endpoint<TEndpoint> {
    /// create a new endpoint from an endpoint.
    pub fn from_endpoint(endpoint: TEndpoint) -> (e: Self)
        ensures
            e.endpoint == endpoint,
    {
        Endpoint { endpoint }
    }

    /// Shortcut to arc the endpoint.
    pub fn arced(self) -> (shared: std::sync::Arc<Self>)
        ensures
            *shared == self,
    {
        std::sync::Arc::new(self)
    }
}

/// is an easy way of constructing an endpoint from a list of methods and an
/// async function you provide.
pub struct GenericEndpoint<TMethods, TEndpointFn> {
    methods: Option<TMethods>,
    func: TEndpointFn,
}

impl<TMethods, TEndpointFn> GenericEndpoint<TMethods, TEndpointFn> {
    /// The methods that the endpoint has not handed to a router yet.
    pub closed spec fn pending_methods(&self) -> Option<TMethods> {
        self.methods
    }

    /// The function that handles requests.
    pub closed spec fn handler_fn(&self) -> TEndpointFn {
        self.func
    }

    /// create a new [Endpoint] from a list of methods and a function to handle the request.
    pub fn new(methods: TMethods, func: TEndpointFn) -> (e: Endpoint<Self>)
        ensures
            e.endpoint.pending_methods() == Some(methods),
            e.endpoint.handler_fn() == func,
    {
        Endpoint::from_endpoint(Self::new_raw(methods, func))
    }

    /// create a new generic endpoint from a list of methods and a function to handle the request.
    pub fn new_raw(methods: TMethods, func: TEndpointFn) -> (e: Self)
        ensures
            e.pending_methods() == Some(methods),
            e.handler_fn() == func,
    {
        Self { methods: Some(methods), func }
    }

    /// Hands the methods to the router that mounts the endpoint. A router
    /// mounts an endpoint once: the methods are handed out a single time.
    pub fn register(&mut self) -> (methods: TMethods)
        requires
            old(self).pending_methods() is Some,
        ensures
            methods == old(self).pending_methods()->Some_0,
            final(self).pending_methods() is None,
            final(self).handler_fn() == old(self).handler_fn(),
    {
        self.methods.take().unwrap()
    }

    /// The function that handles requests.
    pub fn func(&self) -> (func: &TEndpointFn)
        ensures
            *func == self.handler_fn(),
    {
        &self.func
    }
}

} // verus!
