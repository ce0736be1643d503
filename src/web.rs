use vstd::prelude::*;

verus! {

/// A middleware layer, outermost last.
pub enum Layer<M> {
    /// A middleware service factory.
    Enclosed(M),
    /// A function used as middleware.
    EnclosedFn(M),
}

/// An application under construction: its state, its routes by path and
/// the middleware around them.
pub struct App<C, S, M> {
    state: C,
    routes: Vec<(&'static str, S)>,
    layers: Vec<Layer<M>>,
}

/// The path of the request being handled.
pub struct PathRef<'a>(pub &'a str);

impl<'a> PathRef<'a> {
    pub fn as_str(&self) -> (r: &'a str)
        ensures
            r == self.0,
    {
        self.0
    }
}

impl<S, M> App<(), S, M> {
    /// An application without state.
    pub fn new() -> (r: App<(), S, M>)
        ensures
            r.routes().len() == 0,
            r.layers().len() == 0,
    {
        Self::with_async_state(())
    }
}

impl<C, S, M> App<C, S, M> {
    pub closed spec fn state(&self) -> C {
        self.state
    }

    pub closed spec fn routes(&self) -> Seq<(&'static str, S)> {
        self.routes@
    }

    pub closed spec fn layers(&self) -> Seq<Layer<M>> {
        self.layers@
    }

    /// An application whose state is shared by the tasks of one thread.
    pub fn with_current_thread_state(state: C) -> (r: App<C, S, M>)
        ensures
            r.state() == state,
            r.routes().len() == 0,
            r.layers().len() == 0,
    {
        Self::with_async_state(state)
    }

    /// An application whose state is shared by all tasks and threads.
    pub fn with_multi_thread_state(state: C) -> (r: App<C, S, M>)
        ensures
            r.state() == state,
            r.routes().len() == 0,
            r.layers().len() == 0,
    {
        Self::with_async_state(state)
    }

    /// An application whose state comes from the given factory.
    pub fn with_async_state(ctx_factory: C) -> (r: App<C, S, M>)
        ensures
            r.state() == ctx_factory,
            r.routes().len() == 0,
            r.layers().len() == 0,
    {
        App { state: ctx_factory, routes: Vec::new(), layers: Vec::new() }
    }

    /// Serves `path` with `factory`.
    pub fn at(self, path: &'static str, factory: S) -> (r: App<C, S, M>)
        ensures
            r.state() == self.state(),
            r.routes() == self.routes().push((path, factory)),
            r.layers() == self.layers(),
    {
        let mut app = self;
        app.routes.push((path, factory));
        app
    }

    /// Wraps the application in a middleware service factory.
    pub fn enclosed(self, transform: M) -> (r: App<C, S, M>)
        ensures
            r.state() == self.state(),
            r.routes() == self.routes(),
            r.layers() == self.layers().push(Layer::Enclosed(transform)),
    {
        let mut app = self;
        app.layers.push(Layer::Enclosed(transform));
        app
    }

    /// Wraps the application in a function used as middleware.
    pub fn enclosed_fn(self, transform: M) -> (r: App<C, S, M>)
        ensures
            r.state() == self.state(),
            r.routes() == self.routes(),
            r.layers() == self.layers().push(Layer::EnclosedFn(transform)),
    {
        let mut app = self;
        app.layers.push(Layer::EnclosedFn(transform));
        app
    }

    /// Number of routes.
    pub fn route_count(&self) -> (r: usize)
        ensures
            r == self.routes().len(),
    {
        self.routes.len()
    }

    /// Number of middleware layers.
    pub fn layer_count(&self) -> (r: usize)
        ensures
            r == self.layers().len(),
    {
        self.layers.len()
    }
}

/// A TLS acceptor that hands the connection through untouched.
#[derive(Clone, Copy, Debug)]
pub struct NoOpTlsAcceptorService;

impl NoOpTlsAcceptorService {
    /// Builds the service; it needs nothing.
    pub fn new_service(&self) -> (r: NoOpTlsAcceptorService) {
        NoOpTlsAcceptorService
    }

    /// Always ready.
    pub fn poll_ready(&self) -> (r: bool)
        ensures
            r,
    {
        true
    }

    /// Returns the connection it was given.
    pub fn call<St>(&self, io: St) -> (r: St)
        ensures
            r == io,
    {
        io
    }
}

} // verus!
