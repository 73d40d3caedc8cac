//! Builders of the HTTP services: each holds the parts of a service until it
//! is built, and exchanges one part for another.

use vstd::prelude::*;
use crate::config::HttpServiceConfig;
use crate::message::Request;
use crate::service::BuildService;

verus! {

/// The expect handler of a service that has none of its own: it accepts
/// every expectation and hands the request on unchanged.
#[derive(Clone, Copy, Debug)]
pub struct ExpectHandler;

impl ExpectHandler {
    pub fn new() -> (r: Self) {
        ExpectHandler
    }

    /// Accepts the expectation of `req`.
    pub fn call<B>(&self, req: Request<B>) -> (r: Request<B>)
        ensures
            r == req,
    {
        req
    }
}

impl BuildService<()> for ExpectHandler {
    type Service = ExpectHandler;

    type Error = ();

    open spec fn builds(&self, arg: (), res: Result<ExpectHandler, ()>) -> bool {
        res is Ok
    }

    fn build(&self, arg: ()) -> (res: Result<ExpectHandler, ()>) {
        Ok(ExpectHandler)
    }
}

/// The TLS acceptor of a service without TLS: it hands the stream on
/// unchanged.
#[derive(Clone, Copy, Debug)]
pub struct NoOpTlsAcceptorFactory;

impl NoOpTlsAcceptorFactory {
    /// Accepts `stream` as it is.
    pub fn call<St>(&self, stream: St) -> (r: St)
        ensures
            r == stream,
    {
        stream
    }
}

impl BuildService<()> for NoOpTlsAcceptorFactory {
    type Service = NoOpTlsAcceptorFactory;

    type Error = ();

    open spec fn builds(&self, arg: (), res: Result<NoOpTlsAcceptorFactory, ()>) -> bool {
        res is Ok
    }

    fn build(&self, arg: ()) -> (res: Result<NoOpTlsAcceptorFactory, ()>) {
        Ok(NoOpTlsAcceptorFactory)
    }
}

/// A TLS acceptor service over an OpenSSL acceptor.
#[derive(Debug)]
pub struct OpensslAcceptorService<A> {
    pub acceptor: A,
}

impl<A> OpensslAcceptorService<A> {
    pub fn new(acceptor: A) -> (r: Self)
        ensures
            r.acceptor == acceptor,
    {
        OpensslAcceptorService { acceptor }
    }
}

/// A TLS acceptor service over a rustls server configuration.
#[derive(Debug)]
pub struct RustlsAcceptorService<C> {
    pub config: C,
}

impl<C> RustlsAcceptorService<C> {
    pub fn new(config: C) -> (r: Self)
        ensures
            r.config == config,
    {
        RustlsAcceptorService { config }
    }
}

/// A TLS acceptor service over a native-tls acceptor.
#[derive(Debug)]
pub struct NativeTlsAcceptorService<A> {
    pub acceptor: A,
}

impl<A> NativeTlsAcceptorService<A> {
    pub fn new(acceptor: A) -> (r: Self)
        ensures
            r.acceptor == acceptor,
    {
        NativeTlsAcceptorService { acceptor }
    }
}

/// Builder of an HTTP/1 service from a service factory, an expect handler
/// and a TLS acceptor.
pub struct H1ServiceBuilder<
    F,
    EF,
    AF,
    const HEADER_LIMIT: usize,
    const READ_BUF_LIMIT: usize,
    const WRITE_BUF_LIMIT: usize,
> {
    pub factory: F,
    pub expect: EF,
    pub tls_factory: AF,
    pub config: HttpServiceConfig<HEADER_LIMIT, READ_BUF_LIMIT, WRITE_BUF_LIMIT>,
}

impl<
    F,
    const HEADER_LIMIT: usize,
    const READ_BUF_LIMIT: usize,
    const WRITE_BUF_LIMIT: usize,
> H1ServiceBuilder<
    F,
    ExpectHandler,
    NoOpTlsAcceptorFactory,
    HEADER_LIMIT,
    READ_BUF_LIMIT,
    WRITE_BUF_LIMIT,
> {
    /// A builder over `factory` with the default configuration, the default
    /// expect handler and no TLS.
    pub fn new(factory: F) -> (r: Self)
        ensures
            r.factory == factory,
            r.config == HttpServiceConfig::<HEADER_LIMIT, READ_BUF_LIMIT, WRITE_BUF_LIMIT>::new_spec(),
    {
        Self::with_config(factory, HttpServiceConfig::new())
    }

    /// A builder over `factory` with `config`, the default expect handler
    /// and no TLS.
    pub fn with_config(
        factory: F,
        config: HttpServiceConfig<HEADER_LIMIT, READ_BUF_LIMIT, WRITE_BUF_LIMIT>,
    ) -> (r: Self)
        ensures
            r.factory == factory,
            r.config == config,
    {
        H1ServiceBuilder {
            factory,
            expect: ExpectHandler::new(),
            tls_factory: NoOpTlsAcceptorFactory,
            config,
        }
    }

    /// The same builder with another configuration.
    pub fn config(
        self,
        config: HttpServiceConfig<HEADER_LIMIT, READ_BUF_LIMIT, WRITE_BUF_LIMIT>,
    ) -> (r: Self)
        ensures
            r.factory == self.factory,
            r.expect == self.expect,
            r.tls_factory == self.tls_factory,
            r.config == config,
    {
        let mut this = self;
        this.config = config;
        this
    }
}

impl<
    F,
    EF,
    AF,
    const HEADER_LIMIT: usize,
    const READ_BUF_LIMIT: usize,
    const WRITE_BUF_LIMIT: usize,
> H1ServiceBuilder<F, EF, AF, HEADER_LIMIT, READ_BUF_LIMIT, WRITE_BUF_LIMIT> {
    /// The same builder with another expect handler.
    pub fn expect<EF2>(self, expect: EF2) -> (r: H1ServiceBuilder<
        F,
        EF2,
        AF,
        HEADER_LIMIT,
        READ_BUF_LIMIT,
        WRITE_BUF_LIMIT,
    >)
        ensures
            r.factory == self.factory,
            r.expect == expect,
            r.tls_factory == self.tls_factory,
            r.config == self.config,
    {
        H1ServiceBuilder {
            factory: self.factory,
            expect,
            tls_factory: self.tls_factory,
            config: self.config,
        }
    }

    /// The same builder with TLS by the OpenSSL acceptor `acceptor`.
    pub fn openssl<A>(self, acceptor: A) -> (r: H1ServiceBuilder<
        F,
        EF,
        OpensslAcceptorService<A>,
        HEADER_LIMIT,
        READ_BUF_LIMIT,
        WRITE_BUF_LIMIT,
    >)
        ensures
            r.factory == self.factory,
            r.expect == self.expect,
            r.tls_factory.acceptor == acceptor,
            r.config == self.config,
    {
        H1ServiceBuilder {
            factory: self.factory,
            expect: self.expect,
            tls_factory: OpensslAcceptorService::new(acceptor),
            config: self.config,
        }
    }

    /// The same builder with TLS by the rustls server configuration
    /// `config`.
    pub fn rustls<C>(self, config: C) -> (r: H1ServiceBuilder<
        F,
        EF,
        RustlsAcceptorService<C>,
        HEADER_LIMIT,
        READ_BUF_LIMIT,
        WRITE_BUF_LIMIT,
    >)
        ensures
            r.factory == self.factory,
            r.expect == self.expect,
            r.tls_factory.config == config,
            r.config == self.config,
    {
        H1ServiceBuilder {
            factory: self.factory,
            expect: self.expect,
            tls_factory: RustlsAcceptorService::new(config),
            config: self.config,
        }
    }
}

/// An HTTP/1 service: the service proper, the handler of expectations, the
/// handler of upgrades, if there is one, and the TLS acceptor, with the
/// configuration they run under.
pub struct H1Service<
    S,
    X,
    U,
    A,
    const HEADER_LIMIT: usize,
    const READ_BUF_LIMIT: usize,
    const WRITE_BUF_LIMIT: usize,
> {
    pub config: HttpServiceConfig<HEADER_LIMIT, READ_BUF_LIMIT, WRITE_BUF_LIMIT>,
    pub service: S,
    pub expect: X,
    pub upgrade: Option<U>,
    pub tls_acceptor: A,
}

impl<
    S,
    X,
    U,
    A,
    const HEADER_LIMIT: usize,
    const READ_BUF_LIMIT: usize,
    const WRITE_BUF_LIMIT: usize,
> H1Service<S, X, U, A, HEADER_LIMIT, READ_BUF_LIMIT, WRITE_BUF_LIMIT> {
    pub fn new(
        config: HttpServiceConfig<HEADER_LIMIT, READ_BUF_LIMIT, WRITE_BUF_LIMIT>,
        service: S,
        expect: X,
        upgrade: Option<U>,
        tls_acceptor: A,
    ) -> (r: Self)
        ensures
            r.config == config,
            r.service == service,
            r.expect == expect,
            r.upgrade == upgrade,
            r.tls_acceptor == tls_acceptor,
    {
        H1Service { config, service, expect, upgrade, tls_acceptor }
    }
}

/// Whether `res` is what building the parts of an HTTP/1 service came to:
/// the expect handler is built first, then the service from `arg`, then the
/// TLS acceptor; the first failure is the failure of the whole.
pub open spec fn h1_built<
    F,
    EF,
    AF,
    Arg,
    const HEADER_LIMIT: usize,
    const READ_BUF_LIMIT: usize,
    const WRITE_BUF_LIMIT: usize,
>(
    builder: H1ServiceBuilder<F, EF, AF, HEADER_LIMIT, READ_BUF_LIMIT, WRITE_BUF_LIMIT>,
    arg: Arg,
    res: Result<
        H1Service<F::Service, EF::Service, (), AF::Service, HEADER_LIMIT, READ_BUF_LIMIT, WRITE_BUF_LIMIT>,
        F::Error,
    >,
) -> bool where
    F: BuildService<Arg>,
    EF: BuildService<(), Error = F::Error>,
    AF: BuildService<(), Error = F::Error>,
 {
    match res {
        Ok(s) => {
            &&& builder.expect.builds((), Ok(s.expect))
            &&& builder.factory.builds(arg, Ok(s.service))
            &&& builder.tls_factory.builds((), Ok(s.tls_acceptor))
            &&& s.config == builder.config
            &&& s.upgrade is None
        },
        Err(e) => {
            ||| builder.expect.builds((), Err(e))
            ||| builder.factory.builds(arg, Err(e))
            ||| builder.tls_factory.builds((), Err(e))
        },
    }
}

impl<
    F,
    EF,
    AF,
    Arg,
    const HEADER_LIMIT: usize,
    const READ_BUF_LIMIT: usize,
    const WRITE_BUF_LIMIT: usize,
> BuildService<Arg> for H1ServiceBuilder<
    F,
    EF,
    AF,
    HEADER_LIMIT,
    READ_BUF_LIMIT,
    WRITE_BUF_LIMIT,
> where
    F: BuildService<Arg>,
    EF: BuildService<(), Error = F::Error>,
    AF: BuildService<(), Error = F::Error>,
 {
    type Service = H1Service<
        F::Service,
        EF::Service,
        (),
        AF::Service,
        HEADER_LIMIT,
        READ_BUF_LIMIT,
        WRITE_BUF_LIMIT,
    >;

    type Error = F::Error;

    open spec fn builds(&self, arg: Arg, res: Result<Self::Service, Self::Error>) -> bool {
        h1_built(*self, arg, res)
    }

    fn build(&self, arg: Arg) -> (res: Result<Self::Service, Self::Error>) {
        let expect = match self.expect.build(()) {
            Ok(expect) => expect,
            Err(e) => {
                return Err(e);
            },
        };
        let service = match self.factory.build(arg) {
            Ok(service) => service,
            Err(e) => {
                return Err(e);
            },
        };
        let tls_acceptor = match self.tls_factory.build(()) {
            Ok(tls_acceptor) => tls_acceptor,
            Err(e) => {
                return Err(e);
            },
        };
        Ok(H1Service::new(self.config, service, expect, None, tls_acceptor))
    }
}

/// Builder of an HTTP service from a service factory, an expect handler, an
/// optional upgrade handler and a TLS acceptor.
pub struct HttpServiceBuilder<
    F,
    FE,
    FU,
    FA,
    const HEADER_LIMIT: usize,
    const READ_BUF_LIMIT: usize,
    const WRITE_BUF_LIMIT: usize,
> {
    pub factory: F,
    pub expect: FE,
    pub upgrade: Option<FU>,
    pub tls_factory: FA,
    pub config: HttpServiceConfig<HEADER_LIMIT, READ_BUF_LIMIT, WRITE_BUF_LIMIT>,
}

impl<
    F,
    FU,
    const HEADER_LIMIT: usize,
    const READ_BUF_LIMIT: usize,
    const WRITE_BUF_LIMIT: usize,
> HttpServiceBuilder<
    F,
    ExpectHandler,
    FU,
    NoOpTlsAcceptorFactory,
    HEADER_LIMIT,
    READ_BUF_LIMIT,
    WRITE_BUF_LIMIT,
> {
    /// A builder of an HTTP/1 service over `factory` with `config`, the
    /// default expect handler, no upgrade handler and no TLS.
    pub fn h1(
        factory: F,
        config: HttpServiceConfig<HEADER_LIMIT, READ_BUF_LIMIT, WRITE_BUF_LIMIT>,
    ) -> (r: Self)
        ensures
            r.factory == factory,
            r.upgrade == None::<FU>,
            r.config == config,
    {
        HttpServiceBuilder {
            factory,
            expect: ExpectHandler::new(),
            upgrade: None,
            tls_factory: NoOpTlsAcceptorFactory,
            config,
        }
    }
}

impl<
    F,
    FE,
    FU,
    FA,
    const HEADER_LIMIT: usize,
    const READ_BUF_LIMIT: usize,
    const WRITE_BUF_LIMIT: usize,
> HttpServiceBuilder<F, FE, FU, FA, HEADER_LIMIT, READ_BUF_LIMIT, WRITE_BUF_LIMIT> {
    /// The same builder with TLS by the OpenSSL acceptor `acceptor`.
    pub fn openssl<A>(self, acceptor: A) -> (r: HttpServiceBuilder<
        F,
        FE,
        FU,
        OpensslAcceptorService<A>,
        HEADER_LIMIT,
        READ_BUF_LIMIT,
        WRITE_BUF_LIMIT,
    >)
        ensures
            r.factory == self.factory,
            r.expect == self.expect,
            r.upgrade == self.upgrade,
            r.tls_factory.acceptor == acceptor,
            r.config == self.config,
    {
        HttpServiceBuilder {
            factory: self.factory,
            expect: self.expect,
            upgrade: self.upgrade,
            tls_factory: OpensslAcceptorService::new(acceptor),
            config: self.config,
        }
    }

    /// The same builder with TLS by the rustls server configuration
    /// `config`.
    pub fn rustls<C>(self, config: C) -> (r: HttpServiceBuilder<
        F,
        FE,
        FU,
        RustlsAcceptorService<C>,
        HEADER_LIMIT,
        READ_BUF_LIMIT,
        WRITE_BUF_LIMIT,
    >)
        ensures
            r.factory == self.factory,
            r.expect == self.expect,
            r.upgrade == self.upgrade,
            r.tls_factory.config == config,
            r.config == self.config,
    {
        HttpServiceBuilder {
            factory: self.factory,
            expect: self.expect,
            upgrade: self.upgrade,
            tls_factory: RustlsAcceptorService::new(config),
            config: self.config,
        }
    }

    /// The same builder with TLS by the native-tls acceptor `acceptor`.
    pub fn native_tls<A>(self, acceptor: A) -> (r: HttpServiceBuilder<
        F,
        FE,
        FU,
        NativeTlsAcceptorService<A>,
        HEADER_LIMIT,
        READ_BUF_LIMIT,
        WRITE_BUF_LIMIT,
    >)
        ensures
            r.factory == self.factory,
            r.expect == self.expect,
            r.upgrade == self.upgrade,
            r.tls_factory.acceptor == acceptor,
            r.config == self.config,
    {
        HttpServiceBuilder {
            factory: self.factory,
            expect: self.expect,
            upgrade: self.upgrade,
            tls_factory: NativeTlsAcceptorService::new(acceptor),
            config: self.config,
        }
    }
}

/// Whether `res` is what building the parts of an HTTP service came to: the
/// expect handler is built first, then the upgrade handler, if there is
/// one, then the service from `arg`, then the TLS acceptor; the first
/// failure is the failure of the whole.
pub open spec fn http_built<
    F,
    FE,
    FU,
    FA,
    Arg,
    const HEADER_LIMIT: usize,
    const READ_BUF_LIMIT: usize,
    const WRITE_BUF_LIMIT: usize,
>(
    builder: HttpServiceBuilder<F, FE, FU, FA, HEADER_LIMIT, READ_BUF_LIMIT, WRITE_BUF_LIMIT>,
    arg: Arg,
    res: Result<
        H1Service<
            F::Service,
            FE::Service,
            FU::Service,
            FA::Service,
            HEADER_LIMIT,
            READ_BUF_LIMIT,
            WRITE_BUF_LIMIT,
        >,
        F::Error,
    >,
) -> bool where
    F: BuildService<Arg>,
    FE: BuildService<(), Error = F::Error>,
    FU: BuildService<(), Error = F::Error>,
    FA: BuildService<(), Error = F::Error>,
 {
    match res {
        Ok(s) => {
            &&& builder.expect.builds((), Ok(s.expect))
            &&& match builder.upgrade {
                Some(u) => s.upgrade matches Some(built) && u.builds((), Ok(built)),
                None => s.upgrade is None,
            }
            &&& builder.factory.builds(arg, Ok(s.service))
            &&& builder.tls_factory.builds((), Ok(s.tls_acceptor))
            &&& s.config == builder.config
        },
        Err(e) => {
            ||| builder.expect.builds((), Err(e))
            ||| builder.upgrade matches Some(u) && u.builds((), Err(e))
            ||| builder.factory.builds(arg, Err(e))
            ||| builder.tls_factory.builds((), Err(e))
        },
    }
}

impl<
    F,
    FE,
    FU,
    FA,
    Arg,
    const HEADER_LIMIT: usize,
    const READ_BUF_LIMIT: usize,
    const WRITE_BUF_LIMIT: usize,
> BuildService<Arg> for HttpServiceBuilder<
    F,
    FE,
    FU,
    FA,
    HEADER_LIMIT,
    READ_BUF_LIMIT,
    WRITE_BUF_LIMIT,
> where
    F: BuildService<Arg>,
    FE: BuildService<(), Error = F::Error>,
    FU: BuildService<(), Error = F::Error>,
    FA: BuildService<(), Error = F::Error>,
 {
    type Service = H1Service<
        F::Service,
        FE::Service,
        FU::Service,
        FA::Service,
        HEADER_LIMIT,
        READ_BUF_LIMIT,
        WRITE_BUF_LIMIT,
    >;

    type Error = F::Error;

    open spec fn builds(&self, arg: Arg, res: Result<Self::Service, Self::Error>) -> bool {
        http_built(*self, arg, res)
    }

    fn build(&self, arg: Arg) -> (res: Result<Self::Service, Self::Error>) {
        let expect = match self.expect.build(()) {
            Ok(expect) => expect,
            Err(e) => {
                return Err(e);
            },
        };
        let upgrade = match &self.upgrade {
            Some(upgrade) => match upgrade.build(()) {
                Ok(upgrade) => Some(upgrade),
                Err(e) => {
                    return Err(e);
                },
            },
            None => None,
        };
        let service = match self.factory.build(arg) {
            Ok(service) => service,
            Err(e) => {
                return Err(e);
            },
        };
        let tls_acceptor = match self.tls_factory.build(()) {
            Ok(tls_acceptor) => tls_acceptor,
            Err(e) => {
                return Err(e);
            },
        };
        Ok(H1Service::new(self.config, service, expect, upgrade, tls_acceptor))
    }
}

/// The services that handle one request: the service proper, the expect
/// handler and the upgrade handler, where there is one.
pub struct HttpFlow<S, X, U> {
    pub service: S,
    pub expect: X,
    pub upgrade: Option<U>,
}

impl<S, X, U> HttpFlow<S, X, U> {
    pub fn new(service: S, expect: X, upgrade: Option<U>) -> (r: Self)
        ensures
            r.service == service,
            r.expect == expect,
            r.upgrade == upgrade,
    {
        HttpFlow { service, expect, upgrade }
    }
}

/// An HTTP/3 service over `S`. HTTP/3 has neither expect nor upgrade
/// handlers.
pub struct H3Service<S> {
    pub flow: HttpFlow<S, (), ()>,
}

impl<S> H3Service<S> {
    /// An HTTP/3 service over `service`.
    pub fn new(service: S) -> (r: Self)
        ensures
            r.flow.service == service,
            r.flow.upgrade == None::<()>,
    {
        H3Service { flow: HttpFlow::new(service, (), None) }
    }
}

/// The path of a request, borrowed from it.
#[derive(Debug)]
pub struct PathRef<'a>(pub &'a str);

impl<'a> std::ops::Deref for PathRef<'a> {
    type Target = str;

    fn deref(&self) -> (r: &str)
        ensures
            r == self.0,
    {
        self.0
    }
}

/// A middleware that compresses response bodies by what the request
/// accepts.
#[derive(Clone, Copy, Debug)]
pub struct Compress;

/// The service that `Compress` builds round the service `S`.
pub struct CompressService<S> {
    pub service: S,
}

impl<S> BuildService<S> for Compress {
    type Service = CompressService<S>;

    type Error = ();

    open spec fn builds(&self, arg: S, res: Result<CompressService<S>, ()>) -> bool {
        res matches Ok(built) && built.service == arg
    }

    fn build(&self, service: S) -> (res: Result<CompressService<S>, ()>) {
        Ok(CompressService { service })
    }
}

} // verus!
