//! Services, the factories that build them, and the combinators that make
//! one factory out of two parts.

use vstd::prelude::*;
use std::marker::PhantomData;

verus! {

/// Something that answers requests.
pub trait Service<Req> {
    /// What a request is answered with.
    type Response;

    /// What a request fails with.
    type Error;

    /// Whether the service may be called with `req`.
    spec fn accepts(&self, req: Req) -> bool;

    /// Whether `res` is an answer of the service to `req`.
    spec fn answers(&self, req: Req, res: Result<Self::Response, Self::Error>) -> bool;

    /// Answers `req`.
    fn call(&self, req: Req) -> (res: Result<Self::Response, Self::Error>)
        requires
            self.accepts(req),
        ensures
            self.answers(req, res),
    ;
}

/// Something that builds a service from an argument.
pub trait BuildService<Arg> {
    /// What is built.
    type Service;

    /// What building fails with.
    type Error;

    /// Whether `res` is what building from `arg` may come to.
    spec fn builds(&self, arg: Arg, res: Result<Self::Service, Self::Error>) -> bool;

    /// Builds a service from `arg`.
    fn build(&self, arg: Arg) -> (res: Result<Self::Service, Self::Error>)
        ensures
            self.builds(arg, res),
    ;
}

/// The pipeline that maps the response of a service.
#[derive(Clone, Copy, Debug)]
pub struct Mapped;

/// The pipeline that maps the error of a service.
#[derive(Clone, Copy, Debug)]
pub struct MappedErr;

/// The pipeline that hands the response of one service to a second.
#[derive(Clone, Copy, Debug)]
pub struct AndThen;

/// The pipeline that builds a second service round the first.
#[derive(Clone, Copy, Debug)]
pub struct Enclosed;

/// The pipeline that calls a function with the service and the request.
#[derive(Clone, Copy, Debug)]
pub struct EnclosedFn;

/// Two parts of a pipeline, of the kind `M`.
pub struct PipelineT<F, S, M> {
    pub first: F,
    pub second: S,
    pub marker: PhantomData<M>,
}

impl<F, S, M> PipelineT<F, S, M> {
    /// The pipeline of `first` and `second`.
    pub fn new(first: F, second: S) -> (r: Self)
        ensures
            r.first == first,
            r.second == second,
    {
        PipelineT { first, second, marker: PhantomData }
    }
}

/// A service made of a function.
#[derive(Clone)]
pub struct FnService<F> {
    pub f: F,
}

/// The service that answers by `f`, and the factory of such services.
pub fn fn_service<F>(f: F) -> (r: FnService<F>)
    ensures
        r.f == f,
{
    FnService { f }
}

impl<F, Req, Res, E> Service<Req> for FnService<F> where F: Fn(Req) -> Result<Res, E> {
    type Response = Res;

    type Error = E;

    open spec fn accepts(&self, req: Req) -> bool {
        self.f.requires((req,))
    }

    open spec fn answers(&self, req: Req, res: Result<Res, E>) -> bool {
        self.f.ensures((req,), res)
    }

    fn call(&self, req: Req) -> (res: Result<Res, E>) {
        (self.f)(req)
    }
}

impl<F: Clone> BuildService<()> for FnService<F> {
    type Service = FnService<F>;

    type Error = ();

    open spec fn builds(&self, arg: (), res: Result<FnService<F>, ()>) -> bool {
        res matches Ok(built) && vstd::pervasive::cloned(self.f, built.f)
    }

    fn build(&self, arg: ()) -> (res: Result<FnService<F>, ()>) {
        Ok(FnService { f: self.f.clone() })
    }
}

/// Combinators on every factory of services.
pub trait BuildServiceExt<Arg>: BuildService<Arg> {
    /// The factory of services that answer as the services of `self` do, with
    /// each response changed by `mapper`.
    fn map<F, Res, ResMap>(self, mapper: F) -> (r: PipelineT<Self, F, Mapped>) where
        F: Fn(Res) -> ResMap + Clone,
        Self: Sized,

        ensures
            r.first == self,
            r.second == mapper,
    {
        PipelineT::new(self, mapper)
    }

    /// The factory of services that answer as the services of `self` do, with
    /// each error changed by `err`.
    fn map_err<F, E, ErrMap>(self, err: F) -> (r: PipelineT<Self, F, MappedErr>) where
        F: Fn(E) -> ErrMap + Clone,
        Self: Sized,

        ensures
            r.first == self,
            r.second == err,
    {
        PipelineT::new(self, err)
    }

    /// The factory of services that hand the response of a service of `self`
    /// to a service of `factory` as its request.
    fn and_then<F>(self, factory: F) -> (r: PipelineT<Self, F, AndThen>) where
        F: BuildService<Arg>,
        Self: Sized,

        ensures
            r.first == self,
            r.second == factory,
    {
        PipelineT::new(self, factory)
    }

    /// The factory of the services that `build` builds round the services of
    /// `self`.
    fn enclosed<T>(self, build: T) -> (r: PipelineT<Self, T, Enclosed>) where
        T: BuildService<Self::Service> + Clone,
        Self: BuildService<Arg> + Sized,

        ensures
            r.first == self,
            r.second == build,
    {
        PipelineT::new(self, build)
    }

    /// The factory of services that answer by `func`, which is given the
    /// service of `self` and the request.
    fn enclosed_fn<T>(self, func: T) -> (r: PipelineT<Self, T, EnclosedFn>) where
        T: Clone,
        Self: BuildService<Arg> + Sized,

        ensures
            r.first == self,
            r.second == func,
    {
        PipelineT::new(self, func)
    }
}

impl<F, Arg> BuildServiceExt<Arg> for F where F: BuildService<Arg> {

}

/// Whether `res` is what building the first part from `arg` came to, where
/// the second part is carried over.
pub open spec fn built_first<SF: BuildService<Arg>, Arg, F, M>(
    first: SF,
    arg: Arg,
    res: Result<PipelineT<SF::Service, F, M>, SF::Error>,
) -> bool {
    match res {
        Ok(p) => first.builds(arg, Ok(p.first)),
        Err(e) => first.builds(arg, Err(e)),
    }
}

impl<SF, Arg, F> BuildService<Arg> for PipelineT<SF, F, Mapped> where
    SF: BuildService<Arg>,
    F: Clone,
 {
    type Service = PipelineT<SF::Service, F, Mapped>;

    type Error = SF::Error;

    open spec fn builds(&self, arg: Arg, res: Result<Self::Service, Self::Error>) -> bool {
        built_first(self.first, arg, res)
    }

    fn build(&self, arg: Arg) -> (res: Result<Self::Service, Self::Error>) {
        match self.first.build(arg) {
            Ok(service) => Ok(PipelineT::new(service, self.second.clone())),
            Err(e) => Err(e),
        }
    }
}

impl<SF, Arg, F> BuildService<Arg> for PipelineT<SF, F, MappedErr> where
    SF: BuildService<Arg>,
    F: Clone,
 {
    type Service = PipelineT<SF::Service, F, MappedErr>;

    type Error = SF::Error;

    open spec fn builds(&self, arg: Arg, res: Result<Self::Service, Self::Error>) -> bool {
        built_first(self.first, arg, res)
    }

    fn build(&self, arg: Arg) -> (res: Result<Self::Service, Self::Error>) {
        match self.first.build(arg) {
            Ok(service) => Ok(PipelineT::new(service, self.second.clone())),
            Err(e) => Err(e),
        }
    }
}

impl<SF, Arg, F> BuildService<Arg> for PipelineT<SF, F, EnclosedFn> where
    SF: BuildService<Arg>,
    F: Clone,
 {
    type Service = PipelineT<SF::Service, F, EnclosedFn>;

    type Error = SF::Error;

    open spec fn builds(&self, arg: Arg, res: Result<Self::Service, Self::Error>) -> bool {
        built_first(self.first, arg, res)
    }

    fn build(&self, arg: Arg) -> (res: Result<Self::Service, Self::Error>) {
        match self.first.build(arg) {
            Ok(service) => Ok(PipelineT::new(service, self.second.clone())),
            Err(e) => Err(e),
        }
    }
}

/// Whether `res` is what building the first part from `arg`, and then the
/// second part from what was built, came to.
pub open spec fn built_round<SF, Arg, T>(first: SF, second: T, arg: Arg, res: Result<
    T::Service,
    SF::Error,
>) -> bool where SF: BuildService<Arg>, T: BuildService<SF::Service, Error = SF::Error> {
    ||| exists|inner: SF::Service| #[trigger]
        first.builds(arg, Ok(inner)) && second.builds(inner, res)
    ||| res matches Err(e) && first.builds(arg, Err(e))
}

impl<SF, Arg, T> BuildService<Arg> for PipelineT<SF, T, Enclosed> where
    SF: BuildService<Arg>,
    T: BuildService<SF::Service, Error = SF::Error>,
 {
    type Service = T::Service;

    type Error = SF::Error;

    open spec fn builds(&self, arg: Arg, res: Result<Self::Service, Self::Error>) -> bool {
        built_round(self.first, self.second, arg, res)
    }

    fn build(&self, arg: Arg) -> (res: Result<Self::Service, Self::Error>) {
        match self.first.build(arg) {
            Ok(service) => {
                let ghost inner = service;
                let res = self.second.build(service);
                assert(self.first.builds(arg, Ok(inner)) && self.second.builds(inner, res));
                res
            },
            Err(e) => Err(e),
        }
    }
}

/// Whether `res` is what building both parts from `arg` came to.
pub open spec fn built_both<SF, Arg, F>(first: SF, second: F, arg: Arg, res: Result<
    PipelineT<SF::Service, F::Service, AndThen>,
    SF::Error,
>) -> bool where SF: BuildService<Arg>, F: BuildService<Arg, Error = SF::Error> {
    match res {
        Ok(p) => first.builds(arg, Ok(p.first)) && second.builds(arg, Ok(p.second)),
        Err(e) => first.builds(arg, Err(e)) || second.builds(arg, Err(e)),
    }
}

impl<SF, Arg, F> BuildService<Arg> for PipelineT<SF, F, AndThen> where
    SF: BuildService<Arg>,
    F: BuildService<Arg, Error = SF::Error>,
    Arg: Copy,
 {
    type Service = PipelineT<SF::Service, F::Service, AndThen>;

    type Error = SF::Error;

    open spec fn builds(&self, arg: Arg, res: Result<Self::Service, Self::Error>) -> bool {
        built_both(self.first, self.second, arg, res)
    }

    fn build(&self, arg: Arg) -> (res: Result<Self::Service, Self::Error>) {
        match self.first.build(arg) {
            Ok(first) => match self.second.build(arg) {
                Ok(second) => Ok(PipelineT::new(first, second)),
                Err(e) => Err(e),
            },
            Err(e) => Err(e),
        }
    }
}

/// Whether `m` is what `second` makes of a response of `first` to `req`.
pub open spec fn mapped<S, Req, F, Mid, Res>(first: S, second: F, req: Req, m: Res) -> bool where
    S: Service<Req, Response = Mid>,
    F: Fn(Mid) -> Res,
 {
    exists|r: Mid| first.answers(req, Ok(r)) && #[trigger] second.ensures((r,), m)
}

impl<S, Req, F, Mid, Res> Service<Req> for PipelineT<S, F, Mapped> where
    S: Service<Req, Response = Mid>,
    F: Fn(Mid) -> Res,
 {
    type Response = Res;

    type Error = S::Error;

    open spec fn accepts(&self, req: Req) -> bool {
        &&& self.first.accepts(req)
        &&& forall|r: Mid| self.first.answers(req, Ok(r)) ==> #[trigger] self.second.requires((r,))
    }

    open spec fn answers(&self, req: Req, res: Result<Res, S::Error>) -> bool {
        match res {
            Ok(m) => mapped(self.first, self.second, req, m),
            Err(e) => self.first.answers(req, Err(e)),
        }
    }

    fn call(&self, req: Req) -> (res: Result<Res, S::Error>) {
        match self.first.call(req) {
            Ok(r) => {
                let ghost given = r;
                let m = (self.second)(r);
                assert(self.first.answers(req, Ok(given)) && self.second.ensures((given,), m));
                Ok(m)
            },
            Err(e) => Err(e),
        }
    }
}

/// Whether `m` is what `second` makes of an error of `first` on `req`.
pub open spec fn mapped_err<S, Req, F, E, ErrMap>(first: S, second: F, req: Req, m: ErrMap) -> bool where
    S: Service<Req, Error = E>,
    F: Fn(E) -> ErrMap,
 {
    exists|e: E| first.answers(req, Err(e)) && #[trigger] second.ensures((e,), m)
}

impl<S, Req, F, E, ErrMap> Service<Req> for PipelineT<S, F, MappedErr> where
    S: Service<Req, Error = E>,
    F: Fn(E) -> ErrMap,
 {
    type Response = S::Response;

    type Error = ErrMap;

    open spec fn accepts(&self, req: Req) -> bool {
        &&& self.first.accepts(req)
        &&& forall|e: E| self.first.answers(req, Err(e)) ==> #[trigger] self.second.requires((e,))
    }

    open spec fn answers(&self, req: Req, res: Result<S::Response, ErrMap>) -> bool {
        match res {
            Ok(r) => self.first.answers(req, Ok(r)),
            Err(m) => mapped_err(self.first, self.second, req, m),
        }
    }

    fn call(&self, req: Req) -> (res: Result<S::Response, ErrMap>) {
        match self.first.call(req) {
            Ok(r) => Ok(r),
            Err(e) => {
                let ghost given = e;
                let m = (self.second)(e);
                assert(self.first.answers(req, Err(given)) && self.second.ensures((given,), m));
                Err(m)
            },
        }
    }
}

/// Whether `res` is an answer of `second` to a response of `first` to
/// `req`, or an error of `first`.
pub open spec fn chained<S1, S2, Req, Mid>(first: S1, second: S2, req: Req, res: Result<
    S2::Response,
    S1::Error,
>) -> bool where S1: Service<Req, Response = Mid>, S2: Service<Mid, Error = S1::Error> {
    ||| exists|mid: Mid| #[trigger] first.answers(req, Ok(mid)) && second.answers(mid, res)
    ||| res matches Err(e) && first.answers(req, Err(e))
}

impl<S1, S2, Req, Mid> Service<Req> for PipelineT<S1, S2, AndThen> where
    S1: Service<Req, Response = Mid>,
    S2: Service<Mid, Error = S1::Error>,
 {
    type Response = S2::Response;

    type Error = S1::Error;

    open spec fn accepts(&self, req: Req) -> bool {
        &&& self.first.accepts(req)
        &&& forall|mid: Mid| #[trigger]
            self.first.answers(req, Ok(mid)) ==> self.second.accepts(mid)
    }

    open spec fn answers(&self, req: Req, res: Result<S2::Response, S1::Error>) -> bool {
        chained(self.first, self.second, req, res)
    }

    fn call(&self, req: Req) -> (res: Result<S2::Response, S1::Error>) {
        match self.first.call(req) {
            Ok(mid) => {
                let ghost given = mid;
                let res = self.second.call(mid);
                assert(self.first.answers(req, Ok(given)) && self.second.answers(given, res));
                res
            },
            Err(e) => Err(e),
        }
    }
}

impl<S, Req, T, Res, E> Service<Req> for PipelineT<S, T, EnclosedFn> where
    T: Fn(&S, Req) -> Result<Res, E>,
 {
    type Response = Res;

    type Error = E;

    open spec fn accepts(&self, req: Req) -> bool {
        self.second.requires((&self.first, req))
    }

    open spec fn answers(&self, req: Req, res: Result<Res, E>) -> bool {
        self.second.ensures((&self.first, req), res)
    }

    fn call(&self, req: Req) -> (res: Result<Res, E>) {
        (self.second)(&self.first, req)
    }
}

} // verus!
