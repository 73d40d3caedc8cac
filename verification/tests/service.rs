use h1_dispatcher::service::{fn_service, BuildService, BuildServiceExt, Service};

#[derive(Clone)]
struct DummyMiddleware;

#[derive(Clone)]
struct DummyMiddlewareService<S: Clone>(S);

impl<S: Clone> BuildService<S> for DummyMiddleware {
    type Service = DummyMiddlewareService<S>;
    type Error = ();

    fn builds(&self, _: S, res: Result<Self::Service, Self::Error>) -> bool {
        res.is_ok()
    }

    fn build(&self, service: S) -> Result<Self::Service, Self::Error> {
        Ok(DummyMiddlewareService(service))
    }
}

impl<S, Req> Service<Req> for DummyMiddlewareService<S>
where
    S: Service<Req> + Clone,
{
    type Response = S::Response;
    type Error = S::Error;

    fn accepts(&self, req: Req) -> bool {
        self.0.accepts(req)
    }

    fn answers(&self, req: Req, res: Result<Self::Response, Self::Error>) -> bool {
        self.0.answers(req, res)
    }

    fn call(&self, req: Req) -> Result<Self::Response, Self::Error> {
        self.0.call(req)
    }
}

fn index(s: &'static str) -> Result<&'static str, ()> {
    Ok(s)
}

#[test]
fn enclosed_middleware() {
    let service = fn_service(index).enclosed(DummyMiddleware).build(()).unwrap();

    let res = service.call("996").unwrap();
    assert_eq!(res, "996");
}

#[test]
fn map() {
    let service = fn_service(index).map(|_: &'static str| "251").build(()).unwrap();

    let err = service.call("996").ok().unwrap();
    assert_eq!(err, "251");
}

#[test]
fn map_err() {
    let service = fn_service(|_: &str| Err::<(), _>(()))
        .map_err(|_: ()| "251")
        .build(())
        .unwrap();

    let err = service.call("996").err().unwrap();
    assert_eq!(err, "251");
}

#[test]
fn enclosed_fn() {
    fn enclosed<S>(service: &S, req: &'static str) -> Result<&'static str, ()>
    where
        S: Service<&'static str, Response = &'static str, Error = ()>,
    {
        let res = service.call(req)?;
        assert_eq!(res, "996");
        Ok("251")
    }

    let res = fn_service(index)
        .enclosed_fn(enclosed)
        .build(())
        .unwrap()
        .call("996")
        .ok()
        .unwrap();

    assert_eq!(res, "251");
}

#[test]
fn and_then() {
    let first = fn_service(|n: u8| Ok::<u16, ()>(n as u16 * 100));
    let second = fn_service(|n: u16| if n > 1000 { Err(()) } else { Ok(n + 1) });
    let service = first.and_then(second).build(()).unwrap();
    assert_eq!(service.call(3), Ok(301));
    assert_eq!(service.call(30), Err(()));
}
