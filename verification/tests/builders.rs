use h1_dispatcher::builder::{
    Compress, ExpectHandler, H1ServiceBuilder, H3Service, HttpFlow, HttpServiceBuilder,
    NoOpTlsAcceptorFactory, PathRef,
};
use h1_dispatcher::config::{HttpServiceConfig, DEFAULT_KEEP_ALIVE_MS};
use h1_dispatcher::error::{BodyError, HttpServiceError, IoKind};
use h1_dispatcher::message::{Request, Version};
use h1_dispatcher::service::{fn_service, BuildService, Service};

type Config = HttpServiceConfig<64, 1024, 2048>;

#[test]
fn config_defaults_and_changes() {
    let config = Config::new();
    assert!(config.vectored_write);
    assert_eq!(config.keep_alive_timeout, DEFAULT_KEEP_ALIVE_MS);
    assert_eq!(config.keep_alive_timeout, 5000);
    let config = config.disable_vectored_write().keep_alive_timeout(75);
    assert!(!config.vectored_write);
    assert_eq!(config.keep_alive_timeout, 75);
}

#[test]
fn h1_builder_exchanges_its_parts() {
    let builder = H1ServiceBuilder::<_, _, _, 64, 1024, 2048>::new("factory");
    assert_eq!(builder.factory, "factory");
    assert!(builder.config.vectored_write);
    assert_eq!(builder.config.keep_alive_timeout, 5000);
    let builder = builder.config(Config::new().keep_alive_timeout(9));
    assert_eq!(builder.config.keep_alive_timeout, 9);
    let builder = builder.expect(17u8);
    assert_eq!(builder.expect, 17);
    assert_eq!(builder.factory, "factory");
    let tls = builder.openssl("acceptor");
    assert_eq!(tls.tls_factory.acceptor, "acceptor");
    assert_eq!(tls.expect, 17);
    assert_eq!(tls.config.keep_alive_timeout, 9);
    let tls = tls.rustls(3u16);
    assert_eq!(tls.tls_factory.config, 3);
    assert_eq!(tls.factory, "factory");
    let plain = H1ServiceBuilder::<_, _, _, 64, 1024, 2048>::with_config(
        1u8,
        Config::new().disable_vectored_write(),
    );
    assert_eq!(plain.factory, 1);
    assert!(!plain.config.vectored_write);
}

#[test]
fn http_builder_exchanges_its_acceptor() {
    let builder =
        HttpServiceBuilder::<_, _, u8, _, 64, 1024, 2048>::h1("factory", Config::new());
    assert!(builder.upgrade.is_none());
    let builder = builder.openssl(1u8);
    assert_eq!(builder.tls_factory.acceptor, 1);
    let builder = builder.rustls(2u8);
    assert_eq!(builder.tls_factory.config, 2);
    let builder = builder.native_tls(3u8);
    assert_eq!(builder.tls_factory.acceptor, 3);
    assert_eq!(builder.factory, "factory");
    assert!(builder.upgrade.is_none());
    assert_eq!(builder.config.keep_alive_timeout, 5000);
}

#[test]
fn default_handlers_hand_on_unchanged() {
    let req = Request {
        method: b"GET".to_vec(),
        uri: b"/".to_vec(),
        version: Version::Http11,
        headers: Vec::new(),
        body: 5u8,
    };
    let req = ExpectHandler::new().call(req);
    assert_eq!(req.method, b"GET");
    assert_eq!(req.body, 5);
    let req = req.map_body("body");
    assert_eq!(req.uri, b"/");
    assert_eq!(req.body, "body");
    assert_eq!(NoOpTlsAcceptorFactory.call(9u8), 9);
}

#[test]
fn h3_service_has_no_expect_and_no_upgrade() {
    let service = H3Service::new("service");
    assert_eq!(service.flow.service, "service");
    assert_eq!(service.flow.expect, ());
    assert!(service.flow.upgrade.is_none());
    let flow = HttpFlow::new(1u8, 2u8, Some(3u8));
    assert_eq!((flow.service, flow.expect, flow.upgrade), (1, 2, Some(3)));
}

#[test]
fn path_ref_and_compress() {
    let path = PathRef("/a/b");
    assert_eq!(&*path, "/a/b");
    assert!(path.starts_with("/a"));
    assert_eq!(path.0.len(), 4);
    let service = Compress.build(11u8).unwrap();
    assert_eq!(service.service, 11);
}

#[test]
fn errors_convert_upwards() {
    let body = BodyError::from(IoKind::WriteZero);
    assert_eq!(body, BodyError::Io(IoKind::WriteZero));
    let service: HttpServiceError<()> = body.into();
    assert!(matches!(service, HttpServiceError::Body(BodyError::Io(IoKind::WriteZero))));
}

#[test]
fn builders_build_their_services() {
    let builder = H1ServiceBuilder::<_, _, _, 64, 1024, 2048>::with_config(
        fn_service(|n: u8| Ok::<u8, ()>(n + 1)),
        Config::new().keep_alive_timeout(7),
    );
    let service = builder.build(()).unwrap();
    assert_eq!(service.config.keep_alive_timeout, 7);
    assert_eq!(service.service.call(1), Ok(2));
    assert!(service.upgrade.is_none());
    assert_eq!(service.tls_acceptor.call(5u8), 5);

    let builder = HttpServiceBuilder::<_, _, ExpectHandler, _, 64, 1024, 2048>::h1(
        fn_service(|n: u8| Ok::<u8, ()>(n + 2)),
        Config::new(),
    );
    let service = builder.build(()).unwrap();
    assert_eq!(service.service.call(1), Ok(3));
    assert!(service.upgrade.is_none());
}
