use tokio::net::TcpListener;

use transport::addr::parse_v4;
use transport::errors::{BindError, ErrorKind};

fn runtime() -> tokio::runtime::Runtime {
    tokio::runtime::Builder::new_multi_thread()
        .worker_threads(2)
        .enable_all()
        .build()
        .unwrap()
}

fn kind_of(e: &std::io::Error) -> ErrorKind {
    match e.kind() {
        std::io::ErrorKind::AddrInUse => ErrorKind::AddrInUse,
        std::io::ErrorKind::ConnectionRefused => ErrorKind::ConnectionRefused,
        _ => ErrorKind::Other,
    }
}

#[test]
fn ephemeral_bind_reports_concrete_port() {
    runtime().block_on(async {
        let listener = TcpListener::bind("127.0.0.1:0").await.unwrap();
        let sa = listener.local_addr().unwrap();
        assert_ne!(sa.port(), 0);
        let text = sa.to_string();
        let a = parse_v4(text.as_bytes()).expect("the socket reports canonical text");
        assert_eq!(a.port(), sa.port());
        assert_eq!(a.render_v4().unwrap(), text.into_bytes());
    });
}

#[test]
fn double_bind_is_addr_in_use() {
    runtime().block_on(async {
        let first = TcpListener::bind("127.0.0.1:0").await.unwrap();
        let addr = first.local_addr().unwrap();
        let err = TcpListener::bind(addr).await.expect_err("the address is taken");
        let e = BindError::new(kind_of(&err), err.raw_os_error());
        assert!(e.is_addr_in_use());
    });
}
