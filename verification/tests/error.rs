use proxy_forward::error::Error;

#[test]
fn messages_name_what_went_wrong() {
    assert_eq!(Error::Arguments { usage: "Usage: -f".to_string() }.message(), "Usage: -f");
    assert_eq!(
        Error::Argument { input: "a@b@c".to_string() }.message(),
        "Could not parse forwarder input: a@b@c"
    );
    assert_eq!(
        Error::AddressParse { input: "nowhere:1".to_string() }.message(),
        "Could not parse bind address: nowhere:1"
    );
    assert_eq!(
        Error::Bind { addr: "127.0.0.1:80".to_string() }.message(),
        "Could not bind to address: 127.0.0.1:80"
    );
    assert_eq!(Error::ThreadStart.message(), "Could not start thread (OS problem?)");
    assert_eq!(
        Error::Listen { cause: "too many open files".to_string() }.message(),
        "Could not listen to connections: too many open files"
    );
    assert_eq!(Error::ChannelCancelled.message(), "Shutdown channel was cancelled");
    assert_eq!(
        Error::ProxyHeaderFailed { cause: "early eof".to_string() }.message(),
        "Could not read PROXY header: early eof"
    );
    assert_eq!(Error::FamilyMix.message(), "Attempted to mix IPv4 and IPv6");
}
