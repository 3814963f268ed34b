use static_web_server::browser::IpAddress;
use static_web_server::log_addr::pre_process;

#[test]
fn proxy_headers_are_read_from_trusted_proxies_only() {
    let proxy = IpAddress::V4(10, 0, 0, 1);
    let other = IpAddress::V4(10, 0, 0, 2);
    let r = pre_process(true, true, true, &[proxy], false, Some(proxy), Some(" 9.9.9.9 "), Some(" 1.2.3.4 , 5.6.7.8"), "/");
    assert_eq!(r.remote_ip, Some(proxy));
    assert_eq!(r.x_real_ip.as_deref(), Some("9.9.9.9"));
    assert_eq!(r.forwarded_for.as_deref(), Some("1.2.3.4"));
    assert!(!r.debug_only);
    let r = pre_process(false, true, true, &[proxy], false, Some(other), Some("9.9.9.9"), Some("1.2.3.4"), "/");
    assert_eq!(r.remote_ip, None);
    assert_eq!(r.x_real_ip, None);
    assert_eq!(r.forwarded_for, None);
}

#[test]
fn without_trusted_proxies_every_request_is_trusted() {
    let r = pre_process(true, false, true, &[], true, None, None, Some("1.2.3.4"), "/health");
    assert_eq!(r.forwarded_for.as_deref(), Some("1.2.3.4"));
    assert_eq!(r.x_real_ip, None);
    assert!(r.debug_only);
}
