//! Whether a proxy is one a task can go through.
use std::cell::RefCell;
use std::collections::VecDeque;
use std::rc::Rc;

use mars_stn::config::{LONGLINK_CONN_INTERVAL_MS, LONGLINK_CONN_TIMEOUT_MS};
use mars_stn::proxy_test::{Heard, ProxyHost, ProxyTest, TestAddress, Verdict, ETIMEDOUT, TEST_PORT};
use mars_stn::task_profile::{ProxyInfo, ProxyType};

/// What the host was asked for, and what it answers with.
#[derive(Default)]
struct Seen {
    addresses: Vec<Vec<TestAddress>>,
    proxies: Vec<ProxyInfo>,
    timeouts: Vec<(u32, u32)>,
    sent: Vec<String>,
    closed: Vec<i64>,
    fail_connect: bool,
    fail_send: Option<i32>,
    broken: bool,
}

type Log = Rc<RefCell<Seen>>;

/// The host's sockets, its dns, and a parser of answers that looks at the first
/// line, the length field and the end of the head.
struct Host {
    seen: Log,
    next: i64,
    answer: String,
    /// What is left to read.
    reads: VecDeque<Result<Vec<u8>, i32>>,
}

fn base64(bytes: &[u8]) -> String {
    const DIGITS: &[u8; 64] = b"ABCDEFGHIJKLMNOPQRSTUVWXYZabcdefghijklmnopqrstuvwxyz0123456789+/";
    let mut text = String::new();
    for chunk in bytes.chunks(3) {
        let mut word = 0u32;
        for at in 0..3 {
            word = (word << 8) | u32::from(*chunk.get(at).unwrap_or(&0));
        }
        for at in 0..4 {
            if at <= chunk.len() {
                text.push(char::from(DIGITS[(word >> (18 - 6 * at)) as usize & 63]));
            } else {
                text.push('=');
            }
        }
    }
    text
}

impl ProxyHost for Host {
    fn dns(&mut self, host: &str) -> Vec<String> {
        match host {
            "short.weixin.qq.com" => vec!["183.3.226.35".to_string()],
            "proxy.example" => vec!["10.0.0.1".to_string()],
            _ => Vec::new(),
        }
    }

    fn set_ip_connection_timeout(&mut self, v4_timeout_ms: u32, v6_timeout_ms: u32) {
        self.seen
            .borrow_mut()
            .timeouts
            .push((v4_timeout_ms, v6_timeout_ms));
    }

    fn connect(&mut self, addresses: &Vec<TestAddress>, proxy: &ProxyInfo) -> Option<i64> {
        let mut seen = self.seen.borrow_mut();
        seen.addresses.push(addresses.clone());
        seen.proxies.push(proxy.clone());
        if seen.fail_connect {
            return None;
        }
        let socket = self.next;
        self.next += 1;
        Some(socket)
    }

    fn authorization(&mut self, proxy: &ProxyInfo) -> Option<String> {
        if proxy.kind == ProxyType::Http && !proxy.username.is_empty() {
            let account = format!("{}:{}", proxy.username, proxy.password);
            Some(format!("Basic {}", base64(account.as_bytes())))
        } else {
            None
        }
    }

    fn send(&mut self, _socket: i64, request: &str) -> Result<usize, i32> {
        let mut seen = self.seen.borrow_mut();
        seen.sent.push(request.to_string());
        match seen.fail_send {
            Some(code) => Err(code),
            None => Ok(request.len()),
        }
    }

    fn is_broken(&mut self) -> bool {
        self.seen.borrow().broken
    }

    fn new_answer(&mut self) {
        self.answer.clear();
    }

    fn recv(&mut self, _socket: i64) -> Option<Result<Vec<u8>, i32>> {
        self.reads.pop_front()
    }

    fn feed(&mut self, bytes: &Vec<u8>) -> Heard {
        self.answer.push_str(&String::from_utf8_lossy(bytes));
        let Some(line_end) = self.answer.find("\r\n") else {
            return Heard {
                status: None,
                over: false,
            };
        };
        let status = self.answer[..line_end]
            .strip_prefix("HTTP/1.1 ")
            .and_then(|rest| rest.split(' ').next())
            .and_then(|code| code.parse::<i32>().ok());
        if status.is_none() {
            return Heard {
                status: None,
                over: true,
            };
        }
        let over = match self.answer.find("\r\n\r\n") {
            None => false,
            Some(head_end) => {
                let length = self.answer[..head_end]
                    .lines()
                    .find_map(|line| line.strip_prefix("Content-Length: "))
                    .and_then(|length| length.parse::<usize>().ok())
                    .unwrap_or(0);
                self.answer.len() >= head_end + 4 + length
            }
        };
        Heard { status, over }
    }

    fn close(&mut self, socket: i64) {
        self.seen.borrow_mut().closed.push(socket);
    }
}

fn test() -> (ProxyTest<Host>, Log) {
    let seen = Log::default();
    let host = Host {
        seen: Rc::clone(&seen),
        next: 3,
        answer: String::new(),
        reads: VecDeque::new(),
    };
    (ProxyTest::new(host), seen)
}

/// One test, with what there is to read.
fn run(
    test: &mut ProxyTest<Host>,
    proxy: &ProxyInfo,
    host: &str,
    hardcode_ips: &Vec<String>,
    reads: &[Result<Vec<u8>, i32>],
) -> Verdict {
    test.host.reads = reads.iter().cloned().collect();
    test.test(proxy, host, hardcode_ips)
}

/// Whether a task can go through the proxy, with what there is to read.
fn available(
    test: &mut ProxyTest<Host>,
    proxy: &ProxyInfo,
    host: &str,
    hardcode_ips: &Vec<String>,
    reads: &[Result<Vec<u8>, i32>],
) -> bool {
    test.host.reads = reads.iter().cloned().collect();
    test.is_available(proxy, host, hardcode_ips)
}

/// A proxy; one that does not say where it is is not one.
fn proxy(kind: ProxyType, host: &str, ip: &str, port: u16, user: &str, pass: &str) -> ProxyInfo {
    ProxyInfo {
        kind,
        host: host.to_string(),
        ip: ip.to_string(),
        port,
        username: user.to_string(),
        password: pass.to_string(),
        valid: port != 0 && !(host.is_empty() && ip.is_empty()),
    }
}

/// An http proxy on its own ip.
fn http_proxy() -> ProxyInfo {
    proxy(ProxyType::Http, "", "10.0.0.1", 8080, "", "")
}

const HOST: &str = "short.weixin.qq.com";

/// The reads of one answer, which is the whole of it.
fn answer(status: i32) -> Vec<Result<Vec<u8>, i32>> {
    vec![Ok(format!(
        "HTTP/1.1 {status} OK\r\nContent-Length: 0\r\n\r\n"
    )
    .into_bytes())]
}

fn reads_of(chunks: &[&str]) -> Vec<Result<Vec<u8>, i32>> {
    chunks
        .iter()
        .map(|chunk| Ok(chunk.as_bytes().to_vec()))
        .collect()
}

#[test]
fn a_proxy_that_is_not_one_is_not_available() {
    let (mut test, seen) = test();
    // an http proxy that does not say where it is
    let nowhere = proxy(ProxyType::Http, "", "", 0, "", "");
    let verdict = run(&mut test, &nowhere, HOST, &vec![], &answer(200));
    assert_eq!(verdict, Verdict::Failed);
    assert!(!verdict.is_available());
    assert_eq!(verdict.status(), None);
    assert!(seen.borrow().addresses.is_empty(), "no connect at all");
}

#[test]
fn a_host_with_no_hardcode_ips_to_fall_back_on_is_not_available() {
    let (mut test, seen) = test();
    let verdict = run(&mut test, &http_proxy(), "", &vec![], &answer(200));
    assert_eq!(verdict, Verdict::Failed);
    assert!(seen.borrow().addresses.is_empty());

    // a hardcode ip is enough, even with no host to resolve
    let hardcode = vec!["183.3.226.35".to_string()];
    let verdict = run(&mut test, &http_proxy(), "", &hardcode, &answer(200));
    assert_eq!(verdict, Verdict::Status(200));
    assert!(verdict.is_available());
}

#[test]
fn an_http_proxy_is_one_the_test_connects_to() {
    let (mut test, seen) = test();
    run(&mut test, &http_proxy(), HOST, &vec![], &answer(200));

    let seen = seen.borrow();
    assert_eq!(seen.addresses.len(), 1, "one connect, on the proxy itself");
    assert_eq!(seen.addresses[0].len(), 1, "and one address in it");
    let address = &seen.addresses[0][0];
    assert_eq!(address.ip, "10.0.0.1");
    assert_eq!(address.port, 8080);
    // and the proxy is the one the operator is told to go through
    assert_eq!(seen.proxies[0], http_proxy());
}

#[test]
fn a_proxy_named_by_host_is_the_one_dns_named() {
    let (mut test, seen) = test();
    let by_host = proxy(ProxyType::Http, "proxy.example", "", 8080, "", "");
    run(&mut test, &by_host, HOST, &vec![], &answer(200));

    let seen = seen.borrow();
    assert_eq!(seen.addresses[0][0].ip, "10.0.0.1", "what dns answered");
    assert_eq!(
        seen.proxies[0],
        ProxyInfo {
            ip: "10.0.0.1".to_string(),
            ..by_host
        },
        "the operator is given the ip, not the host"
    );
}

#[test]
fn a_proxy_host_dns_could_not_name_is_no_socket() {
    let (mut test, seen) = test();
    let unknown = proxy(ProxyType::Http, "unknown.example", "", 8080, "", "");
    let verdict = run(&mut test, &unknown, HOST, &vec![], &answer(200));
    assert_eq!(verdict, Verdict::Failed);
    assert!(seen.borrow().addresses.is_empty());
    assert!(seen.borrow().sent.is_empty(), "nothing went out either");
}

#[test]
fn a_tunnel_proxy_is_one_the_test_connects_through() {
    let (mut test, seen) = test();
    let tunnel = proxy(ProxyType::Socks5, "", "10.0.0.1", 1080, "mars", "secret");
    run(&mut test, &tunnel, HOST, &vec![], &answer(200));

    let seen = seen.borrow();
    assert_eq!(seen.addresses.len(), 1);
    // the host under test, on the test port, and not mapped onto the local
    // stack, which only a connect with no proxy in it is
    assert_eq!(seen.addresses[0][0].ip, "183.3.226.35");
    assert_eq!(seen.addresses[0][0].port, TEST_PORT);
    assert!(
        !seen.addresses[0][0].mapped,
        "a proxy is reached at the address it is"
    );
    assert_eq!(seen.proxies[0], tunnel, "and the proxy goes with it");
}

#[test]
fn no_proxy_is_a_connect_to_the_host_on_the_test_port() {
    let (mut test, seen) = test();
    run(&mut test, &ProxyInfo::none(), HOST, &vec![], &answer(200));

    let seen = seen.borrow();
    assert_eq!(seen.addresses[0][0].ip, "183.3.226.35");
    assert_eq!(seen.addresses[0][0].port, TEST_PORT);
    assert_eq!(seen.proxies[0], ProxyInfo::none(), "no proxy to go through");
}

#[test]
fn a_host_dns_could_not_name_is_the_hardcode_ips() {
    let (mut test, seen) = test();
    let hardcode = vec!["183.3.226.36".to_string(), "183.3.226.37".to_string()];
    run(&mut test, &ProxyInfo::none(), "unknown.example", &hardcode, &answer(200));

    let seen = seen.borrow();
    assert_eq!(seen.addresses[0].len(), 2, "both of them, in the order given");
    assert_eq!(seen.addresses[0][0].ip, "183.3.226.36");
    assert_eq!(seen.addresses[0][1].ip, "183.3.226.37");
}

#[test]
fn a_host_dns_could_not_name_and_no_hardcode_ips_is_no_socket() {
    let (mut test, seen) = test();
    let verdict = run(&mut test, &ProxyInfo::none(), "unknown.example", &vec![], &answer(200));
    assert_eq!(verdict, Verdict::Failed);
    assert!(seen.borrow().addresses.is_empty());
}

#[test]
fn the_addresses_with_no_proxy_are_mapped_onto_the_local_stack() {
    let (mut test, seen) = test();
    run(&mut test, &ProxyInfo::none(), HOST, &vec![], &answer(200));
    assert!(
        seen.borrow().addresses[0][0].mapped,
        "an address mapped onto what the network carries"
    );
}

#[test]
fn an_answer_of_two_hundred_is_available() {
    let (mut test, _seen) = test();
    let verdict = run(&mut test, &http_proxy(), HOST, &vec![], &answer(200));
    assert_eq!(verdict, Verdict::Status(200));
    assert!(verdict.is_available());
    assert_eq!(verdict.status(), Some(200));
}

#[test]
fn the_statuses_the_cpp_calls_available() {
    let available = [200, 497, 301, 302, 307, 399];
    for status in available {
        assert!(
            Verdict::Status(status).is_available(),
            "{status} is one that makes a proxy available"
        );
    }
    for status in [100, 204, 300, 400, 404, 500] {
        assert!(!Verdict::Status(status).is_available(), "{status} is not");
    }
    assert!(!Verdict::Failed.is_available());
}

#[test]
fn an_answer_that_came_in_two_reads_is_whole_on_the_second() {
    let (mut test, _seen) = test();
    let reads = reads_of(&["HTTP/1.1 200 OK\r\nContent-Length: 5\r\n\r\nhel", "lo"]);
    let verdict = run(&mut test, &http_proxy(), HOST, &vec![], &reads);
    assert_eq!(verdict, Verdict::Status(200));
}

#[test]
fn a_read_that_timed_out_is_read_again() {
    let (mut test, _seen) = test();
    let mut reads = vec![Err(ETIMEDOUT), Err(ETIMEDOUT)];
    reads.extend(answer(200));
    let verdict = run(&mut test, &http_proxy(), HOST, &vec![], &reads);
    assert_eq!(verdict, Verdict::Status(200));
}

#[test]
fn a_read_that_failed_is_no_answer() {
    let (mut test, _seen) = test();
    // a platform's own word for it, which is not a timeout
    let reads = vec![Err(104)];
    let verdict = run(&mut test, &http_proxy(), HOST, &vec![], &reads);
    assert_eq!(verdict, Verdict::Failed);
}

#[test]
fn a_socket_that_hung_up_is_no_answer() {
    let (mut test, _seen) = test();
    let verdict = run(&mut test, &http_proxy(), HOST, &vec![], &vec![Ok(Vec::new())]);
    assert_eq!(verdict, Verdict::Failed);
}

#[test]
fn a_first_line_and_then_a_socket_that_hung_up_is_the_status_it_read() {
    let (mut test, _seen) = test();
    // the status is there as soon as the first line is whole, and stays when
    // the read that follows brings nothing
    let reads = reads_of(&["HTTP/1.1 302 Found\r\n", ""]);
    let verdict = run(&mut test, &http_proxy(), HOST, &vec![], &reads);
    assert_eq!(verdict, Verdict::Status(302));
    assert!(verdict.is_available());
}

#[test]
fn an_answer_that_is_not_one_is_no_answer() {
    let (mut test, _seen) = test();
    let reads = reads_of(&["not an answer at all\r\n\r\n"]);
    let verdict = run(&mut test, &http_proxy(), HOST, &vec![], &reads);
    assert_eq!(verdict, Verdict::Failed, "not a status line, so no status");
}

#[test]
fn a_socket_that_hung_up_before_the_head_ended_is_the_status_it_read() {
    let (mut test, _seen) = test();
    // a first line that came whole, and a head that never did
    let reads = reads_of(&["HTTP/1.1 200 OK\r\nContent-Length: 5", ""]);
    let verdict = run(&mut test, &http_proxy(), HOST, &vec![], &reads);
    assert_eq!(verdict, Verdict::Status(200));
    assert!(verdict.is_available());
}

#[test]
fn a_write_that_did_not_go_out_is_not_available() {
    let (mut test, seen) = test();
    seen.borrow_mut().fail_send = Some(9);
    let verdict = run(&mut test, &http_proxy(), HOST, &vec![], &answer(200));
    assert_eq!(verdict, Verdict::Failed);
    assert_eq!(
        seen.borrow().closed.len(),
        1,
        "the socket is closed whatever became of the write"
    );
}

#[test]
fn a_connect_that_failed_is_not_available() {
    let (mut test, seen) = test();
    seen.borrow_mut().fail_connect = true;
    let verdict = run(&mut test, &http_proxy(), HOST, &vec![], &answer(200));
    assert_eq!(verdict, Verdict::Failed);
    assert!(seen.borrow().sent.is_empty(), "nothing goes out on no socket");
    assert!(seen.borrow().closed.is_empty());
}

#[test]
fn a_test_the_app_broke_off_is_not_available() {
    let (mut test, seen) = test();
    seen.borrow_mut().broken = true;
    let verdict = run(&mut test, &http_proxy(), HOST, &vec![], &answer(200));
    assert_eq!(verdict, Verdict::Failed);
    assert_eq!(seen.borrow().closed.len(), 1, "and the socket is closed");
}

#[test]
fn the_socket_is_closed_when_the_test_is_over() {
    let (mut test, seen) = test();
    run(&mut test, &http_proxy(), HOST, &vec![], &answer(200));
    assert_eq!(seen.borrow().closed, vec![3]);
}

#[test]
fn the_request_is_a_get_of_the_whole_url_through_an_http_proxy() {
    let (mut test, seen) = test();
    run(&mut test, &http_proxy(), HOST, &vec![], &answer(200));
    assert_eq!(
        seen.borrow().sent[0],
        "GET http://short.weixin.qq.com/ HTTP/1.1\r\n\
         Accept: */*\r\n\
         User-Agent: MicroMessenger Client\r\n\
         Cache-Control: no-cache\r\n\
         Connection: close\r\n\
         Host: short.weixin.qq.com\r\n\
         \r\n"
    );
}

#[test]
fn the_request_is_a_get_of_the_root_when_there_is_no_proxy() {
    let (mut test, seen) = test();
    run(&mut test, &ProxyInfo::none(), HOST, &vec![], &answer(200));
    let request = seen.borrow().sent[0].clone();
    assert!(
        request.starts_with("GET / HTTP/1.1\r\n"),
        "the path and nothing else: {request}"
    );
    assert!(request.contains("Host: short.weixin.qq.com\r\n"));
}

#[test]
fn an_http_proxy_with_an_account_is_logged_in_with() {
    let (mut test, seen) = test();
    let account = proxy(ProxyType::Http, "", "10.0.0.1", 8080, "mars", "secret");
    run(&mut test, &account, HOST, &vec![], &answer(200));
    assert!(
        seen.borrow().sent[0].contains("Proxy-Authorization: Basic bWFyczpzZWNyZXQ=\r\n"),
        "the account in base64"
    );
}

#[test]
fn a_proxy_that_is_not_an_http_one_is_not_logged_in_with() {
    // even with an account to log in with
    let (mut test, seen) = test();
    let account = proxy(ProxyType::Socks5, "", "10.0.0.1", 1080, "mars", "secret");
    run(&mut test, &account, HOST, &vec![], &answer(200));
    assert!(!seen.borrow().sent[0].contains("Proxy-Authorization"));
}

#[test]
fn the_connect_is_the_long_link_s() {
    let (mut test, seen) = test();
    run(&mut test, &http_proxy(), HOST, &vec![], &answer(200));
    assert_eq!(
        seen.borrow().timeouts,
        vec![(LONGLINK_CONN_TIMEOUT_MS, LONGLINK_CONN_INTERVAL_MS)]
    );
}

#[test]
fn a_test_with_no_operator_is_not_one_that_ran() {
    // no sockets is a connect that fails
    let (mut test, seen) = test();
    seen.borrow_mut().fail_connect = true;
    let verdict = run(&mut test, &http_proxy(), HOST, &vec![], &answer(200));
    assert_eq!(verdict, Verdict::Failed, "no sockets to do it on");
}

#[test]
fn a_test_that_ran_keeps_asking_the_same_question() {
    let (mut test, seen) = test();
    // the same test twice: the second one is its own connect, its own `GET` and
    // its own socket
    let reads = answer(200);
    run(&mut test, &http_proxy(), HOST, &vec![], &reads);
    assert!(available(&mut test, &http_proxy(), HOST, &vec![], &reads));
    assert_eq!(seen.borrow().sent.len(), 2);
    assert_eq!(seen.borrow().closed, vec![3, 4]);
}
