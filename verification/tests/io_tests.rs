use shared_scheduler::hexdump::hexdump;
use shared_scheduler::http::{classify_tcp_request, get_url_from_tcp_request, http_response, reply_for_url, HttpReply};
use shared_scheduler::syscall::{
    read_request, split_cid, sys_coroutine_create, sys_getcid, sys_read, sys_write, sys_yield, sys_yield_coroutine,
    write_request,
};

#[test]
fn syscall_requests() {
    let r = sys_coroutine_create(0x1000, 7);
    assert_eq!((r.id, r.args), (4000, [0x1000, 7, 0]));
    let r = sys_yield();
    assert_eq!((r.id, r.args), (124, [0, 0, 0]));
    let r = sys_yield_coroutine();
    assert_eq!((r.id, r.args), (4010, [0, 0, 0]));
    let buf = [1u8, 2, 3];
    let r = sys_write(1, &buf);
    assert_eq!((r.id, r.args[0], r.args[1], r.args[2]), (64, 1, buf.as_ptr() as usize, 3));
    let mut rbuf = [0u8; 5];
    let addr = rbuf.as_ptr() as usize;
    let r = sys_read(0, &mut rbuf);
    assert_eq!((r.id, r.args[0], r.args[1], r.args[2]), (63, 0, addr, 5));
}

#[test]
fn getcid_round_trip() {
    let id = sys_getcid(5);
    assert_eq!(id, 5 << 20);
    assert_eq!(split_cid(id), (5, 0, 0));
    assert_eq!(split_cid((3 << 20) | (2 << 10) | 1), (3, 2, 1));
}

#[test]
fn url_of_request_line() {
    assert_eq!(get_url_from_tcp_request(b"GET /close HTTP/1.1\r\n"), "/close");
    assert_eq!(get_url_from_tcp_request(b"GET / HTTP/1.1"), "/");
    assert_eq!(get_url_from_tcp_request(b"GET  x"), "");
    assert_eq!(get_url_from_tcp_request(b"GET /a\xffb HTTP"), "/a\u{FFFD}b");
}

#[test]
fn classify_requests() {
    let mut buf = vec![0u8; 1024];
    buf[..20].copy_from_slice(b"GET /close HTTP/1.1 ");
    assert_eq!(classify_tcp_request(&buf, 20), HttpReply::Close);
    assert_eq!(classify_tcp_request(&buf, 3), HttpReply::NotHttp);
    buf[..16].copy_from_slice(b"GET /index HTTP ");
    assert_eq!(classify_tcp_request(&buf, 16), HttpReply::Page);
    buf[..4].copy_from_slice(b"POST");
    assert_eq!(classify_tcp_request(&buf, 16), HttpReply::NotHttp);
    assert_eq!(reply_for_url(&"/close".to_string()), HttpReply::Close);
    assert_eq!(reply_for_url(&"/closed".to_string()), HttpReply::Page);
}

/// The dump as a printing loop with the standard formats lays it out.
fn printed_dump(data: &[u8]) -> String {
    let mut s = String::new();
    s += &format!("{:-^1$}\n", " hexdump ", 70);
    for offset in (0..data.len()).step_by(16) {
        for i in 0..16 {
            if offset + i < data.len() {
                s += &format!("{:02x} ", data[offset + i]);
            } else {
                s += &format!("{:02} ", "");
            }
        }
        s += &format!("{:>6}", ' ');
        for i in 0..16 {
            if offset + i < data.len() {
                let c = data[offset + i];
                if c >= 0x20 && c <= 0x7e {
                    s.push(c as char);
                } else {
                    s.push('.');
                }
            } else {
                s += &format!("{:02} ", "");
            }
        }
        s += "\n";
    }
    s += &format!("{:-^1$}\n", " hexdump end ", 70);
    s
}

#[test]
fn hexdump_matches_printed_format() {
    for data in [&b""[..], &b"A\x00"[..], &b"GET / HTTP/1.1\r\nHost: x\r\n"[..], &[0x7fu8, 0x20, 0x7e, 0xff][..]] {
        let text = String::from_utf8(hexdump(data)).unwrap();
        assert_eq!(text, printed_dump(data));
    }
}

#[test]
fn hexdump_exact_small() {
    let text = String::from_utf8(hexdump(b"A\x00")).unwrap();
    let mut expected = String::new();
    expected += &"-".repeat(30);
    expected += " hexdump ";
    expected += &"-".repeat(31);
    expected += "\n41 00 ";
    expected += &"   ".repeat(14);
    expected += "      A.";
    expected += &"   ".repeat(14);
    expected += "\n";
    expected += &"-".repeat(28);
    expected += " hexdump end ";
    expected += &"-".repeat(29);
    expected += "\n";
    assert_eq!(text, expected);
}

#[test]
fn http_response_frames_the_page() {
    let r = http_response("abc");
    assert_eq!(
        r,
        b"HTTP/1.1 200 OK\r\nContent-Type: text/html\r\nContent-Length: 3\r\nConnecion: Close\r\n\r\nabc".to_vec()
    );
}

#[test]
fn http_response_counts_bytes_not_characters() {
    let page = "x".repeat(1234) + "\u{e9}";
    let r = http_response(&page);
    let head = b"HTTP/1.1 200 OK\r\nContent-Type: text/html\r\nContent-Length: 1236\r\nConnecion: Close\r\n\r\n";
    assert_eq!(&r[..head.len()], &head[..]);
    assert_eq!(&r[head.len()..], page.as_bytes());
    let empty = http_response("");
    assert!(empty.ends_with(b"Content-Length: 0\r\nConnecion: Close\r\n\r\n"));
}

#[test]
fn read_and_write_requests_carry_their_arguments() {
    let r = read_request(3, 0x8000_1000, 512);
    assert_eq!((r.id, r.args), (63, [3, 0x8000_1000, 512]));
    let w = write_request(1, 0x2000, 7);
    assert_eq!((w.id, w.args), (64, [1, 0x2000, 7]));
}
