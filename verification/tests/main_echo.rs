use echoreq::multipart::{MultipartFieldValue, MultipartFields};
use echoreq::serialize::IncomingRequest;

fn request(method: &str, uri: &str, headers: &[(&str, &str)], body: &[u8]) -> IncomingRequest {
    IncomingRequest {
        method: method.as_bytes().to_vec(),
        uri: uri.as_bytes().to_vec(),
        headers: headers
            .iter()
            .map(|(k, v)| (k.as_bytes().to_vec(), v.as_bytes().to_vec()))
            .collect(),
        body: body.to_vec(),
    }
}

fn echo(req: &IncomingRequest) -> String {
    String::from_utf8(req.serialize()).unwrap()
}

const ADDR: &str = "127.0.0.1:9999";
const BOUNDARY: &str = "0011223344556677-8899aabbccddeeff-ffeeddccbbaa9988-7766554433221100";

#[test]
fn main_get() {
    let path = "/home";
    let req = request("GET", path, &[("accept", "*/*"), ("host", ADDR)], b"");
    let resp = echo(&req);
    assert_eq!(resp, format!("GET {path}\naccept: */*\nhost: {ADDR}\n\n"));
}

#[test]
fn main_post_simple() {
    let path = "/hello/name";
    let req = request(
        "POST",
        path,
        &[
            ("cookie", "tower.sid=abcd1234"),
            ("content-type", "application/x-www-form-urlencoded"),
            ("accept", "*/*"),
            ("host", ADDR),
            ("content-length", "27"),
        ],
        b"param1=value1&param2=value2",
    );
    let resp = echo(&req);
    assert_eq!(
        resp,
        format!(
            "POST {path}
cookie: tower.sid=abcd1234
content-type: application/x-www-form-urlencoded
accept: */*
host: {ADDR}
content-length: 27

param1=value1&param2=value2"
        )
    );
}

#[test]
fn main_post_json() {
    let path = "/echo/post/json";
    let req = request(
        "POST",
        path,
        &[
            ("content-type", "application/json"),
            ("accept", "*/*"),
            ("host", ADDR),
            ("content-length", "38"),
        ],
        b"{\"productId\": 123456, \"quantity\": 100}",
    );
    let resp = echo(&req);
    assert_eq!(
        resp,
        format!(
            "POST {path}
content-type: application/json
accept: */*
host: {ADDR}
content-length: 38

{{\"productId\": 123456, \"quantity\": 100}}"
        )
    );
}

#[test]
fn main_post_formdata_text() {
    let boundary = BOUNDARY;
    let fields = MultipartFields::new(vec![
        (b"title".to_vec(), MultipartFieldValue::Text(b"Cool story".to_vec())),
        (b"year".to_vec(), MultipartFieldValue::Text(b"2023".to_vec())),
        (
            b"thumb".to_vec(),
            MultipartFieldValue::File {
                filename: b"demo.txt".to_vec(),
                data: b"hi there\n\na file\n".to_vec(),
                content_type: b"text/plain".to_vec(),
            },
        ),
    ]);
    let body = fields.to_http(boundary.as_bytes());
    assert_eq!(body.len(), 513);

    let path = "/form-data/text";
    let req = request(
        "POST",
        path,
        &[
            (
                "content-type",
                &format!("multipart/form-data; boundary={boundary}"),
            ),
            ("content-length", "513"),
            ("accept", "*/*"),
            ("host", ADDR),
        ],
        &body,
    );
    let resp = echo(&req);
    assert_eq!(
        resp,
        format!(
            "POST {path}
content-type: multipart/form-data; boundary={boundary}
content-length: 513
accept: */*
host: {ADDR}

--{boundary}\r
Content-Disposition: form-data; name=\"title\"\r
\r
Cool story\r
--{boundary}\r
Content-Disposition: form-data; name=\"year\"\r
\r
2023\r
--{boundary}\r
Content-Disposition: form-data; name=\"thumb\"; filename=\"demo.txt\"\r
Content-Type: text/plain\r
\r
hi there

a file
\r
--{boundary}--\r
"
        )
    );
}
