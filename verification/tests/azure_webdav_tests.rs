use base64::Engine;
use hmac::Mac;
use cloud_sync::azure::{blobs_from_events, canonicalized_resource, AzureBlobProvider};
use cloud_sync::settings::{AzureBlobCredentials, CommonProviderSettings};
use cloud_sync::storage::StorageError;
use cloud_sync::webdav::{collection_url, entry_name, format_path, listing_items, parse_propfind_response, percent_decode};
use cloud_sync::xml::XmlEvent;

fn azure(dest: Option<&str>, endpoint: Option<&str>, key: &str) -> AzureBlobProvider {
    AzureBlobProvider::new(AzureBlobCredentials {
        account_name: "acct".to_string(),
        account_key: key.to_string(),
        container: "box".to_string(),
        endpoint: endpoint.map(|e| e.to_string()),
        common: CommonProviderSettings { destination_folder: dest.map(|d| d.to_string()), ..Default::default() },
    })
}

#[test]
fn azure_addresses() {
    assert_eq!(azure(None, None, "").api_url, "https://acct.blob.core.windows.net");
    assert_eq!(azure(None, Some("http://127.0.0.1:10000/acct//"), "").api_url, "http://127.0.0.1:10000/acct");
    let p = azure(Some("/dest/"), None, "");
    assert_eq!(p.format_path("a/b"), "dest/a/b");
    assert_eq!(p.list_query(""), "/?comp=list&restype=container&prefix=dest/");
    assert_eq!(azure(None, None, "").list_query("/"), "/?comp=list&restype=container");
    assert_eq!(p.list_url("/?comp=list"), "https://acct.blob.core.windows.net/box?comp=list");
    let p = p.with_endpoints("http://mock".to_string());
    assert_eq!(p.api_url, "http://mock");
}

#[test]
fn azure_canonical_resource_sorts_parameters() {
    assert_eq!(
        canonicalized_resource("acct", "box", "/?restype=container&comp=list&prefix=a/"),
        "/acct/box\ncomp:list\nprefix:a/\nrestype:container"
    );
    assert_eq!(canonicalized_resource("acct", "box", "/dir/file.txt"), "/acct/box/dir/file.txt");
    assert_eq!(canonicalized_resource("acct", "box", "/"), "/acct/box");
    assert_eq!(canonicalized_resource("acct", "box", "/x?b=2&a&b=1"), "/acct/box/x\na:\nb:2\nb:1");
}

#[test]
fn azure_signature() {
    let key = base64::engine::general_purpose::STANDARD.encode(b"secret-key");
    let p = azure(None, None, &key);
    let headers = vec![
        ("x-ms-version".to_string(), "2021-08-06".to_string()),
        ("X-MS-Date".to_string(), " Mon, 01 Jan 2024 00:00:00 GMT ".to_string()),
        ("Content-MD5".to_string(), "ignored".to_string()),
    ];
    let auth = p.sign_request("put", "/a.txt?comp=block", Some(11), Some("text/plain"), &headers).unwrap();
    let signable = "PUT\n\n\n11\n\ntext/plain\n\n\n\n\n\n\nx-ms-date:Mon, 01 Jan 2024 00:00:00 GMT\nx-ms-version:2021-08-06\n/acct/box/a.txt\ncomp:block";
    let mut mac = hmac::Hmac::<sha2::Sha256>::new_from_slice(b"secret-key").unwrap();
    mac.update(signable.as_bytes());
    let expected = base64::engine::general_purpose::STANDARD.encode(mac.finalize().into_bytes());
    assert_eq!(auth, format!("SharedKey acct:{}", expected));
    match azure(None, None, "not base64!").sign_request("GET", "/", None, None, &vec![]) {
        Err(StorageError::Authentication(m)) => assert!(m.starts_with("Invalid account key base64: ")),
        other => panic!("unexpected {:?}", other),
    }
}

#[test]
fn azure_signature_ignores_header_and_parameter_order() {
    let key = base64::engine::general_purpose::STANDARD.encode(b"secret-key");
    let p = azure(None, None, &key);
    let h = |k: &str, v: &str| (k.to_string(), v.to_string());
    let first = vec![h("x-ms-version", "2021-08-06"), h("x-ms-date", "today"), h("Content-Type", "a")];
    let second = vec![h("Content-Type", "a"), h("x-ms-date", "today"), h("x-ms-version", "2021-08-06")];
    let a = p.sign_request("GET", "/?comp=list&restype=container", None, None, &first).unwrap();
    let b = p.sign_request("GET", "/?restype=container&comp=list", None, None, &second).unwrap();
    assert_eq!(a, b);
    let mut third = first.clone();
    third.push(h("If-Match", "etag"));
    let c = p.sign_request("GET", "/?comp=list&restype=container", None, None, &third).unwrap();
    assert_eq!(a, c);
    let d = p.sign_request("GET", "/?comp=list&restype=container", None, None, &vec![h("x-ms-date", "today")]).unwrap();
    assert_ne!(a, d);
    let padded = vec![h("x-ms-version", "\t2021-08-06  "), h("x-ms-date", " today"), h("Content-Type", "a")];
    let e = p.sign_request("GET", "/?comp=list&restype=container", None, None, &padded).unwrap();
    assert_eq!(a, e);
    let shouted = vec![h("X-MS-Version", "2021-08-06"), h("X-Ms-Date", "today"), h("content-type", "a")];
    let f = p.sign_request("get", "/?comp=list&restype=container", None, None, &shouted).unwrap();
    assert_eq!(a, f);
}

#[test]
fn azure_listing_from_events() {
    let ev = |s: &str| s.to_string();
    let events = vec![
        XmlEvent::Other,
        XmlEvent::Start(ev("Blob")),
        XmlEvent::Start(ev("Name")),
        XmlEvent::Text(ev("dest/a.txt")),
        XmlEvent::End(ev("Name")),
        XmlEvent::Start(ev("Content-Length")),
        XmlEvent::Text(ev("32")),
        XmlEvent::End(ev("Content-Length")),
        XmlEvent::Start(ev("Last-Modified")),
        XmlEvent::Text(ev("Thu, 01 Jan 1970 00:00:10 GMT")),
        XmlEvent::End(ev("Last-Modified")),
        XmlEvent::End(ev("Blob")),
        XmlEvent::Start(ev("Blob")),
        XmlEvent::Start(ev("Name")),
        XmlEvent::Text(ev("other/b.txt")),
        XmlEvent::End(ev("Name")),
        XmlEvent::End(ev("Blob")),
        XmlEvent::Eof,
        XmlEvent::End(ev("Blob")),
    ];
    let items = blobs_from_events(&events, Some("/dest/"), 99).unwrap();
    assert_eq!(items.len(), 2);
    assert_eq!(items[0].path, "a.txt");
    assert_eq!(items[0].size, 32);
    assert_eq!(items[0].modified, 10_000_000_000);
    assert!(!items[0].is_dir);
    assert_eq!(items[1].path, "other/b.txt");
    assert_eq!(items[1].size, 0);
    assert_eq!(items[1].modified, 99);
    let bad = vec![XmlEvent::Start(ev("Blob")), XmlEvent::Error(ev("boom"))];
    match blobs_from_events(&bad, None, 0) {
        Err(StorageError::Provider { message, .. }) => assert_eq!(message, "XML parse error: boom"),
        other => panic!("unexpected {:?}", other),
    }
}

#[test]
fn azure_listing_from_xml() {
    let body = "<?xml version=\"1.0\"?><EnumerationResults><Blobs><Blob><Name>x.bin</Name><Properties><Content-Length>7</Content-Length></Properties></Blob></Blobs></EnumerationResults>";
    let items = azure(None, None, "").read_listing(body, 1).unwrap();
    assert_eq!(items.len(), 1);
    assert_eq!(items[0].path, "x.bin");
    assert_eq!(items[0].size, 7);
    assert_eq!(items[0].modified, 1);
}

#[test]
fn percent_decoding_quirks() {
    assert_eq!(percent_decode("My%20Folder/a%2Fb"), "My Folder/a/b");
    assert_eq!(percent_decode("%zz!"), "%!");
    assert_eq!(percent_decode("%+a"), "\n");
    assert_eq!(percent_decode("abc%4"), "abc%");
    assert_eq!(percent_decode("abc%"), "abc%");
    assert_eq!(percent_decode("%C3%A9"), "é");
    assert_eq!(percent_decode("é"), "é");
    assert_eq!(percent_decode("My%20Folder%2Fcaf%C3%A9"), "My Folder/café");
    // Decoded bytes that are not UTF-8 are read one character per byte.
    assert_eq!(percent_decode("%E9t%E9"), "\u{e9}t\u{e9}");
}

#[test]
fn webdav_paths() {
    assert_eq!(format_path("/hello.txt", Some("MySyncFolder")), "/MySyncFolder/hello.txt");
    assert_eq!(format_path("", Some("/MySyncFolder/")), "/MySyncFolder");
    assert_eq!(format_path("", None), "/");
    assert_eq!(format_path("a", None), "/a");
    assert_eq!(collection_url("http://h/dav/", "/MySyncFolder"), "http://h/dav/MySyncFolder/");
    assert_eq!(collection_url("http://h", ""), "http://h/");
    assert_eq!(entry_name("/MySyncFolder/My%20File.txt"), "My File.txt");
    assert_eq!(entry_name("/MySyncFolder/sub/"), "sub");
}

#[test]
fn webdav_propfind_listing() {
    let xml = r#"<?xml version="1.0" encoding="utf-8"?>
<d:multistatus xmlns:d="DAV:">
  <d:response>
    <d:href>/MySyncFolder/</d:href>
    <d:propstat><d:prop><d:resourcetype><d:collection/></d:resourcetype></d:prop><d:status>HTTP/1.1 200 OK</d:status></d:propstat>
  </d:response>
  <d:response>
    <d:href>/MySyncFolder/hello.txt</d:href>
    <d:propstat><d:prop><d:getcontentlength>32</d:getcontentlength><d:resourcetype/></d:prop><d:status>HTTP/1.1 200 OK</d:status></d:propstat>
  </d:response>
  <d:response>
    <d:href>/MySyncFolder/Sub%20Dir/</d:href>
    <d:propstat><d:prop><d:resourcetype><d:collection/></d:resourcetype></d:prop></d:propstat>
  </d:response>
</d:multistatus>"#;
    let entries = parse_propfind_response(xml).unwrap();
    assert_eq!(entries.len(), 3);
    assert_eq!(entries[0], ("/MySyncFolder/".to_string(), 0, true));
    assert_eq!(entries[1], ("/MySyncFolder/hello.txt".to_string(), 32, false));
    assert_eq!(entries[2], ("/MySyncFolder/Sub%20Dir/".to_string(), 0, true));
    let items = listing_items(&entries, 5);
    assert_eq!(items.len(), 2);
    assert_eq!(items[0].path, "hello.txt");
    assert_eq!(items[0].size, 32);
    assert!(!items[0].is_dir);
    assert_eq!(items[1].path, "Sub Dir");
    assert!(items[1].is_dir);
    assert_eq!(items[1].modified, 5);
    assert!(parse_propfind_response("<a><b></a>").is_err());
}

#[test]
fn propfind_answers_list_one_entry_per_response() {
    let xml = "<d:multistatus xmlns:d='DAV:'><d:response><d:href>/f/</d:href><d:propstat><d:prop><d:resourcetype><d:collection/></d:resourcetype></d:prop></d:propstat></d:response><d:response><d:href>/f/a.txt</d:href><d:propstat><d:prop><d:getcontentlength>12</d:getcontentlength></d:prop></d:propstat></d:response></d:multistatus>";
    assert_eq!(
        parse_propfind_response(xml).unwrap(),
        vec![("/f/".to_string(), 0, true), ("/f/a.txt".to_string(), 12, false)]
    );
}
