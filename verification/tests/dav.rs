use cue::dav::{
    auth, backup_names, check, fmt_err, folder, get, is_file_url, list, put, put_outcome,
    reply_body, stamp, Clock, Cred,
};
use cue::http::{Failure, Method, Reply};

fn cred(url: &str) -> Cred {
    Cred { url: url.to_string(), user: "Aladdin".to_string(), pass: "open sesame".to_string() }
}

fn clock(day: u16, second: u16) -> Clock {
    Clock { year: 2024, month: 3, day, hour: 4, minute: 5, second }
}

#[test]
fn file_urls() {
    assert!(is_file_url("https://x/y.toml"));
    assert!(is_file_url("https://x/y.toml//"));
    assert!(!is_file_url("https://x/y"));
    assert_eq!(folder("https://x/y//"), "https://x/y");
}

#[test]
fn stamps() {
    assert_eq!(stamp(clock(9, 7)), "20240309-040507");
}

#[test]
fn basic_authorization() {
    assert_eq!(auth(&cred("https://x")), "Basic QWxhZGRpbjpvcGVuIHNlc2FtZQ==");
}

#[test]
fn uploads() {
    let r = put(&cred("https://x/dir/"), "body".to_string(), clock(9, 7));
    assert_eq!(r.method, Method::Put);
    assert_eq!(r.url, "https://x/dir/cue-settings-20240309-040507.toml");
    assert_eq!(r.body, Some("body".to_string()));
    assert_eq!(r.headers.len(), 1);
    assert_eq!(r.headers[0].0, "Authorization");
    assert_eq!(r.headers[0].1, "Basic QWxhZGRpbjpvcGVuIHNlc2FtZQ==");
    let single = put(&cred("https://x/my.toml"), String::new(), clock(9, 7));
    assert_eq!(single.url, "https://x/my.toml");
}

#[test]
fn downloads() {
    let r = get(&cred("https://x/dir/"), "cue-settings-1.toml");
    assert_eq!(r.method, Method::Get);
    assert_eq!(r.url, "https://x/dir/cue-settings-1.toml");
    assert_eq!(r.body, None);
    assert_eq!(get(&cred("https://x/my.toml"), "").url, "https://x/my.toml");
}

#[test]
fn a_backup_is_fetched_from_where_it_was_put() {
    let c = cred("https://x/dir");
    let name = format!("cue-settings-{}.toml", stamp(clock(9, 7)));
    assert_eq!(get(&c, &name).url, put(&c, String::new(), clock(9, 7)).url);
}

#[test]
fn listings() {
    let r = list(&cred("https://x/dir/"));
    assert_eq!(r.method, Method::Propfind);
    assert_eq!(r.url, "https://x/dir");
    assert_eq!(r.headers[1], ("Depth".to_string(), "1".to_string()));
    assert_eq!(r.body, None);
}

#[test]
fn failures_in_words() {
    assert_eq!(fmt_err(Failure::Status(404, "gone".to_string())), "HTTP 404");
    assert_eq!(fmt_err(Failure::Transport("no route".to_string())), "no route");
}

#[test]
fn redirects_are_errors() {
    assert_eq!(check(200), Ok(()));
    assert_eq!(check(299), Ok(()));
    assert_eq!(check(207), Ok(()));
    assert_eq!(check(301), Err("HTTP 301 (redirect - check the url)".to_string()));
    assert_eq!(check(300), Err("HTTP 300 (redirect - check the url)".to_string()));
}

#[test]
fn bodies_of_replies() {
    let ok = Reply::Answer(207, Ok("xml".to_string()));
    assert_eq!(reply_body(ok), Ok("xml".to_string()));
    let unread = Reply::Answer(200, Err("cut".to_string()));
    assert_eq!(reply_body(unread), Err("cut".to_string()));
    let moved = Reply::Answer(302, Ok("x".to_string()));
    assert_eq!(reply_body(moved), Err("HTTP 302 (redirect - check the url)".to_string()));
    let failed = Reply::Failed(Failure::Status(401, String::new()));
    assert_eq!(reply_body(failed), Err("HTTP 401".to_string()));
}

#[test]
fn outcomes_of_uploads() {
    assert_eq!(put_outcome(Reply::Answer(201, Err("cut".to_string()))), Ok(()));
    let moved = Reply::Answer(307, Ok(String::new()));
    assert_eq!(put_outcome(moved), Err("HTTP 307 (redirect - check the url)".to_string()));
    let failed = Reply::Failed(Failure::Transport("down".to_string()));
    assert_eq!(put_outcome(failed), Err("down".to_string()));
}

#[test]
fn backups_newest_first() {
    let xml = "<d:multistatus><d:href>/dir/</d:href>\
        <d:href>/dir/cue-settings-20240101-000000.toml</d:href>\
        <d:href>/dir/cue-settings-20240309-040507.toml/</d:href>\
        <d:href>/dir/other.toml</d:href><d:href>/dir/cue-settings-x.txt</d:href>\
        <D:href>cue-settings-20230101-000000.toml</D:href>\
        <d:href>/dir/cue-settings-20240101-000000.toml</d:href></d:multistatus>";
    assert_eq!(
        backup_names(xml),
        [
            "cue-settings-20240309-040507.toml",
            "cue-settings-20240101-000000.toml",
            "cue-settings-20230101-000000.toml",
        ]
    );
    assert!(backup_names("").is_empty());
    assert!(backup_names("<href>cue-settings.toml").is_empty());
}

#[test]
fn later_backups_sort_later() {
    let times = [clock(9, 7), clock(9, 8), clock(10, 0), clock(28, 59)];
    for w in times.windows(2) {
        assert!(stamp(w[0]) < stamp(w[1]));
    }
}

#[test]
fn an_uploaded_backup_is_listed() {
    let r = put(&cred("https://x/dir"), String::new(), clock(9, 7));
    let path = r.url.strip_prefix("https://x").unwrap();
    let xml = format!("<href>{path}</href>");
    assert_eq!(backup_names(&xml), ["cue-settings-20240309-040507.toml"]);
}
