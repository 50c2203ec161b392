use hero_service::client::Client;
use hero_service::http::{Method, Request};
use hero_service::service::rocket;

fn text_of(client: &mut Client, target: &str) -> Option<String> {
    client.get(target).text()
}

#[test]
fn test_hello_world() {
    let mut client = Client::new(rocket());
    let response = client.get("/api");
    assert_eq!(response.text(), Some("Hello, world!".into()));
}

#[test]
fn test_greeting() {
    let mut client = Client::new(rocket());
    let response = client.get("/api/rainer");
    assert_eq!(response.text(), Some("Hello rainer".into()));
}

#[test]
fn test_querystring_without_salutation() {
    let mut client = Client::new(rocket());
    let response = client.get("/api/hello?name=rainer");
    assert_eq!(response.text(), Some("Hello rainer".into()));
}

#[test]
fn test_querystring_with_salutation() {
    let mut client = Client::new(rocket());
    let response = client.get("/api/hello?name=rainer&salutation=Hi");
    assert_eq!(response.text(), Some("Hi rainer".into()));
}

#[test]
fn test_protected_without_key() {
    let mut client = Client::new(rocket());
    let response = client.get("/api/protected");
    assert_eq!(response.status, 401);
}

#[test]
fn test_protected_with_invalid_key() {
    let mut client = Client::new(rocket());
    let response = client.send(
        Request::new(Method::Get, "/api/protected").with_header("x-api-key", "c2VjcmV"),
    );
    assert_eq!(response.status, 401);
}

#[test]
fn test_protected_with_key() {
    let mut client = Client::new(rocket());
    let response = client.send(
        Request::new(Method::Get, "/api/protected")
            .with_header("x-api-key", &base64::encode("secret")),
    );
    assert_eq!(response.status, 200);
}

#[test]
fn test_set_cookie() {
    let mut client = Client::new(rocket());
    let response = client.get("/api/login");
    assert!(response.set_cookie.as_ref().map(|c| c.0 == "Session").unwrap_or(false))
}

#[test]
fn protected_echoes_decoded_key() {
    let mut client = Client::new(rocket());
    let response = client.send(
        Request::new(Method::Get, "/api/protected").with_header("x-api-key", "c2VjcmV0"),
    );
    assert_eq!(response.status, 200);
    assert_eq!(
        response.text(),
        Some("You are allowed to access this API because you presented key 'secret'".into())
    );
}

#[test]
fn login_cookie_holds_encoded_session_key() {
    let mut client = Client::new(rocket());
    let response = client.get("/api/login");
    assert_eq!(response.status, 200);
    assert_eq!(
        response.set_cookie,
        Some(("Session".to_string(), "dGhpc19pc19hX3Nlc3Npb25fa2V5".to_string()))
    );
}

#[test]
fn session_after_login_has_cookie() {
    let mut client = Client::new(rocket());
    client.get("/api/login");
    assert_eq!(text_of(&mut client, "/api/session"), Some("You got the cookie!".into()));
}

#[test]
fn session_without_login_has_no_cookie() {
    let mut client = Client::new(rocket());
    assert_eq!(text_of(&mut client, "/api/session"), Some("Sorry, no cookie!".into()));
}

#[test]
fn hello_without_name_greets_by_path() {
    let mut client = Client::new(rocket());
    assert_eq!(text_of(&mut client, "/api/hello"), Some("Hello hello".into()));
    assert_eq!(text_of(&mut client, "/api/hello?salutation=Hi"), Some("Hello hello".into()));
}

#[test]
fn unknown_route_is_not_found() {
    let mut client = Client::new(rocket());
    let response = client.get("/elsewhere");
    assert_eq!(response.status, 404);
    assert!(response.text().unwrap().contains("<h1>Not found</h1>"));
    assert_eq!(client.get("/api/a/b").status, 404);
    assert_eq!(client.send(Request::new(Method::Delete, "/api/heroes")).status, 404);
}

#[test]
fn names_are_percent_decoded() {
    let mut client = Client::new(rocket());
    assert_eq!(text_of(&mut client, "/api/hello?name=a%20b"), Some("Hello a b".into()));
    assert_eq!(text_of(&mut client, "/api/hello?name=a+b&salutation=Good+day"), Some("Good day a b".into()));
    assert_eq!(text_of(&mut client, "/api/a%20b"), Some("Hello a b".into()));
    assert_eq!(text_of(&mut client, "/api/a+b"), Some("Hello a+b".into()));
    assert_eq!(client.get("/api/%FF").status, 404);
}
