use gallery::files::FileError;
use gallery::routes::{
    dispatch, login_post, logout, no_auth_index, CookieOp, HttpMethod, Outcome, Request, Target,
};
use gallery::token::issue;

fn get(path: &str, cookie: Option<String>) -> Request {
    Request {
        method: HttpMethod::Get,
        path: path.to_string(),
        query_name: None,
        form_password: None,
        cookie,
    }
}

fn post(path: &str, form_password: Option<String>, cookie: Option<String>) -> Request {
    Request {
        method: HttpMethod::Post,
        path: path.to_string(),
        query_name: None,
        form_password,
        cookie,
    }
}

fn remove_request(name: &str, cookie: Option<String>) -> Request {
    Request {
        method: HttpMethod::Get,
        path: "/remove".to_string(),
        query_name: Some(name.to_string()),
        form_password: None,
        cookie,
    }
}

#[test]
fn unauthenticated_root_redirects_to_login() {
    let r = dispatch(get("/", None), "hunter2");
    assert!(matches!(r.cookie, CookieOp::Keep));
    assert!(matches!(r.outcome, Outcome::Redirect(Target::Login)));
}

#[test]
fn rejected_cookie_behaves_like_no_cookie_at_root() {
    let r = dispatch(get("/", Some(issue("wrong"))), "hunter2");
    assert!(matches!(r.outcome, Outcome::Redirect(Target::Login)));
    let r = dispatch(get("/", Some("corrupt".to_string())), "hunter2");
    assert!(matches!(r.outcome, Outcome::Redirect(Target::Login)));
}

#[test]
fn authenticated_root_renders_gallery() {
    let r = dispatch(get("/", Some(issue("hunter2"))), "hunter2");
    assert!(matches!(r.cookie, CookieOp::Keep));
    assert!(matches!(r.outcome, Outcome::RenderGallery));
}

#[test]
fn login_form_is_served_to_anyone() {
    let r = dispatch(get("/login", None), "hunter2");
    assert!(matches!(r.outcome, Outcome::RenderLogin));
    let r = dispatch(get("/login", Some(issue("hunter2"))), "hunter2");
    assert!(matches!(r.outcome, Outcome::RenderLogin));
}

#[test]
fn login_sets_cookie_and_grants_access() {
    let r = dispatch(post("/login", Some("hunter2".to_string()), None), "hunter2");
    let token = match r.cookie {
        CookieOp::SetTo(t) => t,
        _ => panic!("login must set the session cookie"),
    };
    assert!(matches!(r.outcome, Outcome::Redirect(Target::Home)));
    let follow_up = dispatch(get("/", Some(token)), "hunter2");
    assert!(matches!(follow_up.outcome, Outcome::RenderGallery));
}

#[test]
fn login_with_wrong_password_issues_useless_token() {
    let r = dispatch(post("/login", Some("guessed".to_string()), None), "hunter2");
    let token = match r.cookie {
        CookieOp::SetTo(t) => t,
        _ => panic!("login must set the session cookie"),
    };
    let follow_up = dispatch(get("/", Some(token)), "hunter2");
    assert!(matches!(follow_up.outcome, Outcome::Redirect(Target::Login)));
}

#[test]
fn logout_clears_cookie_and_access_is_gone() {
    let r = dispatch(post("/logout", None, Some(issue("hunter2"))), "hunter2");
    assert!(matches!(r.cookie, CookieOp::Clear));
    assert!(matches!(r.outcome, Outcome::Redirect(Target::Login)));
    let follow_up = dispatch(get("/", None), "hunter2");
    assert!(matches!(follow_up.outcome, Outcome::Redirect(Target::Login)));
}

#[test]
fn remove_requires_authentication() {
    let r = dispatch(remove_request("photo.jpg", None), "hunter2");
    assert!(matches!(r.outcome, Outcome::Forbidden));
    let r = dispatch(remove_request("photo.jpg", Some(issue("wrong"))), "hunter2");
    assert!(matches!(r.outcome, Outcome::Forbidden));
}

#[test]
fn remove_accepts_a_plain_name() {
    let r = dispatch(remove_request("photo.jpg", Some(issue("hunter2"))), "hunter2");
    match r.outcome {
        Outcome::Remove(name) => assert_eq!(name, "photo.jpg"),
        _ => panic!("a valid authenticated removal must run"),
    }
}

#[test]
fn remove_rejects_traversal_even_when_authenticated() {
    let r = dispatch(remove_request("../settings.json", Some(issue("hunter2"))), "hunter2");
    assert!(matches!(r.outcome, Outcome::Fail(FileError::InvalidName)));
}

#[test]
fn unknown_routes_are_not_found() {
    let r = dispatch(get("/media/a.jpg", None), "hunter2");
    assert!(matches!(r.outcome, Outcome::NotFound));
    let r = dispatch(post("/", None, None), "hunter2");
    assert!(matches!(r.outcome, Outcome::NotFound));
}

#[test]
fn handler_helpers_match_dispatch() {
    let r = no_auth_index();
    assert!(matches!(r.outcome, Outcome::Redirect(Target::Login)));
    let r = login_post("hunter2");
    match r.cookie {
        CookieOp::SetTo(t) => assert_eq!(t, issue("hunter2")),
        _ => panic!("login_post must set the session cookie"),
    }
    let r = logout();
    assert!(matches!(r.cookie, CookieOp::Clear));
}
