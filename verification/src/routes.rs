//! Route dispatcher: maps each request to exactly one handler, with an
//! explicit two-step precedence rule at the root path — the
//! authenticated gallery view is tried first, and any other verdict
//! falls through to a redirect to the login page, so an invalid cookie
//! behaves exactly like a missing one.

use vstd::prelude::*;

use crate::auth::{authenticate, spec_authenticate, AuthVerdict};
use crate::files::{is_valid_name, valid_name, FileError};
use crate::token::{issue, spec_token};

verus! {

#[derive(PartialEq, Eq, Structural, Clone, Copy, Debug)]
pub enum HttpMethod {
    Get,
    Post,
}

/// Where a redirect sends the client.
#[derive(PartialEq, Eq, Structural, Clone, Copy, Debug)]
pub enum Target {
    Home,
    Login,
}

/// A request, reduced to what the dispatcher reads: method, path, the
/// `path` query parameter of a removal, the `password` form field of a
/// login, and the session cookie if one was presented.
pub struct Request {
    pub method: HttpMethod,
    pub path: String,
    pub query_name: Option<String>,
    pub form_password: Option<String>,
    pub cookie: Option<String>,
}

/// The mathematical image of a `Request`.
pub struct ReqView {
    pub method: HttpMethod,
    pub path: Seq<char>,
    pub query_name: Option<Seq<char>>,
    pub form_password: Option<Seq<char>>,
    pub cookie: Option<Seq<char>>,
}

impl View for Request {
    type V = ReqView;

    open spec fn view(&self) -> ReqView {
        ReqView {
            method: self.method,
            path: self.path@,
            query_name: self.query_name.deep_view(),
            form_password: self.form_password.deep_view(),
            cookie: self.cookie.deep_view(),
        }
    }
}

/// What the transport must do to the session cookie.
pub enum CookieOp {
    Keep,
    SetTo(String),
    Clear,
}

/// The mathematical image of a `CookieOp`.
pub enum CookieOpView {
    Keep,
    SetTo(Seq<char>),
    Clear,
}

impl View for CookieOp {
    type V = CookieOpView;

    open spec fn view(&self) -> CookieOpView {
        match self {
            CookieOp::Keep => CookieOpView::Keep,
            CookieOp::SetTo(t) => CookieOpView::SetTo(t@),
            CookieOp::Clear => CookieOpView::Clear,
        }
    }
}

/// What runs next: a render, a redirect, a validated removal, or a
/// refusal.
pub enum Outcome {
    /// render the gallery page for the authenticated owner
    RenderGallery,
    /// render the login form
    RenderLogin,
    /// redirect with no body
    Redirect(Target),
    /// delete this (already validated) file name, then redirect home
    Remove(String),
    /// refuse the request with this removal error
    Fail(FileError),
    /// the route exists but the caller is not authenticated
    Forbidden,
    /// the route exists but the request lacks a required field
    BadRequest,
    /// no route matches
    NotFound,
}

/// The mathematical image of an `Outcome`.
pub enum OutcomeView {
    RenderGallery,
    RenderLogin,
    Redirect(Target),
    Remove(Seq<char>),
    Fail(FileError),
    Forbidden,
    BadRequest,
    NotFound,
}

impl View for Outcome {
    type V = OutcomeView;

    open spec fn view(&self) -> OutcomeView {
        match self {
            Outcome::RenderGallery => OutcomeView::RenderGallery,
            Outcome::RenderLogin => OutcomeView::RenderLogin,
            Outcome::Redirect(t) => OutcomeView::Redirect(*t),
            Outcome::Remove(n) => OutcomeView::Remove(n@),
            Outcome::Fail(e) => OutcomeView::Fail(*e),
            Outcome::Forbidden => OutcomeView::Forbidden,
            Outcome::BadRequest => OutcomeView::BadRequest,
            Outcome::NotFound => OutcomeView::NotFound,
        }
    }
}

/// What the dispatcher hands back to the transport: a cookie mutation
/// and the outcome to perform.
pub struct Response {
    pub cookie: CookieOp,
    pub outcome: Outcome,
}

/// The mathematical image of a `Response`.
pub struct RespView {
    pub cookie: CookieOpView,
    pub outcome: OutcomeView,
}

impl View for Response {
    type V = RespView;

    open spec fn view(&self) -> RespView {
        RespView { cookie: self.cookie@, outcome: self.outcome@ }
    }
}

/// The dispatch policy: one response for every request.
pub open spec fn spec_dispatch(r: ReqView, password: Seq<char>) -> RespView {
    if r.method == HttpMethod::Get && r.path == "/"@ {
        if spec_authenticate(r.cookie, password) == AuthVerdict::Authenticated {
            RespView { cookie: CookieOpView::Keep, outcome: OutcomeView::RenderGallery }
        } else {
            RespView {
                cookie: CookieOpView::Keep,
                outcome: OutcomeView::Redirect(Target::Login),
            }
        }
    } else if r.method == HttpMethod::Get && r.path == "/login"@ {
        RespView { cookie: CookieOpView::Keep, outcome: OutcomeView::RenderLogin }
    } else if r.method == HttpMethod::Post && r.path == "/login"@ {
        match r.form_password {
            Some(p) => RespView {
                cookie: CookieOpView::SetTo(spec_token(p)),
                outcome: OutcomeView::Redirect(Target::Home),
            },
            None => RespView { cookie: CookieOpView::Keep, outcome: OutcomeView::BadRequest },
        }
    } else if r.method == HttpMethod::Post && r.path == "/logout"@ {
        RespView { cookie: CookieOpView::Clear, outcome: OutcomeView::Redirect(Target::Login) }
    } else if r.method == HttpMethod::Get && r.path == "/remove"@ {
        if spec_authenticate(r.cookie, password) == AuthVerdict::Authenticated {
            match r.query_name {
                Some(name) => if valid_name(name) {
                    RespView { cookie: CookieOpView::Keep, outcome: OutcomeView::Remove(name) }
                } else {
                    RespView {
                        cookie: CookieOpView::Keep,
                        outcome: OutcomeView::Fail(FileError::InvalidName),
                    }
                },
                None => RespView { cookie: CookieOpView::Keep, outcome: OutcomeView::BadRequest },
            }
        } else {
            RespView { cookie: CookieOpView::Keep, outcome: OutcomeView::Forbidden }
        }
    } else {
        RespView { cookie: CookieOpView::Keep, outcome: OutcomeView::NotFound }
    }
}

fn str_eq(a: &str, b: &str) -> (r: bool)
    ensures
        r == (a@ == b@),
{
    let a_owned: String = a.to_owned();
    let b_owned: String = b.to_owned();
    a_owned == b_owned
}

/// GET "/" for an authenticated owner: render the gallery.
pub fn index() -> (r: Response)
    ensures
        r@ == (RespView { cookie: CookieOpView::Keep, outcome: OutcomeView::RenderGallery }),
{
    Response { cookie: CookieOp::Keep, outcome: Outcome::RenderGallery }
}

/// GET "/" when the verdict is not `Authenticated`: redirect to the
/// login page, identically for a missing and for an invalid cookie.
pub fn no_auth_index() -> (r: Response)
    ensures
        r@ == (RespView {
            cookie: CookieOpView::Keep,
            outcome: OutcomeView::Redirect(Target::Login),
        }),
{
    Response { cookie: CookieOp::Keep, outcome: Outcome::Redirect(Target::Login) }
}

/// GET "/login": serve the login form, whatever the auth state.
pub fn login_get() -> (r: Response)
    ensures
        r@ == (RespView { cookie: CookieOpView::Keep, outcome: OutcomeView::RenderLogin }),
{
    Response { cookie: CookieOp::Keep, outcome: Outcome::RenderLogin }
}

/// POST "/login": issue a session token for the submitted password,
/// set it as the session cookie, and redirect home. A wrong password
/// yields a token that will simply fail every later verification.
pub fn login_post(submitted: &str) -> (r: Response)
    ensures
        r@ == (RespView {
            cookie: CookieOpView::SetTo(spec_token(submitted@)),
            outcome: OutcomeView::Redirect(Target::Home),
        }),
{
    Response { cookie: CookieOp::SetTo(issue(submitted)), outcome: Outcome::Redirect(Target::Home) }
}

/// POST "/logout": clear the session cookie and redirect to the login
/// page.
pub fn logout() -> (r: Response)
    ensures
        r@ == (RespView {
            cookie: CookieOpView::Clear,
            outcome: OutcomeView::Redirect(Target::Login),
        }),
{
    Response { cookie: CookieOp::Clear, outcome: Outcome::Redirect(Target::Login) }
}

/// GET "/remove" for an authenticated owner: accept only names that
/// cannot escape the media directory, and reject the rest with
/// `InvalidName` before any filesystem access.
pub fn remove(name: String) -> (r: Response)
    ensures
        r@ == (if valid_name(name@) {
            RespView { cookie: CookieOpView::Keep, outcome: OutcomeView::Remove(name@) }
        } else {
            RespView {
                cookie: CookieOpView::Keep,
                outcome: OutcomeView::Fail(FileError::InvalidName),
            }
        }),
{
    if is_valid_name(name.as_str()) {
        Response { cookie: CookieOp::Keep, outcome: Outcome::Remove(name) }
    } else {
        Response { cookie: CookieOp::Keep, outcome: Outcome::Fail(FileError::InvalidName) }
    }
}

/// Map a request to its one handler and return that handler's
/// response.
pub fn dispatch(req: Request, password: &str) -> (r: Response)
    ensures
        r@ == spec_dispatch(req@, password@),
{
    let is_get = req.method == HttpMethod::Get;
    let is_post = req.method == HttpMethod::Post;
    if is_get && str_eq(req.path.as_str(), "/") {
        let verdict = authenticate(&req.cookie, password);
        if verdict == AuthVerdict::Authenticated {
            index()
        } else {
            no_auth_index()
        }
    } else if is_get && str_eq(req.path.as_str(), "/login") {
        login_get()
    } else if is_post && str_eq(req.path.as_str(), "/login") {
        match req.form_password {
            Some(p) => login_post(p.as_str()),
            None => Response { cookie: CookieOp::Keep, outcome: Outcome::BadRequest },
        }
    } else if is_post && str_eq(req.path.as_str(), "/logout") {
        logout()
    } else if is_get && str_eq(req.path.as_str(), "/remove") {
        let verdict = authenticate(&req.cookie, password);
        if verdict == AuthVerdict::Authenticated {
            match req.query_name {
                Some(name) => remove(name),
                None => Response { cookie: CookieOp::Keep, outcome: Outcome::BadRequest },
            }
        } else {
            Response { cookie: CookieOp::Keep, outcome: Outcome::Forbidden }
        }
    } else {
        Response { cookie: CookieOp::Keep, outcome: Outcome::NotFound }
    }
}

/// A GET of the root without an `Authenticated` verdict — no cookie or
/// a rejected one, indistinguishably — is redirected to the login page
/// and renders nothing.
pub proof fn lemma_root_requires_auth(r: ReqView, password: Seq<char>)
    requires
        r.method == HttpMethod::Get,
        r.path == "/"@,
        spec_authenticate(r.cookie, password) != AuthVerdict::Authenticated,
    ensures
        spec_dispatch(r, password) == (RespView {
            cookie: CookieOpView::Keep,
            outcome: OutcomeView::Redirect(Target::Login),
        }),
{
}

/// A GET of the root with a cookie holding the token issued for the
/// configured password renders the gallery.
pub proof fn lemma_root_authenticated(r: ReqView, password: Seq<char>)
    requires
        r.method == HttpMethod::Get,
        r.path == "/"@,
        r.cookie == Some(spec_token(password)),
    ensures
        spec_dispatch(r, password) == (RespView {
            cookie: CookieOpView::Keep,
            outcome: OutcomeView::RenderGallery,
        }),
{
    crate::auth::lemma_authenticate_issued(password);
}

/// Logging in with the configured password sets a session cookie and
/// redirects home, and a later GET of the root that presents that very
/// cookie renders the gallery.
pub proof fn lemma_login_then_root(login: ReqView, root: ReqView, password: Seq<char>)
    requires
        login.method == HttpMethod::Post,
        login.path == "/login"@,
        login.form_password == Some(password),
        root.method == HttpMethod::Get,
        root.path == "/"@,
        root.cookie == Some(spec_token(password)),
    ensures
        spec_dispatch(login, password).cookie == CookieOpView::SetTo(spec_token(password)),
        spec_dispatch(login, password).outcome == OutcomeView::Redirect(Target::Home),
        spec_dispatch(root, password).outcome == OutcomeView::RenderGallery,
{
    lemma_root_authenticated(root, password);
}

/// Logging out clears the session cookie and redirects to the login
/// page, and a later GET of the root without a cookie is
/// unauthenticated and redirected to the login page again.
pub proof fn lemma_logout_then_root(out: ReqView, root: ReqView, password: Seq<char>)
    requires
        out.method == HttpMethod::Post,
        out.path == "/logout"@,
        root.method == HttpMethod::Get,
        root.path == "/"@,
        root.cookie is None,
    ensures
        spec_dispatch(out, password).cookie == CookieOpView::Clear,
        spec_dispatch(out, password).outcome == OutcomeView::Redirect(Target::Login),
        spec_dispatch(root, password).outcome == OutcomeView::Redirect(Target::Login),
{
    reveal_strlit("/login");
    reveal_strlit("/logout");
    assert("/login"@.len() != "/logout"@.len());
    crate::auth::lemma_authenticate_none(password);
    lemma_root_requires_auth(root, password);
}

/// A removal runs only for an authenticated owner and only on a name
/// that cannot escape the media directory: whenever the dispatcher
/// orders a file deleted, the cookie held the owner's token and the
/// name was validated.
pub proof fn lemma_remove_only_safe_names(r: ReqView, password: Seq<char>, name: Seq<char>)
    requires
        spec_dispatch(r, password).outcome == OutcomeView::Remove(name),
    ensures
        spec_authenticate(r.cookie, password) == AuthVerdict::Authenticated,
        r.cookie == Some(spec_token(password)),
        valid_name(name),
{
}

} // verus!
