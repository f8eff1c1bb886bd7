//! The account gate: the route the application shows, and how the session
//! state follows loading the account, signing in, and the session expiring.

use vstd::prelude::*;
use crate::http::ApiError;
use crate::text::{chars_of, string_from_chars};

verus! {

/// A screen of the application. `P` carries what a screen is opened with.
#[derive(Clone, Copy, Debug)]
pub enum AppRoute<P> {
    Library,
    Challenges,
    AiQueue,
    Connections,
    Settings,
    Reader(P),
    LearningSession(P),
    MaterialLearning(P),
    Desk(P),
    Search(P),
}

/// The document title of a route.
pub fn route_title<P>(route: &AppRoute<P>) -> (r: &'static str)
    ensures
        r@ == match *route {
            AppRoute::Library => "Библиотека — Lumi"@,
            AppRoute::Challenges => "Челленджи — Lumi"@,
            AppRoute::AiQueue => "AI-задачи — Lumi"@,
            AppRoute::Connections => "Подключения — Lumi"@,
            AppRoute::Settings => "Администрирование — Lumi"@,
            AppRoute::Reader(_) => "Чтение — Lumi"@,
            AppRoute::LearningSession(_) => "Самопроверка — Lumi"@,
            AppRoute::MaterialLearning(_) => "Обучение — Lumi"@,
            AppRoute::Desk(_) => "Desk — Lumi"@,
            AppRoute::Search(_) => "Поиск — Lumi"@,
        },
{
    match route {
        AppRoute::Library => "Библиотека — Lumi",
        AppRoute::Challenges => "Челленджи — Lumi",
        AppRoute::AiQueue => "AI-задачи — Lumi",
        AppRoute::Connections => "Подключения — Lumi",
        AppRoute::Settings => "Администрирование — Lumi",
        AppRoute::Reader(_) => "Чтение — Lumi",
        AppRoute::LearningSession(_) => "Самопроверка — Lumi",
        AppRoute::MaterialLearning(_) => "Обучение — Lumi",
        AppRoute::Desk(_) => "Desk — Lumi",
        AppRoute::Search(_) => "Поиск — Lumi",
    }
}

/// The top bar is shown everywhere but in the reader and in a learning session.
pub fn shows_topbar<P>(route: &AppRoute<P>) -> (r: bool)
    ensures
        r == !(*route is Reader || *route is LearningSession),
{
    match route {
        AppRoute::Reader(_) | AppRoute::LearningSession(_) => false,
        _ => true,
    }
}

/// The reader, the Desk and search ask the server for its capabilities.
pub fn needs_record_capability<P>(route: &AppRoute<P>) -> (r: bool)
    ensures
        r == (*route is Reader || *route is Desk || *route is Search),
{
    match route {
        AppRoute::Reader(_) | AppRoute::Desk(_) | AppRoute::Search(_) => true,
        _ => false,
    }
}

/// Settings are for administrators: a signed-in account that is not one and
/// asks for them (by route or by the address) goes to the library, and the
/// address is rewritten (the second result). Any other route stays.
pub fn route_on_sign_in<P>(route: AppRoute<P>, is_admin: bool, requests_settings: bool) -> (r: (AppRoute<P>, bool))
    ensures
        !is_admin && (route is Settings || requests_settings) ==> r.0 is Library && r.1,
        !(!is_admin && (route is Settings || requests_settings)) ==> r.0 == route && !r.1,
{
    let asks_settings = match route {
        AppRoute::Settings => true,
        _ => false,
    };
    if !is_admin && (asks_settings || requests_settings) {
        (AppRoute::Library, true)
    } else {
        (route, false)
    }
}

/// Where the account stands.
#[derive(Clone, Debug)]
pub enum AccountPhase<A> {
    Loading,
    SignedOut,
    SignedIn(A),
    Expired,
    Failed(String),
}

/// The state of the account gate: the account, the CSRF token of the session,
/// the server's capabilities once loaded, and the route shown.
pub struct Gate<A, C, P> {
    pub phase: AccountPhase<A>,
    pub csrf: String,
    pub capabilities: Option<C>,
    pub route: AppRoute<P>,
}

/// The session has expired: the expiry notice is shown, the token and the
/// capabilities are forgotten, and the route goes back to the library.
pub fn on_session_expired<A, C, P>(gate: Gate<A, C, P>) -> (r: Gate<A, C, P>)
    ensures
        r.phase is Expired,
        r.csrf@.len() == 0,
        r.capabilities is None,
        r.route is Library,
{
    Gate { phase: AccountPhase::Expired, csrf: String::new(), capabilities: None, route: AppRoute::Library }
}

/// The expiry notice's button leads back to signing in.
pub fn on_sign_in_again<A, C, P>(gate: Gate<A, C, P>) -> (r: Gate<A, C, P>)
    ensures
        r.phase is SignedOut,
        r.csrf == gate.csrf,
        r.capabilities == gate.capabilities,
        r.route == gate.route,
{
    Gate { phase: AccountPhase::SignedOut, ..gate }
}

/// A signed-in account (with whether it administers the instance) and the
/// session's token: the account is shown, on the route that
/// `route_on_sign_in` gives; the second result says the address must change.
pub fn on_signed_in<A, C, P>(gate: Gate<A, C, P>, account: A, is_admin: bool, csrf: String, requests_settings: bool) -> (r: (Gate<A, C, P>, bool))
    ensures
        r.0.phase == AccountPhase::<A>::SignedIn(account),
        r.0.csrf == csrf,
        r.0.capabilities == gate.capabilities,
        (r.0.route, r.1) == route_on_sign_in_spec(gate.route, is_admin, requests_settings),
{
    let (route, rewrite) = route_on_sign_in(gate.route, is_admin, requests_settings);
    (Gate { phase: AccountPhase::SignedIn(account), csrf, capabilities: gate.capabilities, route }, rewrite)
}

/// `route_on_sign_in` as a function.
pub open spec fn route_on_sign_in_spec<P>(route: AppRoute<P>, is_admin: bool, requests_settings: bool) -> (AppRoute<P>, bool) {
    if !is_admin && (route is Settings || requests_settings) {
        (AppRoute::Library, true)
    } else {
        (route, false)
    }
}

/// The answer to loading the account: signed in (with the token from the
/// session cookie, or none), signed out when the session is not found (the
/// capabilities are forgotten), or failed with the error's text.
pub fn on_account_loaded<A, C, P>(
    gate: Gate<A, C, P>,
    loaded: Result<(A, bool), ApiError>,
    csrf_cookie: Option<String>,
    requests_settings: bool,
) -> (r: (Gate<A, C, P>, bool))
    ensures
        loaded matches Ok((account, is_admin)) ==> {
            &&& r.0.phase == AccountPhase::<A>::SignedIn(account)
            &&& r.0.csrf@ == match csrf_cookie { Some(c) => c@, None => Seq::<char>::empty() }
            &&& r.0.capabilities == gate.capabilities
            &&& (r.0.route, r.1) == route_on_sign_in_spec(gate.route, is_admin, requests_settings)
        },
        loaded matches Err(ApiError::Unauthorized) ==> {
            &&& r.0.phase is SignedOut
            &&& r.0.csrf == gate.csrf
            &&& r.0.capabilities is None
            &&& r.0.route == gate.route
            &&& !r.1
        },
        loaded matches Err(ApiError::Message(m)) ==> {
            &&& r.0.phase matches AccountPhase::Failed(t) && t@ == m@
            &&& r.0.csrf == gate.csrf
            &&& r.0.capabilities == gate.capabilities
            &&& r.0.route == gate.route
            &&& !r.1
        },
{
    match loaded {
        Ok((account, is_admin)) => {
            let csrf = match csrf_cookie {
                Some(c) => c,
                None => String::new(),
            };
            on_signed_in(gate, account, is_admin, csrf, requests_settings)
        },
        Err(ApiError::Unauthorized) => (Gate { phase: AccountPhase::SignedOut, csrf: gate.csrf, capabilities: None, route: gate.route }, false),
        Err(ApiError::Message(m)) => {
            let text = string_from_chars(&chars_of(m.as_str()));
            (Gate { phase: AccountPhase::Failed(text), ..gate }, false)
        },
    }
}

/// An account that does not administer the instance is never left on the
/// settings after signing in, whatever route or address it asked for.
pub proof fn law_settings_only_for_admins<P>(route: AppRoute<P>, requests_settings: bool)
    ensures
        !(route_on_sign_in_spec(route, false, requests_settings).0 is Settings),
{
}

} // verus!
