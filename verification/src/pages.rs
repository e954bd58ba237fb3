//! Decisions of the web client's routes and pages: which routes ask for a session, which
//! title each sets, what the home page shows, how the login exchange ends, and which URL a
//! search box asks.
use vstd::prelude::*;
use vstd::string::StringExecFns;
use crate::cookie::{session_cookie, session_cookie_text};
use crate::json::{Json, JsonView, flag_under, field_of};
use crate::text::{chars_of, has_char, lowercase_text, occurs_in, occurs_in_chars, to_lowercase};

verus! {

/// The routes of the web client.
pub enum Route {
    Login {},
    SessionLogin {},
    Dashboard {},
    SostenedorPortal {},
    RootDashboard {},
    ModuleManagerRoot {},
    Students {},
    StudentDetailPage { student_id: String },
    Attendance {},
    Grades {},
    Notifications {},
    Reports {},
    Finance {},
    Users {},
    Courses {},
    Enrollments {},
    Subjects {},
    Config {},
    Admission {},
    Hr {},
    HrDetail { employee_id: String },
    Import {},
    Corporations {},
    Agenda {},
    AcademicYears {},
    Audit {},
    GradeLevels {},
    Roles {},
    Classrooms {},
    Payroll {},
    ClientPortal {},
    EmployeePortal {},
    Sige {},
    Complaints {},
    Curriculum {},
    AdminPlans {},
    AdminContracts {},
    AdminPayments {},
    AdminSystem {},
}

/// Whether a route sends a visitor without a session token to the login page. The login
/// pages, the CSV import and the two routes that show their page directly do not.
pub open spec fn route_guarded(route: Route) -> bool {
    !(route is Login || route is SessionLogin || route is RootDashboard
        || route is StudentDetailPage || route is Import)
}

/// The page title that a route sets, if it sets one.
pub open spec fn route_title(route: Route) -> Option<Seq<char>> {
    match route {
        Route::Login {  } => Some("Iniciar Sesion"@),
        Route::SessionLogin {  } => Some("Iniciando sesión..."@),
        Route::Dashboard {  } => Some("Dashboard"@),
        Route::SostenedorPortal {  } => Some("Panel del Sostenedor"@),
        Route::RootDashboard {  } => None,
        Route::ModuleManagerRoot {  } => Some("Inicio"@),
        Route::Students {  } => Some("Gestion de Alumnos"@),
        Route::StudentDetailPage { .. } => None,
        Route::Attendance {  } => Some("Asistencia"@),
        Route::Grades {  } => Some("Calificaciones"@),
        Route::Notifications {  } => Some("Centro de Mensajeria"@),
        Route::Reports {  } => Some("Reportes"@),
        Route::Finance {  } => Some("Finanzas"@),
        Route::Users {  } => Some("Usuarios y Perfiles"@),
        Route::Courses {  } => Some("Cursos"@),
        Route::Enrollments {  } => Some("Matriculas"@),
        Route::Subjects {  } => Some("Asignaturas"@),
        Route::Config {  } => Some("Configuracion"@),
        Route::Admission {  } => Some("Admisiones"@),
        Route::Hr {  } => Some("Recursos Humanos"@),
        Route::HrDetail { .. } => Some("Detalle Empleado"@),
        Route::Import {  } => Some("Importacion CSV"@),
        Route::Corporations {  } => Some("Corporaciones y Colegios"@),
        Route::Agenda {  } => Some("Agenda Escolar"@),
        Route::AcademicYears {  } => Some("Anos Academicos"@),
        Route::Audit {  } => Some("Auditoria"@),
        Route::GradeLevels {  } => Some("Niveles"@),
        Route::Roles {  } => Some("Roles y Permisos"@),
        Route::Classrooms {  } => Some("Salas"@),
        Route::Payroll {  } => Some("Remuneraciones"@),
        Route::ClientPortal {  } => Some("Portal de Licencia"@),
        Route::EmployeePortal {  } => Some("Mi Portal"@),
        Route::Sige {  } => Some("SIGE - Exportacion MINEDUC"@),
        Route::Complaints {  } => Some("Ley Karin - Canal de Denuncias"@),
        Route::Curriculum {  } => Some("Currículum Nacional"@),
        Route::AdminPlans {  } => Some("Planes - Root"@),
        Route::AdminContracts {  } => Some("Contratos - Root"@),
        Route::AdminPayments {  } => Some("Pagos - Root"@),
        Route::AdminSystem {  } => Some("Sistema - Root"@),
    }
}

/// Signing in never asks for a session, and every page that sets its own title asks for
/// one, the sign-in pages and the CSV import aside: a visitor without a token reaches no
/// titled page of the school but those.
pub proof fn titled_pages_ask_for_a_session(route: Route)
    ensures
        !route_guarded(Route::Login {  }),
        !route_guarded(Route::SessionLogin {  }),
        route_title(route) is Some && !(route is Login || route is SessionLogin || route is Import)
            ==> route_guarded(route),
{
}

impl Route {
    /// Whether the route asks for a session before it shows its page.
    pub fn guarded(&self) -> (r: bool)
        ensures
            r == route_guarded(*self),
            route_title(*self) is Some && !(*self is Login || *self is SessionLogin || *self is Import) ==> r,
    {
        proof {
            titled_pages_ask_for_a_session(*self);
        }
        match self {
            Route::Login {  } | Route::SessionLogin {  } | Route::RootDashboard {  }
            | Route::StudentDetailPage { .. } | Route::Import {  } => false,
            _ => true,
        }
    }

    /// The page title that the route sets, if any.
    pub fn title(&self) -> (r: Option<&'static str>)
        ensures
            match r {
                Some(t) => route_title(*self) == Some(t@),
                None => route_title(*self) is None,
            },
    {
        match self {
            Route::Login {  } => Some("Iniciar Sesion"),
            Route::SessionLogin {  } => Some("Iniciando sesión..."),
            Route::Dashboard {  } => Some("Dashboard"),
            Route::SostenedorPortal {  } => Some("Panel del Sostenedor"),
            Route::RootDashboard {  } => None,
            Route::ModuleManagerRoot {  } => Some("Inicio"),
            Route::Students {  } => Some("Gestion de Alumnos"),
            Route::StudentDetailPage { .. } => None,
            Route::Attendance {  } => Some("Asistencia"),
            Route::Grades {  } => Some("Calificaciones"),
            Route::Notifications {  } => Some("Centro de Mensajeria"),
            Route::Reports {  } => Some("Reportes"),
            Route::Finance {  } => Some("Finanzas"),
            Route::Users {  } => Some("Usuarios y Perfiles"),
            Route::Courses {  } => Some("Cursos"),
            Route::Enrollments {  } => Some("Matriculas"),
            Route::Subjects {  } => Some("Asignaturas"),
            Route::Config {  } => Some("Configuracion"),
            Route::Admission {  } => Some("Admisiones"),
            Route::Hr {  } => Some("Recursos Humanos"),
            Route::HrDetail { .. } => Some("Detalle Empleado"),
            Route::Import {  } => Some("Importacion CSV"),
            Route::Corporations {  } => Some("Corporaciones y Colegios"),
            Route::Agenda {  } => Some("Agenda Escolar"),
            Route::AcademicYears {  } => Some("Anos Academicos"),
            Route::Audit {  } => Some("Auditoria"),
            Route::GradeLevels {  } => Some("Niveles"),
            Route::Roles {  } => Some("Roles y Permisos"),
            Route::Classrooms {  } => Some("Salas"),
            Route::Payroll {  } => Some("Remuneraciones"),
            Route::ClientPortal {  } => Some("Portal de Licencia"),
            Route::EmployeePortal {  } => Some("Mi Portal"),
            Route::Sige {  } => Some("SIGE - Exportacion MINEDUC"),
            Route::Complaints {  } => Some("Ley Karin - Canal de Denuncias"),
            Route::Curriculum {  } => Some("Currículum Nacional"),
            Route::AdminPlans {  } => Some("Planes - Root"),
            Route::AdminContracts {  } => Some("Contratos - Root"),
            Route::AdminPayments {  } => Some("Pagos - Root"),
            Route::AdminSystem {  } => Some("Sistema - Root"),
        }
    }
}

/// What the home route shows.
pub enum HomeView {
    /// The preferences have not arrived, or asking for them failed.
    Loading,
    /// The module tiles.
    Modules,
    /// Go to the dashboard now, and remember that this was done.
    Redirect,
    /// The dashboard is on its way.
    Redirecting,
}

/// Whether the user's preferences ask for the module tiles: their `show_module_manager`
/// boolean, true when it is missing.
pub open spec fn shows_modules(prefs: JsonView) -> bool {
    match flag_under(prefs, "show_module_manager"@) {
        Some(b) => b,
        None => true,
    }
}

/// The module tiles are shown unless the preferences turn them off: when the preference
/// is missing or true they are shown, and only an explicit `false` hides them.
pub proof fn preferences_choose_the_home_page(prefs: JsonView)
    ensures
        flag_under(prefs, "show_module_manager"@) is None ==> shows_modules(prefs),
        flag_under(prefs, "show_module_manager"@) == Some(true) ==> shows_modules(prefs),
        flag_under(prefs, "show_module_manager"@) == Some(false) ==> !shows_modules(prefs),
{
}

/// What the home route shows, given the answer about the user's preferences and whether
/// it already redirected.
pub fn home_view(prefs: &Option<Result<Json, String>>, redirected: bool) -> (r: HomeView)
    ensures
        r == match *prefs {
            Some(Ok(d)) => if shows_modules(d@) {
                HomeView::Modules
            } else if !redirected {
                HomeView::Redirect
            } else {
                HomeView::Redirecting
            },
            _ => HomeView::Loading,
        },
        prefs matches Some(Ok(d)) && flag_under(d@, "show_module_manager"@) is None ==> r is Modules,
        prefs matches Some(Ok(d)) && flag_under(d@, "show_module_manager"@) == Some(true) ==> r is Modules,
        prefs matches Some(Ok(d)) && flag_under(d@, "show_module_manager"@) == Some(false) ==> (r is Redirect
            <==> !redirected),
{
    match prefs {
        Some(Ok(data)) => {
            let show = match crate::json::flag_field(data, "show_module_manager") {
                Some(b) => b,
                None => true,
            };
            if show {
                HomeView::Modules
            } else if !redirected {
                HomeView::Redirect
            } else {
                HomeView::Redirecting
            }
        },
        _ => HomeView::Loading,
    }
}

/// How the exchange of a login code ends.
pub enum LoginOutcome {
    /// Store this cookie and go to the start page.
    SignIn(String),
    /// The answer has no token: nothing happens.
    Stay,
    /// Go back to the login page with an error.
    Fail,
}

/// The token of an exchange answer: its `token` member when that is a string.
pub open spec fn answer_token(data: JsonView) -> Option<Seq<char>> {
    match field_of(data, "token"@) {
        Some(JsonView::Str(t)) => Some(t),
        _ => None,
    }
}

/// How the exchange of a login code ends, given the server's answer: a token gives the
/// session cookie for it, an answer without one changes nothing, and a failure or no
/// answer at all goes back to the login page.
pub fn login_outcome(result: &Result<Option<Json>, String>) -> (r: LoginOutcome)
    ensures
        match *result {
            Ok(Some(data)) => match answer_token(data@) {
                Some(t) => r matches LoginOutcome::SignIn(c) && c@ == session_cookie_text(t),
                None => r is Stay,
            },
            _ => r is Fail,
        },
        match *result {
            Ok(Some(data)) => match field_of(data@, "token"@) {
                Some(JsonView::Str(t)) => r matches LoginOutcome::SignIn(c) && c@ == session_cookie_text(t),
                _ => r is Stay,
            },
            _ => true,
        },
{
    match result {
        Ok(Some(data)) => match data.get("token") {
            Some(Json::Str(t)) => LoginOutcome::SignIn(session_cookie(t.as_str())),
            _ => LoginOutcome::Stay,
        },
        _ => LoginOutcome::Fail,
    }
}

/// The URL that a search box asks for `query`: none for an empty query, otherwise the
/// list URL with `search=` and the query, after `&` when the URL already has a `?` and
/// after `?` when not.
pub fn search_request_url(fetch_url: &str, query: &str) -> (r: Option<String>)
    ensures
        query@.len() == 0 ==> r is None,
        query@.len() > 0 ==> (r matches Some(u) && u@ == fetch_url@ + (if has_char(
            fetch_url@,
            '?',
        ) {
            "&"@
        } else {
            "?"@
        }) + "search="@ + query@),
{
    if query.is_empty() {
        return None;
    }
    let cs = chars_of(fetch_url);
    let mut has_q = false;
    let mut i: usize = 0;
    while i < cs.len()
        invariant
            i <= cs@.len(),
            has_q == exists|j: int| 0 <= j < i && cs@[j] == '?',
        decreases cs@.len() - i,
    {
        if cs[i] == '?' {
            has_q = true;
        }
        i = i + 1;
    }
    assert(has_q == has_char(fetch_url@, '?'));
    let mut u = String::from_str(fetch_url);
    if has_q {
        u.append("&");
    } else {
        u.append("?");
    }
    u.append("search=");
    u.append(query);
    Some(u)
}

/// The class of a KPI card's value by the card's color: green cards read as success,
/// orange ones as warning, purple and cyan ones as information, and any other as primary.
pub open spec fn kpi_class_text(color: Option<Seq<char>>) -> Seq<char> {
    match color {
        Some(c) => if c == "#66bb6a"@ {
            "kpi-value success"@
        } else if c == "#ff7043"@ || c == "#ffa726"@ {
            "kpi-value warning"@
        } else if c == "#ab47bc"@ || c == "#26c6da"@ {
            "kpi-value info"@
        } else {
            "kpi-value primary"@
        },
        None => "kpi-value primary"@,
    }
}

/// Each card color has its class: a card reads as warning exactly when it is one of the
/// two oranges (`#ff7043`, `#ffa726`), as success exactly when it is the green
/// (`#66bb6a`), as information exactly when it is the purple (`#ab47bc`) or the cyan
/// (`#26c6da`), and as primary for every other color and for a card without one.
pub proof fn kpi_class_by_color(c: Seq<char>)
    ensures
        (kpi_class_text(Some(c)) == "kpi-value warning"@) <==> (c == "#ff7043"@ || c == "#ffa726"@),
        (kpi_class_text(Some(c)) == "kpi-value success"@) <==> c == "#66bb6a"@,
        (kpi_class_text(Some(c)) == "kpi-value info"@) <==> (c == "#ab47bc"@ || c == "#26c6da"@),
        (kpi_class_text(Some(c)) == "kpi-value primary"@) <==> !(c == "#66bb6a"@ || c == "#ff7043"@
            || c == "#ffa726"@ || c == "#ab47bc"@ || c == "#26c6da"@),
        kpi_class_text(None) == "kpi-value primary"@,
{
    reveal_strlit("kpi-value warning");
    reveal_strlit("kpi-value success");
    reveal_strlit("kpi-value info");
    reveal_strlit("kpi-value primary");
    reveal_strlit("#66bb6a");
    reveal_strlit("#ff7043");
    reveal_strlit("#ffa726");
    reveal_strlit("#ab47bc");
    reveal_strlit("#26c6da");
    assert("kpi-value warning"@ != "kpi-value success"@) by {
        assert("kpi-value warning"@[10] != "kpi-value success"@[10]);
    }
    assert("kpi-value warning"@ != "kpi-value info"@) by {
        assert("kpi-value warning"@[10] != "kpi-value info"@[10]);
    }
    assert("kpi-value warning"@ != "kpi-value primary"@) by {
        assert("kpi-value warning"@[10] != "kpi-value primary"@[10]);
    }
    assert("kpi-value success"@ != "kpi-value info"@) by {
        assert("kpi-value success"@[10] != "kpi-value info"@[10]);
    }
    assert("kpi-value success"@ != "kpi-value primary"@) by {
        assert("kpi-value success"@[10] != "kpi-value primary"@[10]);
    }
    assert("kpi-value info"@ != "kpi-value primary"@) by {
        assert("kpi-value info"@[10] != "kpi-value primary"@[10]);
    }
    assert("#ff7043"@ != "#66bb6a"@) by {
        assert("#ff7043"@[1] != "#66bb6a"@[1]);
    }
    assert("#ffa726"@ != "#66bb6a"@) by {
        assert("#ffa726"@[1] != "#66bb6a"@[1]);
    }
    assert("#ab47bc"@ != "#66bb6a"@) by {
        assert("#ab47bc"@[1] != "#66bb6a"@[1]);
    }
    assert("#26c6da"@ != "#66bb6a"@) by {
        assert("#26c6da"@[1] != "#66bb6a"@[1]);
    }
    assert("#ab47bc"@ != "#ff7043"@) by {
        assert("#ab47bc"@[1] != "#ff7043"@[1]);
    }
    assert("#ab47bc"@ != "#ffa726"@) by {
        assert("#ab47bc"@[1] != "#ffa726"@[1]);
    }
    assert("#26c6da"@ != "#ff7043"@) by {
        assert("#26c6da"@[1] != "#ff7043"@[1]);
    }
    assert("#26c6da"@ != "#ffa726"@) by {
        assert("#26c6da"@[1] != "#ffa726"@[1]);
    }
}

/// The class of a KPI card's value.
pub fn kpi_value_class(color: &Option<String>) -> (r: String)
    ensures
        r@ == kpi_class_text(match color {
            Some(c) => Some(c@),
            None => None,
        }),
        color matches Some(c) ==> ((r@ == "kpi-value warning"@) <==> (c@ == "#ff7043"@ || c@
            == "#ffa726"@)),
        color matches Some(c) ==> ((r@ == "kpi-value success"@) <==> c@ == "#66bb6a"@),
        color matches Some(c) ==> ((r@ == "kpi-value info"@) <==> (c@ == "#ab47bc"@ || c@
            == "#26c6da"@)),
        color is None ==> r@ == "kpi-value primary"@,
{
    proof {
        match color {
            Some(c) => kpi_class_by_color(c@),
            None => kpi_class_by_color(Seq::<char>::empty()),
        }
    }
    match color {
        Some(c) => {
            let c = c.as_str();
            if crate::text::same_text(c, "#66bb6a") {
                String::from_str("kpi-value success")
            } else if crate::text::same_text(c, "#ff7043") || crate::text::same_text(c, "#ffa726") {
                String::from_str("kpi-value warning")
            } else if crate::text::same_text(c, "#ab47bc") || crate::text::same_text(c, "#26c6da") {
                String::from_str("kpi-value info")
            } else {
                String::from_str("kpi-value primary")
            }
        },
        None => String::from_str("kpi-value primary"),
    }
}

/// The error shown when the login form is sent with an empty email or password, if it is.
pub fn login_form_error(email: &str, password: &str) -> (r: Option<String>)
    ensures
        (email@.len() == 0 || password@.len() == 0) ==> (r matches Some(m) && m@
            == "Email y contrase\u{f1}a son obligatorios"@),
        (email@.len() > 0 && password@.len() > 0) ==> r is None,
{
    if email.is_empty() || password.is_empty() {
        Some(String::from_str("Email y contrase\u{f1}a son obligatorios"))
    } else {
        None
    }
}

/// How a password login ends.
pub enum PasswordLogin {
    /// The answer holds a token: go to the start page.
    Enter,
    /// Stay on the login page and show this message.
    Error(String),
}

/// How a password login ends, given the server's answer: an answer with a `token` member
/// (of any value) lets the user in; another answer shows its `error` text, or
/// `Credenciales inválidas`; a failed request shows its error.
pub fn password_login_outcome(result: &Result<Json, String>) -> (r: PasswordLogin)
    ensures
        match *result {
            Ok(resp) => if field_of(resp@, "token"@) is Some {
                r is Enter
            } else {
                r matches PasswordLogin::Error(m) && m@ == (match field_of(resp@, "error"@) {
                    Some(JsonView::Str(e)) => e,
                    _ => "Credenciales inv\u{e1}lidas"@,
                })
            },
            Err(e) => r matches PasswordLogin::Error(m) && m@ == e@,
        },
{
    match result {
        Ok(resp) => match resp.get("token") {
            Some(_) => PasswordLogin::Enter,
            None => PasswordLogin::Error(crate::json::text_field_or(resp, "error", "Credenciales inv\u{e1}lidas")),
        },
        Err(e) => PasswordLogin::Error(e.clone()),
    }
}

/// Whether a module whose lower-case name is `lower_name` is listed for a search whose
/// lower-case form is `lower_query`: the search is empty or occurs in the name.
pub open spec fn listed_lower(lower_name: Seq<char>, lower_query: Seq<char>) -> bool {
    lower_query.len() == 0 || occurs_in(lower_name, lower_query)
}

/// Whether the module grid lists module `m` while the search box holds `q`.
pub open spec fn module_listed(m: JsonView, q: Seq<char>) -> bool {
    listed_lower(lowercase_text(crate::json::text_or_empty(m, "name"@)), lowercase_text(q))
}

/// Whether a module whose lower-case name is `lower_name` is listed for a search whose
/// lower-case form is `lower_query`.
pub fn module_listed_lower(lower_name: &str, lower_query: &str) -> (r: bool)
    ensures
        r == listed_lower(lower_name@, lower_query@),
{
    lower_query.is_empty() || occurs_in_chars(&chars_of(lower_name), &chars_of(lower_query))
}

/// The modules of `items` that the grid lists for search `q`, in order.
pub open spec fn listed_modules(items: Seq<JsonView>, q: Seq<char>) -> Seq<JsonView>
    decreases items.len(),
{
    if items.len() == 0 {
        Seq::empty()
    } else {
        let front = listed_modules(items.drop_last(), q);
        if module_listed(items.last(), q) {
            front.push(items.last())
        } else {
            front
        }
    }
}

/// The modules the grid lists for search `query`, among those of answer `data`.
pub fn visible_modules(data: &Json, query: &str) -> (r: Vec<Json>)
    ensures
        crate::json::items_view(r@) == listed_modules(
            match crate::json::items_under(data@, "modules"@) {
                Some(xs) => xs,
                None => Seq::empty(),
            },
            query@,
        ),
{
    let mut out: Vec<Json> = Vec::new();
    proof {
        crate::json::lemma_items_view(out@);
    }
    let q = to_lowercase(query);
    match data.get("modules") {
        Some(Json::Array(xs)) => {
            let ghost iv = crate::json::items_view(xs@);
            proof {
                crate::json::lemma_items_view(xs@);
            }
            let mut i: usize = 0;
            while i < xs.len()
                invariant
                    iv == crate::json::items_view(xs@),
                    iv == xs@.map_values(|j: Json| j@),
                    q@ == lowercase_text(query@),
                    i <= xs@.len(),
                    crate::json::items_view(out@) == listed_modules(iv.take(i as int), query@),
                decreases xs@.len() - i,
            {
                assert(iv.take(i + 1).drop_last() =~= iv.take(i as int));
                assert(iv.take(i + 1).last() == xs@[i as int]@);
                let name = crate::json::text_field(&xs[i], "name");
                let lname = to_lowercase(name.as_str());
                let listed = module_listed_lower(lname.as_str(), q.as_str());
                if listed {
                    let ghost before = out@;
                    out.push(xs[i].duplicate());
                    proof {
                        crate::json::lemma_items_view(before);
                        crate::json::lemma_items_view(out@);
                        assert(crate::json::items_view(out@) =~= crate::json::items_view(before).push(
                            xs@[i as int]@,
                        ));
                    }
                }
                i = i + 1;
            }
            assert(iv.take(xs@.len() as int) =~= iv);
        },
        _ => {},
    }
    out
}

/// What clicking a module's star sends: the address of the module's favorite mark and the
/// body that sets it to the opposite of what it is (a module is not a favorite unless it
/// says so).
pub fn favorite_toggle(module: &Json) -> (r: (String, Json))
    ensures
        r.0@ == "/api/user/favorites/"@ + crate::json::text_or_empty(module@, "id"@),
        r.1@ == JsonView::Object(
            seq![
                ("module_id"@, JsonView::Str(crate::json::text_or_empty(module@, "id"@))),
                ("favorite"@, JsonView::Bool(!(flag_under(module@, "is_favorite"@) == Some(true)))),
            ],
        ),
{
    let id = crate::json::text_field(module, "id");
    let is_fav = match module.get("is_favorite") {
        Some(Json::Bool(b)) => *b,
        _ => false,
    };
    let mut url = String::from_str("/api/user/favorites/");
    url.append(id.as_str());
    let mut ms: Vec<(String, Json)> = Vec::new();
    ms.push((String::from_str("module_id"), Json::Str(id)));
    ms.push((String::from_str("favorite"), Json::Bool(!is_fav)));
    let ghost mv = ms@;
    proof {
        crate::json::lemma_members_view(mv);
    }
    assert(crate::json::members_view(mv) =~~= seq![
        ("module_id"@, JsonView::Str(crate::json::text_or_empty(module@, "id"@))),
        ("favorite"@, JsonView::Bool(!(flag_under(module@, "is_favorite"@) == Some(true)))),
    ]);
    (url, Json::Object(ms))
}

/// The class of an agenda event's kind: `event-type-` and the lower-case kind (`Evento`
/// when missing).
pub fn event_type_class(event: &Json) -> (r: String)
    ensures
        r@ == "event-type-"@ + lowercase_text(
            match field_of(event@, "event_type"@) {
                Some(JsonView::Str(t)) => t,
                _ => "Evento"@,
            },
        ),
{
    let kind = crate::json::text_field_or(event, "event_type", "Evento");
    let lower = to_lowercase(kind.as_str());
    let mut r = String::from_str("event-type-");
    r.append(lower.as_str());
    r
}

} // verus!
