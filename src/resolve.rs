//! The decisions of one resolution, as a state machine.
//!
//! A resolution tries the mobile layout and then the desktop layout. Each
//! step hands the caller a request to perform; the caller answers with an
//! event (the page text, the decoded ajax answer, the redirect location of a
//! probe, or a transport failure) and gets the next step.
use vstd::prelude::*;
use vstd::string::*;

use crate::extract::{
    extract, first_capture_of, result_view, DATA_PATTERN, IFRAME_PATTERN, MOBILE_ID_PATTERN,
    MOBILE_PATH_PATTERN, MOBILE_QUERY_PATTERN, PASSWORD_DATA_PATTERN,
};
use crate::params::{body_spec, reconstruct};
use crate::ResolveError;

verus! {

/// The host that serves the share pages.
pub const ORIGIN: &'static str = "https://lanzoux.com";

/// The user agent sent with the desktop layout's requests.
pub const DESKTOP_USER_AGENT: &'static str = "Mozilla/5.0 (Windows NT 10.0; Win64; x64) AppleWebKit/537.36 (KHTML, like Gecko) Chrome/89.0.4389.114 Safari/537.36";

/// The user agent sent with the mobile layout's requests.
pub const MOBILE_USER_AGENT: &'static str = "Mozilla/5.0 (Linux; Android 8.0; Pixel 2 Build/OPD3.170816.012) AppleWebKit/537.36 (KHTML, like Gecko) Chrome/89.0.4389.114 Mobile Safari/537.36";

/// The language preference sent with every request.
pub const ACCEPT_LANGUAGE: &'static str = "zh-CN,zh;q=0.9,en;q=0.8";

/// The content type of the form posted to the ajax endpoint.
pub const FORM_CONTENT_TYPE: &'static str = "application/x-www-form-urlencoded";

pub const PATH_SEPARATOR: &'static str = "/";

/// The path prefix of the mobile pages.
pub const MOBILE_PREFIX: &'static str = "/tp/";

/// The ajax endpoint that answers a posted form with a `FakeResponse`.
pub const AJAX_PATH: &'static str = "/ajaxm.php";

/// What joins the host and the path of a `FakeResponse`.
pub const FILE_INFIX: &'static str = "/file/";

/// What is appended to a mobile page, before the password, so that the
/// password reads as a variable of the page.
pub const PASSWORD_VAR_HEAD: &'static str = ";var pwd='";

pub const PASSWORD_VAR_TAIL: &'static str = "'";

/// The two site layouts.
#[derive(Clone, Copy, Debug, PartialEq, Eq, Structural)]
pub enum Layout {
    Desktop,
    Mobile,
}

/// The user agent of a layout.
pub fn user_agent(layout: Layout) -> (r: &'static str)
    ensures
        r@ == (if layout == Layout::Desktop {
            DESKTOP_USER_AGENT@
        } else {
            MOBILE_USER_AGENT@
        }),
{
    match layout {
        Layout::Desktop => DESKTOP_USER_AGENT,
        Layout::Mobile => MOBILE_USER_AGENT,
    }
}

/// A file to resolve: its share id and its password, empty where there is
/// none.
#[derive(Clone, Debug)]
pub struct FileRequest {
    pub id: String,
    pub password: String,
}

/// The indirection record that the ajax endpoint answers with.
#[derive(Clone, Debug)]
pub struct FakeResponse {
    pub dom: String,
    pub url: String,
}

/// A request for the caller to perform with the layout's headers.
#[derive(Clone, Debug)]
pub enum Request {
    /// GET `url` and answer with its text.
    Get { layout: Layout, url: String },
    /// POST the form `body` to `url` and answer with its decoded JSON.
    Post { layout: Layout, url: String, body: String },
    /// HEAD `url` without following redirects and answer with the location
    /// header.
    Probe { layout: Layout, url: String },
}

/// The caller's answer to a request.
#[derive(Clone, Debug)]
pub enum Event {
    Page(String),
    Fake(FakeResponse),
    Probed(Option<String>),
    /// The request could not be completed or its answer not decoded.
    Failed,
}

/// What a resolution asks for next.
#[derive(Clone, Debug)]
pub enum Step {
    Send(Request),
    Resolved(String),
    Failed(ResolveError),
}

/// Where a resolution stands.
#[derive(Clone, Copy, Debug, PartialEq, Eq, Structural)]
pub enum Stage {
    /// Waiting for the page of a share code, to find its mobile id.
    MobileIdPage,
    /// Waiting for the mobile page.
    MobilePage,
    /// Waiting for the desktop page.
    DesktopPage,
    /// Waiting for the page of the desktop page's iframe.
    DesktopFrame,
    /// Waiting for the ajax answer.
    AwaitFake,
    /// Waiting for the probe's redirect location.
    Probing,
    Finished,
}

/// One resolution of a file.
#[derive(Clone, Debug)]
pub struct Resolution {
    pub file: FileRequest,
    pub layout: Layout,
    pub stage: Stage,
}

pub ghost enum RequestSpec {
    Get { layout: Layout, url: Seq<char> },
    Post { layout: Layout, url: Seq<char>, body: Seq<char> },
    Probe { layout: Layout, url: Seq<char> },
}

pub ghost enum EventSpec {
    Page(Seq<char>),
    Fake(Seq<char>, Seq<char>),
    Probed(Option<Seq<char>>),
    Failed,
}

pub ghost enum StepSpec {
    Send(RequestSpec),
    Resolved(Seq<char>),
    Failed(ResolveError),
}

pub ghost struct ResolutionSpec {
    pub id: Seq<char>,
    pub password: Seq<char>,
    pub layout: Layout,
    pub stage: Stage,
}

impl View for Request {
    type V = RequestSpec;

    open spec fn view(&self) -> RequestSpec {
        match self {
            Request::Get { layout, url } => RequestSpec::Get { layout: *layout, url: url@ },
            Request::Post { layout, url, body } => RequestSpec::Post {
                layout: *layout,
                url: url@,
                body: body@,
            },
            Request::Probe { layout, url } => RequestSpec::Probe { layout: *layout, url: url@ },
        }
    }
}

impl View for Event {
    type V = EventSpec;

    open spec fn view(&self) -> EventSpec {
        match self {
            Event::Page(t) => EventSpec::Page(t@),
            Event::Fake(f) => EventSpec::Fake(f.dom@, f.url@),
            Event::Probed(Some(l)) => EventSpec::Probed(Some(l@)),
            Event::Probed(None) => EventSpec::Probed(None),
            Event::Failed => EventSpec::Failed,
        }
    }
}

impl View for Step {
    type V = StepSpec;

    open spec fn view(&self) -> StepSpec {
        match self {
            Step::Send(r) => StepSpec::Send(r@),
            Step::Resolved(l) => StepSpec::Resolved(l@),
            Step::Failed(e) => StepSpec::Failed(*e),
        }
    }
}

impl View for Resolution {
    type V = ResolutionSpec;

    open spec fn view(&self) -> ResolutionSpec {
        ResolutionSpec {
            id: self.file.id@,
            password: self.file.password@,
            layout: self.layout,
            stage: self.stage,
        }
    }
}

pub open spec fn page_url(id: Seq<char>) -> Seq<char> {
    ORIGIN@ + PATH_SEPARATOR@ + id
}

pub open spec fn mobile_url(id: Seq<char>) -> Seq<char> {
    ORIGIN@ + MOBILE_PREFIX@ + id
}

pub open spec fn ajax_url() -> Seq<char> {
    ORIGIN@ + AJAX_PATH@
}

/// The fake URL that a `FakeResponse` stands for.
pub open spec fn fake_url(dom: Seq<char>, url: Seq<char>) -> Seq<char> {
    dom + FILE_INFIX@ + url
}

/// A mobile page with the password added as a variable `pwd`.
pub open spec fn with_password(text: Seq<char>, password: Seq<char>) -> Seq<char> {
    text + PASSWORD_VAR_HEAD@ + password + PASSWORD_VAR_TAIL@
}

/// Whether `id` is already a mobile id.
pub open spec fn is_mobile_id(id: Seq<char>) -> bool {
    id.len() > 0 && id[0] == 'i'
}

pub open spec fn moved(s: ResolutionSpec, layout: Layout, stage: Stage) -> ResolutionSpec {
    ResolutionSpec { layout, stage, ..s }
}

/// The first step of a resolution: the mobile layout's first page.
pub open spec fn start_spec(id: Seq<char>, password: Seq<char>) -> (ResolutionSpec, StepSpec) {
    let s = ResolutionSpec { id, password, layout: Layout::Mobile, stage: Stage::MobilePage };
    if is_mobile_id(id) {
        (s, StepSpec::Send(RequestSpec::Get { layout: Layout::Mobile, url: mobile_url(id) }))
    } else {
        (
            moved(s, Layout::Mobile, Stage::MobileIdPage),
            StepSpec::Send(RequestSpec::Get { layout: Layout::Mobile, url: page_url(id) }),
        )
    }
}

/// The desktop layout's first step.
pub open spec fn desktop_start_spec(s: ResolutionSpec) -> (ResolutionSpec, StepSpec) {
    (
        moved(s, Layout::Desktop, Stage::DesktopPage),
        StepSpec::Send(RequestSpec::Get { layout: Layout::Desktop, url: page_url(s.id) }),
    )
}

/// A layout's attempt failed with `e`: the mobile layout gives way to the
/// desktop layout, and the desktop layout's failure ends the resolution.
pub open spec fn abandon_spec(s: ResolutionSpec, e: ResolveError) -> (ResolutionSpec, StepSpec) {
    if s.layout == Layout::Mobile {
        desktop_start_spec(s)
    } else {
        (moved(s, Layout::Desktop, Stage::Finished), StepSpec::Failed(e))
    }
}

pub open spec fn post_spec(s: ResolutionSpec, body: Seq<char>) -> (ResolutionSpec, StepSpec) {
    (
        moved(s, s.layout, Stage::AwaitFake),
        StepSpec::Send(RequestSpec::Post { layout: s.layout, url: ajax_url(), body }),
    )
}

pub open spec fn probe_spec(s: ResolutionSpec, url: Seq<char>) -> (ResolutionSpec, StepSpec) {
    (moved(s, s.layout, Stage::Probing), StepSpec::Send(RequestSpec::Probe { layout: s.layout, url }))
}

/// The step after a page of text in stage `s.stage`.
pub open spec fn page_step_spec(s: ResolutionSpec, t: Seq<char>) -> (ResolutionSpec, StepSpec) {
    match s.stage {
        Stage::MobileIdPage => match first_capture_of(t, MOBILE_ID_PATTERN@) {
            Some(mid) => (
                moved(s, Layout::Mobile, Stage::MobilePage),
                StepSpec::Send(RequestSpec::Get { layout: Layout::Mobile, url: mobile_url(mid) }),
            ),
            None => abandon_spec(s, ResolveError::PatternNotFound),
        },
        Stage::MobilePage => if s.password.len() == 0 {
            match (first_capture_of(t, MOBILE_PATH_PATTERN@), first_capture_of(t, MOBILE_QUERY_PATTERN@)) {
                (Some(p), Some(q)) => probe_spec(s, p + q),
                _ => abandon_spec(s, ResolveError::PatternNotFound),
            }
        } else {
            match body_spec(with_password(t, s.password)) {
                Ok(b) => post_spec(s, b),
                Err(e) => abandon_spec(s, e),
            }
        },
        Stage::DesktopPage => if s.password.len() == 0 {
            match first_capture_of(t, IFRAME_PATTERN@) {
                Some(src) => (
                    moved(s, Layout::Desktop, Stage::DesktopFrame),
                    StepSpec::Send(RequestSpec::Get { layout: Layout::Desktop, url: ORIGIN@ + src }),
                ),
                None => abandon_spec(s, ResolveError::PatternNotFound),
            }
        } else {
            match first_capture_of(t, PASSWORD_DATA_PATTERN@) {
                Some(c) => post_spec(s, c + s.password),
                None => abandon_spec(s, ResolveError::PatternNotFound),
            }
        },
        Stage::DesktopFrame => match body_spec(t) {
            Ok(b) => post_spec(s, b),
            Err(e) => abandon_spec(s, e),
        },
        _ => unexpected_spec(s),
    }
}

/// A failed request, or an event that the stage does not wait for: the
/// layout's attempt fails, or, once probing has begun, the resolution.
pub open spec fn unexpected_spec(s: ResolutionSpec) -> (ResolutionSpec, StepSpec) {
    match s.stage {
        Stage::Probing | Stage::Finished => (
            moved(s, s.layout, Stage::Finished),
            StepSpec::Failed(ResolveError::TransportError),
        ),
        _ => abandon_spec(s, ResolveError::TransportError),
    }
}

/// The step after event `e` in state `s`.
pub open spec fn step_spec(s: ResolutionSpec, e: EventSpec) -> (ResolutionSpec, StepSpec) {
    match e {
        EventSpec::Page(t) => page_step_spec(s, t),
        EventSpec::Fake(dom, url) => if s.stage == Stage::AwaitFake {
            probe_spec(s, fake_url(dom, url))
        } else {
            unexpected_spec(s)
        },
        EventSpec::Probed(loc) => if s.stage == Stage::Probing {
            match loc {
                Some(l) => (moved(s, s.layout, Stage::Finished), StepSpec::Resolved(l)),
                None => (
                    moved(s, s.layout, Stage::Finished),
                    StepSpec::Failed(ResolveError::RedirectHeaderMissing),
                ),
            }
        } else {
            unexpected_spec(s)
        },
        EventSpec::Failed => unexpected_spec(s),
    }
}

pub open spec fn is_post(st: StepSpec) -> bool {
    match st {
        StepSpec::Send(RequestSpec::Post { .. }) => true,
        _ => false,
    }
}

pub open spec fn is_probe(st: StepSpec) -> bool {
    match st {
        StepSpec::Send(RequestSpec::Probe { .. }) => true,
        _ => false,
    }
}

/// With a password, the desktop page's base payload `data : '<payload>'+pwd`
/// is posted as the form body with the password appended verbatim.
pub proof fn lemma_desktop_password_body(s: ResolutionSpec, t: Seq<char>, payload: Seq<char>)
    requires
        s.stage == Stage::DesktopPage,
        s.password.len() > 0,
        first_capture_of(t, PASSWORD_DATA_PATTERN@) == Some(payload),
    ensures
        step_spec(s, EventSpec::Page(t)).1 == StepSpec::Send(
            RequestSpec::Post { layout: s.layout, url: ajax_url(), body: payload + s.password },
        ),
{
}

/// The password decides the branch of a layout's page. Without one, the
/// desktop page never leads to a post and the mobile page never does either;
/// with one, the desktop page never leads to its iframe and the mobile page
/// never to a direct probe: each posts the payload that the password joins,
/// wherever that payload is found.
pub proof fn lemma_password_routes(s: ResolutionSpec, t: Seq<char>)
    ensures
        ({
            let (n, st) = step_spec(s, EventSpec::Page(t));
            &&& (s.stage == Stage::DesktopPage && s.password.len() == 0) ==> !is_post(st)
            &&& (s.stage == Stage::DesktopPage && s.password.len() > 0) ==> n.stage
                != Stage::DesktopFrame && (is_post(st) <==> first_capture_of(
                t,
                PASSWORD_DATA_PATTERN@,
            ) is Some)
            &&& (s.stage == Stage::MobilePage && s.password.len() == 0) ==> !is_post(st)
            &&& (s.stage == Stage::MobilePage && s.password.len() > 0) ==> !is_probe(st) && (
            is_post(st) <==> body_spec(with_password(t, s.password)) is Ok)
        }),
{
}

/// Whether `t` holds none of the markers that any stage looks for, also once
/// `password` is appended as a variable.
pub open spec fn holds_no_marker(t: Seq<char>, password: Seq<char>) -> bool {
    &&& first_capture_of(t, MOBILE_ID_PATTERN@) is None
    &&& first_capture_of(t, MOBILE_PATH_PATTERN@) is None
    &&& first_capture_of(t, IFRAME_PATTERN@) is None
    &&& first_capture_of(t, PASSWORD_DATA_PATTERN@) is None
    &&& first_capture_of(t, DATA_PATTERN@) is None
    &&& first_capture_of(with_password(t, password), DATA_PATTERN@) is None
}

/// A page without markers never yields a link: the mobile layout gives way
/// to the desktop layout's first page, and the desktop layout ends the
/// resolution with `PatternNotFound`.
pub proof fn lemma_no_marker_fails(s: ResolutionSpec, t: Seq<char>)
    requires
        holds_no_marker(t, s.password),
    ensures
        (s.layout == Layout::Mobile && (s.stage == Stage::MobileIdPage || s.stage
            == Stage::MobilePage)) ==> step_spec(s, EventSpec::Page(t)) == desktop_start_spec(s),
        (s.layout == Layout::Desktop && (s.stage == Stage::DesktopPage || s.stage
            == Stage::DesktopFrame)) ==> step_spec(s, EventSpec::Page(t)) == (
            moved(s, Layout::Desktop, Stage::Finished),
            StepSpec::Failed(ResolveError::PatternNotFound),
        ),
{
}

/// `a` followed by `b`.
pub fn concat(a: &str, b: &str) -> (r: String)
    ensures
        r@ == a@ + b@,
{
    let mut r = a.to_owned();
    r.append(b);
    r
}

/// The desktop-style page of share id `id`.
pub fn page_url_of(id: &str) -> (r: String)
    ensures
        r@ == page_url(id@),
{
    let mut r = concat(ORIGIN, PATH_SEPARATOR);
    r.append(id);
    r
}

/// The mobile page of mobile id `id`.
pub fn mobile_url_of(id: &str) -> (r: String)
    ensures
        r@ == mobile_url(id@),
{
    let mut r = concat(ORIGIN, MOBILE_PREFIX);
    r.append(id);
    r
}

/// The fake URL of an ajax answer: its host, `/file/`, its path.
pub fn fake_url_of(resp: &FakeResponse) -> (r: String)
    ensures
        r@ == fake_url(resp.dom@, resp.url@),
{
    let mut r = concat(resp.dom.as_str(), FILE_INFIX);
    r.append(resp.url.as_str());
    r
}

/// A mobile page's text with `var pwd='<password>'` appended.
pub fn with_password_of(text: &str, password: &str) -> (r: String)
    ensures
        r@ == with_password(text@, password@),
{
    let mut r = concat(text, PASSWORD_VAR_HEAD);
    r.append(password);
    r.append(PASSWORD_VAR_TAIL);
    r
}

/// Whether `id` already is a mobile id: it starts with `i`.
pub fn is_mobile_id_str(id: &str) -> (r: bool)
    ensures
        r == is_mobile_id(id@),
{
    id.unicode_len() > 0 && id.get_char(0) == 'i'
}

impl Resolution {
    /// Starts the resolution of `file` with the mobile layout.
    pub fn start(file: FileRequest) -> (r: (Resolution, Step))
        ensures
            (r.0@, r.1@) == start_spec(file.id@, file.password@),
    {
        if is_mobile_id_str(file.id.as_str()) {
            let url = mobile_url_of(file.id.as_str());
            (
                Resolution { file, layout: Layout::Mobile, stage: Stage::MobilePage },
                Step::Send(Request::Get { layout: Layout::Mobile, url }),
            )
        } else {
            let url = page_url_of(file.id.as_str());
            (
                Resolution { file, layout: Layout::Mobile, stage: Stage::MobileIdPage },
                Step::Send(Request::Get { layout: Layout::Mobile, url }),
            )
        }
    }

    fn abandon(&mut self, e: ResolveError) -> (r: Step)
        ensures
            (final(self)@, r@) == abandon_spec(old(self)@, e),
    {
        if self.layout == Layout::Mobile {
            self.layout = Layout::Desktop;
            self.stage = Stage::DesktopPage;
            Step::Send(Request::Get { layout: Layout::Desktop, url: page_url_of(self.file.id.as_str()) })
        } else {
            self.layout = Layout::Desktop;
            self.stage = Stage::Finished;
            Step::Failed(e)
        }
    }

    fn post(&mut self, body: String) -> (r: Step)
        ensures
            (final(self)@, r@) == post_spec(old(self)@, body@),
    {
        self.stage = Stage::AwaitFake;
        Step::Send(Request::Post { layout: self.layout, url: concat(ORIGIN, AJAX_PATH), body })
    }

    fn probe(&mut self, url: String) -> (r: Step)
        ensures
            (final(self)@, r@) == probe_spec(old(self)@, url@),
    {
        self.stage = Stage::Probing;
        Step::Send(Request::Probe { layout: self.layout, url })
    }

    fn unexpected(&mut self) -> (r: Step)
        ensures
            (final(self)@, r@) == unexpected_spec(old(self)@),
    {
        match self.stage {
            Stage::Probing | Stage::Finished => {
                self.stage = Stage::Finished;
                Step::Failed(ResolveError::TransportError)
            },
            _ => self.abandon(ResolveError::TransportError),
        }
    }

    fn post_or_abandon(&mut self, body: Result<String, ResolveError>) -> (r: Step)
        ensures
            (final(self)@, r@) == (match result_view(body) {
                Ok(b) => post_spec(old(self)@, b),
                Err(e) => abandon_spec(old(self)@, e),
            }),
    {
        match body {
            Ok(b) => self.post(b),
            Err(e) => self.abandon(e),
        }
    }

    fn on_page(&mut self, t: &str) -> (r: Step)
        ensures
            (final(self)@, r@) == page_step_spec(old(self)@, t@),
    {
        let no_password = self.file.password.as_str().is_empty();
        match self.stage {
            Stage::MobileIdPage => match extract(t, MOBILE_ID_PATTERN) {
                Ok(mid) => {
                    self.layout = Layout::Mobile;
                    self.stage = Stage::MobilePage;
                    Step::Send(Request::Get { layout: Layout::Mobile, url: mobile_url_of(mid.as_str()) })
                },
                Err(_) => self.abandon(ResolveError::PatternNotFound),
            },
            Stage::MobilePage => if no_password {
                let path = extract(t, MOBILE_PATH_PATTERN);
                let query = extract(t, MOBILE_QUERY_PATTERN);
                match (path, query) {
                    (Ok(p), Ok(q)) => self.probe(concat(p.as_str(), q.as_str())),
                    _ => self.abandon(ResolveError::PatternNotFound),
                }
            } else {
                let augmented = with_password_of(t, self.file.password.as_str());
                let body = reconstruct(augmented.as_str());
                self.post_or_abandon(body)
            },
            Stage::DesktopPage => if no_password {
                match extract(t, IFRAME_PATTERN) {
                    Ok(src) => {
                        self.layout = Layout::Desktop;
                        self.stage = Stage::DesktopFrame;
                        Step::Send(Request::Get { layout: Layout::Desktop, url: concat(ORIGIN, src.as_str()) })
                    },
                    Err(_) => self.abandon(ResolveError::PatternNotFound),
                }
            } else {
                match extract(t, PASSWORD_DATA_PATTERN) {
                    Ok(c) => {
                        let body = concat(c.as_str(), self.file.password.as_str());
                        self.post(body)
                    },
                    Err(_) => self.abandon(ResolveError::PatternNotFound),
                }
            },
            Stage::DesktopFrame => {
                let body = reconstruct(t);
                self.post_or_abandon(body)
            },
            _ => self.unexpected(),
        }
    }

    /// The next step after the caller's answer `event` to the last request.
    pub fn on_event(&mut self, event: Event) -> (r: Step)
        ensures
            (final(self)@, r@) == step_spec(old(self)@, event@),
    {
        match event {
            Event::Page(t) => self.on_page(t.as_str()),
            Event::Fake(resp) => if self.stage == Stage::AwaitFake {
                self.probe(fake_url_of(&resp))
            } else {
                self.unexpected()
            },
            Event::Probed(loc) => if self.stage == Stage::Probing {
                self.stage = Stage::Finished;
                match loc {
                    Some(l) => Step::Resolved(l),
                    None => Step::Failed(ResolveError::RedirectHeaderMissing),
                }
            } else {
                self.unexpected()
            },
            Event::Failed => self.unexpected(),
        }
    }
}

} // verus!
