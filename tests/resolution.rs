use lanzou_resolve::resolve::{
    fake_url_of, mobile_url_of, page_url_of, user_agent, with_password_of, Event, FakeResponse,
    FileRequest, Layout, Request, Resolution, Stage, Step, DESKTOP_USER_AGENT, MOBILE_USER_AGENT,
};
use lanzou_resolve::ResolveError;

fn file(id: &str, password: &str) -> FileRequest {
    FileRequest { id: id.to_string(), password: password.to_string() }
}

fn page(text: &str) -> Event {
    Event::Page(text.to_string())
}

fn expect_get(step: Step) -> (Layout, String) {
    match step {
        Step::Send(Request::Get { layout, url }) => (layout, url),
        other => panic!("expected a GET, got {:?}", other),
    }
}

fn expect_post(step: Step) -> (Layout, String, String) {
    match step {
        Step::Send(Request::Post { layout, url, body }) => (layout, url, body),
        other => panic!("expected a POST, got {:?}", other),
    }
}

fn expect_probe(step: Step) -> (Layout, String) {
    match step {
        Step::Send(Request::Probe { layout, url }) => (layout, url),
        other => panic!("expected a probe, got {:?}", other),
    }
}

const MOBILE_PAGE: &str =
    "<script>\nvar link = 'http://example.com/abc';\nvar q = '?token=xyzxyzxyzxyzxyzxyzxyz';\n</script>";

#[test]
fn urls_are_built_on_the_origin() {
    assert_eq!(page_url_of("dkbdv7"), "https://lanzoux.com/dkbdv7");
    assert_eq!(mobile_url_of("i4wk2oh"), "https://lanzoux.com/tp/i4wk2oh");
    let resp = FakeResponse { dom: "https://d.example".to_string(), url: "?abc=1".to_string() };
    assert_eq!(fake_url_of(&resp), "https://d.example/file/?abc=1");
    assert_eq!(with_password_of("text", "pw"), "text;var pwd='pw'");
}

#[test]
fn user_agents_differ_by_layout() {
    assert_eq!(user_agent(Layout::Desktop), DESKTOP_USER_AGENT);
    assert_eq!(user_agent(Layout::Mobile), MOBILE_USER_AGENT);
    assert!(user_agent(Layout::Mobile).contains("Mobile"));
}

#[test]
fn mobile_id_goes_straight_to_mobile_page() {
    let (r, step) = Resolution::start(file("i4wk2oh", ""));
    assert_eq!(r.stage, Stage::MobilePage);
    assert_eq!(expect_get(step), (Layout::Mobile, "https://lanzoux.com/tp/i4wk2oh".to_string()));
}

#[test]
fn share_code_is_looked_up_for_mobile_id() {
    let (mut r, step) = Resolution::start(file("dkbdv7", ""));
    assert_eq!(r.stage, Stage::MobileIdPage);
    assert_eq!(expect_get(step), (Layout::Mobile, "https://lanzoux.com/dkbdv7".to_string()));
    let step = r.on_event(page("  <a> var u = 'tp/i123abc'"));
    assert_eq!(expect_get(step), (Layout::Mobile, "https://lanzoux.com/tp/i123abc".to_string()));
    assert_eq!(r.stage, Stage::MobilePage);
}

#[test]
fn mobile_page_without_password_probes_directly() {
    let (mut r, _) = Resolution::start(file("i4wk2oh", ""));
    let step = r.on_event(page(MOBILE_PAGE));
    let (layout, url) = expect_probe(step);
    assert_eq!(layout, Layout::Mobile);
    assert_eq!(url, "http://example.com/abc?token=xyzxyzxyzxyzxyzxyzxyz");
    let step = r.on_event(Event::Probed(Some("https://real.example/file123".to_string())));
    match step {
        Step::Resolved(link) => assert_eq!(link, "https://real.example/file123"),
        other => panic!("expected a link, got {:?}", other),
    }
    assert_eq!(r.stage, Stage::Finished);
}

#[test]
fn probe_without_location_fails() {
    let (mut r, _) = Resolution::start(file("i4wk2oh", ""));
    r.on_event(page(MOBILE_PAGE));
    match r.on_event(Event::Probed(None)) {
        Step::Failed(e) => assert_eq!(e, ResolveError::RedirectHeaderMissing),
        other => panic!("expected a failure, got {:?}", other),
    }
}

#[test]
fn mobile_page_with_password_posts_augmented_form() {
    let (mut r, _) = Resolution::start(file("i7tit9c", "6svq"));
    let text = "  x data : {'action':'downprocess', 'sign':sg, 'p':pwd}\nvar sg = 'S1';\n";
    let (layout, url, body) = expect_post(r.on_event(page(text)));
    assert_eq!(layout, Layout::Mobile);
    assert_eq!(url, "https://lanzoux.com/ajaxm.php");
    assert_eq!(body, "action=downprocess&sign=S1&p=6svq");
    assert_eq!(r.stage, Stage::AwaitFake);
    let resp = FakeResponse { dom: "https://d.example".to_string(), url: "?f=1".to_string() };
    let (_, url) = expect_probe(r.on_event(Event::Fake(resp)));
    assert_eq!(url, "https://d.example/file/?f=1");
}

#[test]
fn desktop_password_appends_to_payload() {
    let (mut r, _) = Resolution::start(file("abc", "pw!"));
    let step = r.on_event(page("no markers"));
    assert_eq!(expect_get(step), (Layout::Desktop, "https://lanzoux.com/abc".to_string()));
    let step = r.on_event(page("  js data : 'action=downprocess&sign=AB%2Fc&p='+pwd,"));
    let (layout, url, body) = expect_post(step);
    assert_eq!(layout, Layout::Desktop);
    assert_eq!(url, "https://lanzoux.com/ajaxm.php");
    assert_eq!(body, "action=downprocess&sign=AB%2Fc&p=pw!");
}

#[test]
fn desktop_without_password_follows_iframe() {
    let (mut r, _) = Resolution::start(file("abc", ""));
    r.on_event(Event::Failed);
    assert_eq!(r.layout, Layout::Desktop);
    let text = "<iframe class=\"ifr2\" name=\"1\" src=\"/fn?ABCDEFGHIJKLMNOPQRSTUVWX\" frameborder=\"0\">";
    let step = r.on_event(page(text));
    assert_eq!(
        expect_get(step),
        (Layout::Desktop, "https://lanzoux.com/fn?ABCDEFGHIJKLMNOPQRSTUVWX".to_string())
    );
    assert_eq!(r.stage, Stage::DesktopFrame);
    let frame = "  x data : {'action':'downprocess', 'signs':ajaxdata, 'ves':1}\nvar ajaxdata = '?ctdf';";
    let (_, _, body) = expect_post(r.on_event(page(frame)));
    assert_eq!(body, "action=downprocess&signs=%3Fctdf&ves=1");
}

#[test]
fn desktop_password_page_never_follows_iframe() {
    let (mut r, _) = Resolution::start(file("abc", "pw"));
    r.on_event(Event::Failed);
    let text = "<iframe src=\"/fn?ABCDEFGHIJKLMNOPQRSTUVWX\" frameborder=\"0\">";
    match r.on_event(page(text)) {
        Step::Failed(e) => assert_eq!(e, ResolveError::PatternNotFound),
        other => panic!("expected a failure, got {:?}", other),
    }
}

#[test]
fn no_markers_anywhere_fails_with_pattern_not_found() {
    let (mut r, step) = Resolution::start(file("dkbdv7", ""));
    expect_get(step);
    let step = r.on_event(page("<html>nothing</html>"));
    assert_eq!(expect_get(step), (Layout::Desktop, "https://lanzoux.com/dkbdv7".to_string()));
    match r.on_event(page("<html>nothing</html>")) {
        Step::Failed(e) => assert_eq!(e, ResolveError::PatternNotFound),
        other => panic!("expected a failure, got {:?}", other),
    }
    assert_eq!(r.stage, Stage::Finished);
}

#[test]
fn malformed_fragment_fails_the_desktop_layout() {
    let (mut r, _) = Resolution::start(file("abc", ""));
    r.on_event(Event::Failed);
    r.on_event(page("<iframe src=\"/fn?ABCDEFGHIJKLMNOPQRSTUVWX\" frameborder"));
    match r.on_event(page("  x data : {broken}")) {
        Step::Failed(e) => assert_eq!(e, ResolveError::MalformedFragment),
        other => panic!("expected a failure, got {:?}", other),
    }
}

#[test]
fn transport_failure_on_desktop_ends_resolution() {
    let (mut r, _) = Resolution::start(file("abc", ""));
    r.on_event(Event::Failed);
    match r.on_event(Event::Failed) {
        Step::Failed(e) => assert_eq!(e, ResolveError::TransportError),
        other => panic!("expected a failure, got {:?}", other),
    }
}
