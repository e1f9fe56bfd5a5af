use session_fragments::AppError;
use session_fragments::components::CountButtonTemplate;
use session_fragments::components::NameFromTemplate;
use session_fragments::components::NameHeaderTemplate;
use session_fragments::counter::CounterApp;
use session_fragments::render::u128_to_dec;
use session_fragments::render::u64_to_dec;
use session_fragments::store::KvStore;
use session_fragments::token::resolve;

const CLIENT: u128 = 21;

#[test]
fn decimal_rendering_exact() {
    assert_eq!(u128_to_dec(0), "0");
    assert_eq!(u128_to_dec(7), "7");
    assert_eq!(u128_to_dec(10), "10");
    assert_eq!(u128_to_dec(1234567890123456789), "1234567890123456789");
    assert_eq!(u64_to_dec(18446744073709551615), "18446744073709551615");
}

#[test]
fn counter_fragments_exact() {
    let button = CountButtonTemplate { count: 42 };
    assert_eq!(button.render(), "<button id=\"count-button\">42</button>");
    let header = NameHeaderTemplate { name: "Ada".to_string() };
    assert_eq!(header.render(), "<h1 id=\"name-header\">Hello, Ada</h1>");
    let form = NameFromTemplate {};
    assert_eq!(
        form.render(),
        "<form id=\"name-form\" action=\"/name\" method=\"post\"><input name=\"name\"><input name=\"count\"><button>start</button></form>"
    );
}

#[test]
fn submit_name_then_view_shows_name_once_and_count() {
    let mut app = CounterApp::new();
    let html = app.submit_name(CLIENT, "Ada".to_string(), 3).unwrap();
    assert_eq!(
        html,
        "<h1 id=\"name-header\">Hello, Ada</h1><button id=\"count-button\">3</button>"
    );
    let page = app.view(CLIENT);
    assert_eq!(
        page,
        "<!doctype html><html><body><main><h1 id=\"name-header\">Hello, Ada</h1><button id=\"count-button\">3</button></main></body></html>"
    );
    assert_eq!(page.matches("Ada").count(), 1);
    assert_eq!(page.matches(">3<").count(), 1);
}

#[test]
fn increment_n_times_from_initial_count() {
    let mut app = CounterApp::new();
    app.submit_name(CLIENT, "Ada".to_string(), 10).unwrap();
    let mut last = String::new();
    let mut shown: Vec<u64> = Vec::new();
    for _ in 0..5 {
        last = app.increment(CLIENT).unwrap();
        let digits: String = last.chars().filter(|c| c.is_ascii_digit()).collect();
        shown.push(digits.parse().unwrap());
    }
    assert_eq!(last, "<button id=\"count-button\">15</button>");
    let mut previous = 10;
    for s in shown {
        assert!(previous <= s);
        previous = s;
    }
    let page = app.view(CLIENT);
    assert_eq!(
        page,
        "<!doctype html><html><body><main><h1 id=\"name-header\">Hello, Ada</h1><button id=\"count-button\">15</button></main></body></html>"
    );
}

#[test]
fn increment_without_session_is_no_session() {
    let mut app = CounterApp::new();
    assert_eq!(app.increment(CLIENT), Err(AppError::NoSession));
    let page = app.view(CLIENT);
    assert!(page.contains("name-form"));
}

#[test]
fn view_of_never_seen_identity_is_anonymous() {
    let app = CounterApp::new();
    let page = app.view(99);
    assert_eq!(
        page,
        "<!doctype html><html><body><main><form id=\"name-form\" action=\"/name\" method=\"post\"><input name=\"name\"><input name=\"count\"><button>start</button></form></main></body></html>"
    );
}

#[test]
fn load_on_never_seen_key_is_absent_not_error() {
    let mut store: KvStore<u128> = KvStore::new();
    assert!(store.load(1).is_none());
    store.save(1, 10);
    assert_eq!(*store.load(1).unwrap(), 10);
    assert!(store.load(2).is_none());
    store.save(1, 11);
    assert_eq!(*store.load(1).unwrap(), 11);
    assert!(store.has_value(11));
    assert!(!store.has_value(10));
}

#[test]
fn carried_token_is_kept_fresh_token_is_minted() {
    assert_eq!(resolve(Some(7)), (7, false));
    let (a, new_a) = resolve(None);
    let (b, new_b) = resolve(None);
    assert!(new_a);
    assert!(new_b);
    assert_ne!(a, b);
}

#[test]
fn clients_have_separate_counters() {
    let mut app = CounterApp::new();
    app.submit_name(1, "Ada".to_string(), 5).unwrap();
    app.submit_name(2, "Grace".to_string(), 100).unwrap();
    app.increment(1).unwrap();
    let page1 = app.view(1);
    let page2 = app.view(2);
    assert!(page1.contains("Hello, Ada") && page1.contains(">6<"));
    assert!(page2.contains("Hello, Grace") && page2.contains(">100<"));
}
