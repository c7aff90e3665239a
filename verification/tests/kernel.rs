use ark::browser::{is_help_url, is_web_url, ps_browse_url, ps_browse_url_impl, Browse};
use ark::build_info::build_settings;
use ark::console::console_graphics::DeviceContext;
use ark::console::console_integration::{
    call_frontend_method, frontend_result, send_help_event, strip_scheme, FrontendReply, HelpSend,
    KernelNotification, VirtualDocuments,
};
use ark::help_proxy::{
    proxy_request, proxy_response, replacement, Fetched, HelpProxy, ProxyRequest, ProxyResponse,
};
use ark::html_widget::ps_html_widget;
use ark::logger::{
    annotate, annotate_lines, enabled, initial_level, is_internal, log, log_line, part, should_log,
    sink, try_annotate, Level, Record, Sink,
};
use ark::lsp::completions::colon::completions_from_single_colon;
use ark::lsp::completions::keyword::completions_from_keywords;
use ark::lsp::editor::ps_editor;
use ark::registration::{register_impl, Parameter, ParameterType, RegisterError};
use ark::session::{r_env_is_browsed, r_sys_functions, r_traceback};
use ark::sys::windows::control::handle_interrupt_request;
use ark::sys::windows::polled_events::RPolledEventsSuspendedScope;
use ark::sys::windows::signals::{
    initialize_signal_block, initialize_signal_handlers, interrupts_pending,
    set_interrupts_pending, UserBreak,
};
use ark::test::{r_test, Once};

const MESSAGE: &str = "boom\nStack backtrace:\n   0: std::panicking\n   1: ark::main::start\n\
             at main.rs:3\n   2: other";

#[test]
fn the_place_of_an_error_is_named() {
    let expected = "boom\nOccurred at:\n   1: ark::main::start\nat main.rs:3\n\nStack backtrace:\n   \
                    0: std::panicking\n   1: ark::main::start\nat main.rs:3\n   2: other";
    assert_eq!(annotate(MESSAGE.to_string()), expected);
    assert_eq!(try_annotate(MESSAGE.to_string()), Some(expected.to_string()));
    let plain = "boom\n   1: ark::main::start\nat main.rs:3";
    assert_eq!(annotate(plain.to_string()), plain);
    assert_eq!(try_annotate("Stack backtrace:\n 1: <ark::x".to_string()), None);
    assert_eq!(part("a\n\nb\n"), vec!["a", "", "b", ""]);
    let lines = || part("x\nh\ny");
    assert_eq!(
        annotate_lines(
            "x\nh\ny".to_string(),
            lines(),
            &vec![true, false, false],
            &vec![true, true, false]
        ),
        "Occurred at:\nh\ny\n\nx\nh\ny"
    );
}

#[test]
fn other_crates_are_logged_less() {
    assert!(is_internal("ark::console"));
    assert!(is_internal("harp"));
    assert!(is_internal("by_hand"));
    assert!(!is_internal("tokio::runtime::ark::x"));
    assert!(should_log(Level::Info, "ark::console", Level::Info));
    assert!(!should_log(Level::Info, "ark::console", Level::Debug));
    assert!(!should_log(Level::Trace, "tokio::net", Level::Info));
    assert!(should_log(Level::Trace, "tokio::net", Level::Warn));
    assert!(!enabled(Level::Error, Level::Warn));
}

#[test]
fn levels_are_named_in_any_case() {
    assert_eq!(initial_level(None), (Level::Info, false));
    assert_eq!(initial_level(Some("TrAcE")), (Level::Trace, false));
    assert_eq!(initial_level(Some("error")), (Level::Error, false));
    assert_eq!(initial_level(Some("Warn")), (Level::Warn, false));
    assert_eq!(initial_level(Some("debug")), (Level::Debug, false));
    assert_eq!(initial_level(Some("off")), (Level::Info, true));
    assert_eq!(initial_level(Some("")), (Level::Info, true));
}

#[test]
fn lines_of_the_log_say_when_and_where() {
    assert_eq!(
        log_line("T", Level::Warn, Some("a.rs"), Some(7), "hi"),
        "T [ark-unknown] WARN a.rs:7: hi"
    );
    assert_eq!(log_line("T", Level::Error, None, None, "hi"), "T [ark-unknown] ERROR ?:0: hi");
    let record = |level| Record {
        level,
        target: "ark".to_string(),
        file: None,
        line: None,
        message: "hi".to_string(),
    };
    assert_eq!(
        log(Level::Info, &record(Level::Info), 1431648000, 5),
        Some("2015-05-15T00:00:00.000000005Z [ark-unknown] INFO ?:0: hi".to_string())
    );
    assert_eq!(log(Level::Info, &record(Level::Debug), 1431648000, 5), None);
    assert_eq!(log(Level::Info, &record(Level::Info), i64::MAX, 0), None);
    assert_eq!(sink(true, Level::Error), Sink::File);
    assert_eq!(sink(false, Level::Error), Sink::Stderr);
    assert_eq!(sink(false, Level::Info), Sink::Stdout);
}

#[test]
fn urls_are_shown_where_they_belong() {
    assert!(is_web_url("http://x") && is_web_url("https://x") && !is_web_url("ftp://x"));
    assert!(!is_help_url(None, true));
    assert!(is_help_url(Some(80), true) && !is_help_url(Some(80), false));
    let browse = |url: &str, help| ps_browse_url_impl(url.to_string(), help);
    assert_eq!(browse("http://x", true), Browse::Help("http://x".to_string()));
    assert_eq!(browse("http://x", false), Browse::ShowUrl("http://x".to_string()));
    assert_eq!(browse("/tmp/x", false), Browse::OpenWithSystem("/tmp/x".to_string()));
    assert!(ps_browse_url(&Ok(())));
    assert!(!ps_browse_url(&Err("no".to_string())));
}

#[test]
fn help_is_fetched_through_the_proxy() {
    let proxy = HelpProxy::new(1, 8080);
    assert_eq!(proxy.target_url("doc/x.html"), "http://localhost:8080/doc/x.html");
    assert_eq!(
        proxy_request(&proxy, "doc/html/R.css"),
        ProxyRequest::Fetch {
            url: "http://localhost:8080/doc/html/R.css".to_string(),
            replacement: Some("R.css"),
        }
    );
    assert_eq!(
        proxy_request(&proxy, "doc/index.html"),
        ProxyRequest::Fetch {
            url: "http://localhost:8080/doc/index.html".to_string(),
            replacement: None,
        }
    );
    assert_eq!(replacement("/a/prism.css"), Some("prism.css"));
    assert_eq!(replacement("/a/R.CSS"), None);

    let response = |status, body_read| Fetched::Response { status, body_read };
    assert_eq!(proxy_response(Fetched::Failed, None), ProxyResponse::BadGateway);
    assert_eq!(proxy_response(response(404, true), None), ProxyResponse::BadGateway);
    assert_eq!(proxy_response(response(200, true), None), ProxyResponse::Body);
    assert_eq!(proxy_response(response(200, false), None), ProxyResponse::BadGateway);
    assert_eq!(
        proxy_response(response(200, false), Some("R.css")),
        ProxyResponse::Replacement("R.css")
    );
}

#[test]
fn virtual_documents_are_kept_by_path() {
    let mut docs = VirtualDocuments::new();
    assert_eq!(strip_scheme("ark:a/b.R"), "a/b.R");
    assert_eq!(strip_scheme("a/b.R"), "a/b.R");
    assert_eq!(docs.insert_virtual_document("ark:a", "1".to_string()), None);
    assert!(docs.has_virtual_document("a") && docs.has_virtual_document("ark:a"));
    assert_eq!(docs.get_virtual_document("a"), Some("1".to_string()));
    assert_eq!(docs.refresh_lsp(Ok("{}".to_string())), None);
    assert_eq!(docs.set_lsp_channel(Ok("{}".to_string())), vec![
        KernelNotification::DidChangeConsoleInputs { inputs: "{}".to_string() },
        KernelNotification::DidOpenVirtualDocument {
            uri: "a".to_string(),
            contents: "1".to_string(),
        },
    ]);
    assert_eq!(docs.refresh_lsp(Err("no R".to_string())), None);
    assert_eq!(
        docs.refresh_lsp(Ok("[]".to_string())),
        Some(KernelNotification::DidChangeConsoleInputs { inputs: "[]".to_string() })
    );
    assert_eq!(
        docs.insert_virtual_document("b", "2".to_string()),
        Some(KernelNotification::DidOpenVirtualDocument {
            uri: "b".to_string(),
            contents: "2".to_string(),
        })
    );
    assert_eq!(
        docs.remove_virtual_document("ark:a"),
        Some(KernelNotification::DidCloseVirtualDocument { uri: "a".to_string() })
    );
    assert!(!docs.has_virtual_document("a"));
    docs.send_lsp_notification(true);
    assert!(docs.lsp_connected);
    docs.send_lsp_notification(false);
    assert!(!docs.lsp_connected && docs.has_virtual_document("b"));
    assert!(docs.set_lsp_channel(Err("no R".to_string())).len() == 1);
    docs.remove_lsp_channel();
    assert_eq!(docs.remove_virtual_document("b"), None);
    assert_eq!(docs.get_virtual_document("b"), None);
}

#[test]
fn frontend_methods_need_a_frontend() {
    assert_eq!(
        call_frontend_method(false, true, "Req"),
        Err("UI comm is not connected. Can't execute request Req".to_string())
    );
    assert_eq!(
        call_frontend_method(true, false, "Req"),
        Err("No active request. Can't execute request Req".to_string())
    );
    assert_eq!(call_frontend_method(true, true, "Req"), Ok(()));
    assert_eq!(frontend_result("Req", FrontendReply::Interrupt), Ok(None));
    assert_eq!(
        frontend_result("Req", FrontendReply::Result("1".to_string())),
        Ok(Some("1".to_string()))
    );
    assert_eq!(
        frontend_result("Req", FrontendReply::Error("no".to_string())),
        Err("While calling frontend method:\nno".to_string())
    );
    assert_eq!(
        frontend_result("Req", FrontendReply::Unreadable("no".to_string())),
        Err("Can't deserialize RPC reply for Req:\nno".to_string())
    );
    assert_eq!(send_help_event("E", &HelpSend::Sent), Ok(()));
    assert!(send_help_event("E", &HelpSend::NoChannel).unwrap_err().ends_with("Event E."));
    assert_eq!(
        send_help_event("E", &HelpSend::Failed("no".to_string())),
        Err("Failed to send help message: no".to_string())
    );
}

#[test]
fn plots_belong_to_the_code_that_runs() {
    let mut device = DeviceContext { execution: None, pending_origin: Some("x".to_string()) };
    device.graphics_on_execute_request("id".to_string(), "plot(1)".to_string(), None, None);
    assert_eq!(device.execution.as_ref().unwrap().code, "plot(1)");
    device.graphics_on_did_execute_request();
    assert!(device.execution.is_none() && device.pending_origin.is_none());
}

#[test]
fn interrupts_are_pending_until_they_are_not() {
    initialize_signal_handlers();
    initialize_signal_block();
    let mut flag = UserBreak { pending: false };
    assert!(!interrupts_pending(&flag));
    handle_interrupt_request(&mut flag);
    assert!(interrupts_pending(&flag));
    set_interrupts_pending(&mut flag, false);
    assert!(!interrupts_pending(&flag));
    assert_eq!(RPolledEventsSuspendedScope::new(), RPolledEventsSuspendedScope {});
}

#[test]
fn modules_are_initialised_once() {
    let mut once = Once { done: false };
    let mut ran = 0;
    let mut initialised = 0;
    r_test(&mut once, || initialised += 1, || ran += 1);
    r_test(&mut once, || panic!("again"), || ran += 1);
    assert_eq!((initialised, ran), (1, 2));
}

#[test]
fn the_session_tells_its_stack() {
    assert_eq!(r_env_is_browsed(true, 1), Ok(true));
    assert_eq!(r_env_is_browsed(true, 0), Ok(false));
    assert_eq!(r_env_is_browsed(false, 1), Err("`env` must be an environment"));
    assert_eq!(r_traceback(Ok(Some(vec!["f()".to_string()]))), vec!["f()"]);
    assert!(r_traceback(Err("no".to_string())).is_empty());
    assert!(r_traceback(Ok(None)).is_empty());
    assert_eq!(r_sys_functions(3), vec![1, 2, 3]);
    assert!(r_sys_functions(-1).is_empty());
}

#[test]
fn widgets_have_a_plain_text() {
    let data = ps_html_widget(Ok("leaflet".to_string()), Ok("{}".to_string())).unwrap();
    assert_eq!(data.text_plain, "<leaflet HTML widget>");
    assert_eq!(data.html_widget, "{}");
    let no = || Err("no".to_string());
    assert_eq!(ps_html_widget(no(), Ok(String::new())), Err("no".to_string()));
    assert_eq!(ps_html_widget(Ok(String::new()), no()), Err("no".to_string()));
}

#[test]
fn keywords_are_completed() {
    let items = completions_from_keywords();
    let labels: Vec<&str> = items.iter().map(|i| i.label.as_str()).collect();
    assert_eq!(labels, vec![
        "NULL",
        "NA",
        "TRUE",
        "FALSE",
        "Inf",
        "NaN",
        "NA_integer_",
        "NA_real_",
        "NA_character_",
        "NA_complex_",
        "in",
        "else",
        "next",
        "break",
    ]);
    assert_eq!(items[0].detail, Some("[keyword]".to_string()));
    assert!(matches!(completions_from_single_colon(Some(":")), Some(v) if v.is_empty()));
    assert!(completions_from_single_colon(Some("::")).is_none());
    assert!(completions_from_single_colon(None).is_none());
}

#[test]
fn files_are_edited_by_url() {
    let files = vec![Some("/tmp/a b.R".to_string()), None, Some("relative.R".to_string())];
    let edit = ps_editor(true, &files);
    assert_eq!(edit.shown.len(), 1);
    assert_eq!(edit.shown[0].uri, "file:///tmp/a%20b.R");
    assert!(edit.shown[0].take_focus && !edit.shown[0].external);
    assert_eq!(edit.failed, vec!["relative.R"]);
    assert!(ps_editor(false, &files).shown.is_empty());
}

fn path(names: &[&str]) -> Vec<String> {
    names.iter().map(|n| n.to_string()).collect()
}

fn sexp(name: &str) -> Parameter {
    Parameter::Typed {
        name: Some(name.to_string()),
        ty: ParameterType::Path(path(&["libr", "SEXP"])),
    }
}

fn console(name: Option<&str>, mutable: bool) -> Parameter {
    Parameter::Typed {
        name: name.map(|n| n.to_string()),
        ty: ParameterType::Reference { mutable, path: Some(path(&["crate", "Console"])) },
    }
}

#[test]
fn registered_functions_take_r_objects() {
    let entry = register_impl(&vec![console(Some("c"), false), sexp("x")]).unwrap();
    assert_eq!((entry.console, entry.skipped), (Some("c".to_string()), 1));
    let entry = register_impl(&vec![console(None, false)]).unwrap();
    assert_eq!(entry.console, Some("console".to_string()));
    let entry = register_impl(&vec![sexp("x"), sexp("y")]).unwrap();
    assert_eq!((entry.console, entry.skipped), (None, 0));

    let refused = register_impl(&vec![sexp("x"), console(Some("c"), false)]).unwrap_err();
    assert_eq!(refused, RegisterError::NotSexp { parameter: 1 });
    assert_eq!(
        refused.message(),
        "ark::register parameters (other than the leading `&Console`) must be `SEXP`"
    );
    let refused = register_impl(&vec![Parameter::Receiver]).unwrap_err();
    assert_eq!(refused, RegisterError::Receiver { parameter: 0 });
    assert_eq!(refused.message(), "ark::register functions cannot have a `self` parameter");
    assert!(register_impl(&vec![console(Some("c"), true)]).is_err());
}

#[test]
fn builds_know_their_commit() {
    assert_eq!(build_settings(Some("abc"), None, "today"), vec![
        "cargo:rustc-env=BUILD_GIT_HASH=abc",
        "cargo:rustc-env=BUILD_GIT_BRANCH=<unknown>",
        "cargo:rustc-env=BUILD_DATE=today",
    ]);
}
