use vim_statusline::method::{same_text, split_once, Request};

fn decode(method: &str) -> Request<'_> {
    Request::decode(method)
}

#[test]
fn poll_is_the_liveness_probe() {
    assert_eq!(decode("poll"), Request::Poll);
}

#[test]
fn specs_asks_for_the_function_list() {
    assert_eq!(decode("specs"), Request::Specs);
}

#[test]
fn control_messages_are_exact_literals() {
    assert_eq!(decode("Poll"), Request::Unknown("Poll"));
    assert_eq!(decode("poll "), Request::Unknown("poll "));
    assert_eq!(decode("polls"), Request::Unknown("polls"));
    assert_eq!(decode("spec"), Request::Unknown("spec"));
    assert_eq!(decode("poll:"), Request::Unknown("poll:"));
    assert_eq!(decode(":specs"), Request::Unknown(":specs"));
}

#[test]
fn control_words_inside_the_grammar_are_not_control_messages() {
    assert_eq!(decode("poll:function:specs"), Request::Function("specs"));
    assert_eq!(decode("ns:function:poll"), Request::Function("poll"));
    assert_eq!(decode("ns:command:specs"), Request::Command("specs"));
    assert_eq!(decode("ns:poll:x"), Request::Unknown("ns:poll:x"));
}

#[test]
fn function_method_names_its_handler() {
    assert_eq!(decode("ns:function:foo"), Request::Function("foo"));
    assert_eq!(
        decode("/path/to/plugin:function:BuildStatusLine"),
        Request::Function("BuildStatusLine")
    );
}

#[test]
fn command_method_names_its_handler() {
    assert_eq!(decode("ns:command:bar"), Request::Command("bar"));
}

#[test]
fn autocmd_method_names_event_and_pattern() {
    assert_eq!(decode("ns:autocmd:ev:pat"), Request::Autocmd("ev", "pat"));
    assert_eq!(decode("ns:autocmd:BufEnter:*.go"), Request::Autocmd("BufEnter", "*.go"));
}

#[test]
fn namespace_is_not_looked_at() {
    assert_eq!(decode(":function:foo"), Request::Function("foo"));
    assert_eq!(decode("function:function:foo"), Request::Function("foo"));
    assert_eq!(decode("autocmd:command:foo"), Request::Command("foo"));
    assert_eq!(decode(" :autocmd:e:p"), Request::Autocmd("e", "p"));
}

#[test]
fn function_and_command_payload_keeps_its_colons() {
    assert_eq!(decode("ns:function:a:b:c"), Request::Function("a:b:c"));
    assert_eq!(decode("ns:command::"), Request::Command(":"));
    assert_eq!(decode("ns:function::x"), Request::Function(":x"));
}

#[test]
fn function_and_command_payload_may_be_empty() {
    assert_eq!(decode("ns:function:"), Request::Function(""));
    assert_eq!(decode("ns:command:"), Request::Command(""));
    assert_eq!(decode("::"), Request::Unknown("::"));
}

#[test]
fn autocmd_payload_is_cut_once() {
    assert_eq!(decode("ns:autocmd:ev:pat:more"), Request::Autocmd("ev", "pat:more"));
    assert_eq!(decode("ns:autocmd:ev::"), Request::Autocmd("ev", ":"));
}

#[test]
fn autocmd_needs_event_and_pattern() {
    assert_eq!(decode("ns:autocmd:ev"), Request::Unknown("ns:autocmd:ev"));
    assert_eq!(decode("ns:autocmd:"), Request::Unknown("ns:autocmd:"));
    assert_eq!(decode("ns:autocmd::pat"), Request::Unknown("ns:autocmd::pat"));
    assert_eq!(decode("ns:autocmd:ev:"), Request::Unknown("ns:autocmd:ev:"));
    assert_eq!(decode("ns:autocmd::"), Request::Unknown("ns:autocmd::"));
}

#[test]
fn fewer_than_three_parts_are_unknown() {
    assert_eq!(decode(""), Request::Unknown(""));
    assert_eq!(decode("function"), Request::Unknown("function"));
    assert_eq!(decode("ns:function"), Request::Unknown("ns:function"));
    assert_eq!(decode(":"), Request::Unknown(":"));
    assert_eq!(decode("a:b"), Request::Unknown("a:b"));
}

#[test]
fn other_kinds_are_unknown() {
    assert_eq!(decode("ns:other:x"), Request::Unknown("ns:other:x"));
    assert_eq!(decode("ns:Function:x"), Request::Unknown("ns:Function:x"));
    assert_eq!(decode("ns:functions:x"), Request::Unknown("ns:functions:x"));
    assert_eq!(decode("ns: function:x"), Request::Unknown("ns: function:x"));
    assert_eq!(decode("ns::x"), Request::Unknown("ns::x"));
    assert_eq!(decode("ns:autocmds:e:p"), Request::Unknown("ns:autocmds:e:p"));
}

#[test]
fn unknown_holds_the_whole_method() {
    let method = "a:b:c:d:e";
    match decode(method) {
        Request::Unknown(raw) => assert_eq!(raw, method),
        other => panic!("decoded as {:?}", other),
    }
}

#[test]
fn text_beyond_ascii_is_cut_at_characters() {
    assert_eq!(decode("пространство:function:функция"), Request::Function("функция"));
    assert_eq!(decode("名前:autocmd:出来事:模様*"), Request::Autocmd("出来事", "模様*"));
    assert_eq!(decode("é:command:ü:ö"), Request::Command("ü:ö"));
    assert_eq!(decode("ns:fünction:x"), Request::Unknown("ns:fünction:x"));
    // A full-width colon is no colon.
    assert_eq!(decode("ns：function：x"), Request::Unknown("ns：function：x"));
}

#[test]
fn decoding_borrows_from_the_method() {
    let method = String::from("ns:function:name");
    match decode(&method) {
        Request::Function(name) => {
            assert_eq!(name.as_ptr(), method[12..].as_ptr());
            assert_eq!(name.len(), 4);
        }
        other => panic!("decoded as {:?}", other),
    }
}

#[test]
fn every_string_decodes() {
    let samples = [
        "", ":", "::", ":::", "::::", "a", "a:", ":a", "a:b", "a:b:", "a:b:c", "poll", "specs",
        "x:function", "x:function:", "x:command", "x:command:", "x:autocmd", "x:autocmd:",
        "x:autocmd::", "x:autocmd:a:", "x:autocmd::a", "x:autocmd:a:b", "\u{0}", "\n:\n:\n",
        "🙂:function:🙂", "x:function:\u{10ffff}",
    ];
    for method in samples {
        match decode(method) {
            Request::Poll => assert_eq!(method, "poll"),
            Request::Specs => assert_eq!(method, "specs"),
            Request::Function(name) => {
                assert!(method.ends_with(name));
                assert!(method[..method.len() - name.len()].ends_with(":function:"));
            }
            Request::Command(name) => {
                assert!(method.ends_with(name));
                assert!(method[..method.len() - name.len()].ends_with(":command:"));
            }
            Request::Autocmd(event, pattern) => {
                assert!(!event.is_empty() && !pattern.is_empty());
                assert!(!event.contains(':'));
                assert!(method.ends_with(&format!(":autocmd:{}:{}", event, pattern)));
            }
            Request::Unknown(raw) => assert_eq!(raw, method),
        }
    }
}

#[test]
fn split_once_cuts_at_the_first_colon() {
    assert_eq!(split_once("a:b:c"), Some(("a", "b:c")));
    assert_eq!(split_once("abc"), None);
    assert_eq!(split_once(""), None);
    assert_eq!(split_once(":"), Some(("", "")));
    assert_eq!(split_once(":x"), Some(("", "x")));
    assert_eq!(split_once("x:"), Some(("x", "")));
    assert_eq!(split_once("日本:語"), Some(("日本", "語")));
}

#[test]
fn same_text_compares_contents() {
    assert!(same_text("", ""));
    assert!(same_text("function", "function"));
    assert!(same_text(&String::from("poll"), "poll"));
    assert!(!same_text("function", "functio"));
    assert!(!same_text("function", "functiom"));
    assert!(!same_text("a", ""));
    assert!(same_text("ü", "\u{fc}"));
    assert!(!same_text("ü", "u\u{308}"));
}
