//! Method names and the request each one stands for.
//!
//! A peer names what it wants in the method string of a message:
//!
//! | method                           | request                      |
//! |----------------------------------|------------------------------|
//! | `poll`                           | liveness probe               |
//! | `specs`                          | list of registered functions |
//! | `<ns>:function:<name>`           | call of a function handler   |
//! | `<ns>:command:<name>`            | call of a command handler    |
//! | `<ns>:autocmd:<event>:<pattern>` | an autocommand has fired     |
//!
//! Anything else is [`Request::Unknown`]. Parts are cut at the first `:` from
//! the left, so a function or command name and an autocommand pattern may
//! hold further colons, while a namespace and an event cannot.
use vstd::prelude::*;
use vstd::std_specs::iter::IteratorSpec;
use vstd::string::*;
use vstd::utf8::*;

verus! {

/// A decoded method name, borrowing its parts from the method string.
#[derive(Debug, Clone, Copy, PartialEq, Eq)]
pub enum Request<'a> {
    Poll,
    Specs,
    Function(&'a str),
    Autocmd(&'a str, &'a str),
    Command(&'a str),
    Unknown(&'a str),
}

/// The mathematical value of a [`Request`].
pub enum RequestView {
    Poll,
    Specs,
    Function(Seq<char>),
    Autocmd(Seq<char>, Seq<char>),
    Command(Seq<char>),
    Unknown(Seq<char>),
}

impl<'a> View for Request<'a> {
    type V = RequestView;

    open spec fn view(&self) -> RequestView {
        match *self {
            Request::Poll => RequestView::Poll,
            Request::Specs => RequestView::Specs,
            Request::Function(name) => RequestView::Function(name@),
            Request::Autocmd(event, pattern) => RequestView::Autocmd(event@, pattern@),
            Request::Command(name) => RequestView::Command(name@),
            Request::Unknown(method) => RequestView::Unknown(method@),
        }
    }
}

/// No character of `s` is a colon.
pub open spec fn colon_free(s: Seq<char>) -> bool {
    forall|i: int| 0 <= i < s.len() ==> s[i] != ':'
}

/// Position `i` of `s` holds the first colon of `s`.
pub open spec fn first_colon_at(s: Seq<char>, i: int) -> bool {
    &&& 0 <= i < s.len()
    &&& s[i] == ':'
    &&& colon_free(s.take(i))
}

/// `s` cut in two at its first colon, which belongs to neither part;
/// `None` where `s` holds no colon.
pub open spec fn split_at_colon(s: Seq<char>) -> Option<(Seq<char>, Seq<char>)> {
    if exists|i: int| first_colon_at(s, i) {
        let i = choose|i: int| first_colon_at(s, i);
        Some((s.take(i), s.skip(i + 1)))
    } else {
        None
    }
}

/// The request that the three parts of a method name stand for: `kind` is the
/// middle part and `payload` everything behind the second colon.
pub open spec fn classify(method: Seq<char>, kind: Seq<char>, payload: Seq<char>) -> RequestView {
    if kind == "function"@ {
        RequestView::Function(payload)
    } else if kind == "command"@ {
        RequestView::Command(payload)
    } else if kind == "autocmd"@ {
        match split_at_colon(payload) {
            Some((event, pattern)) if event.len() > 0 && pattern.len() > 0 => RequestView::Autocmd(
                event,
                pattern,
            ),
            _ => RequestView::Unknown(method),
        }
    } else {
        RequestView::Unknown(method)
    }
}

/// The request that a method name stands for.
pub open spec fn decode_spec(method: Seq<char>) -> RequestView {
    if method == "poll"@ {
        RequestView::Poll
    } else if method == "specs"@ {
        RequestView::Specs
    } else {
        match split_at_colon(method) {
            Some((_namespace, rest)) => match split_at_colon(rest) {
                Some((kind, payload)) => classify(method, kind, payload),
                None => RequestView::Unknown(method),
            },
            None => RequestView::Unknown(method),
        }
    }
}

/// A sequence has at most one first colon.
pub proof fn lemma_first_colon_unique(s: Seq<char>, i: int, j: int)
    requires
        first_colon_at(s, i),
        first_colon_at(s, j),
    ensures
        i == j,
{
    if i < j {
        assert(s.take(j)[i] == ':');
    } else if j < i {
        assert(s.take(i)[j] == ':');
    }
}

/// Cutting at a known first colon.
pub proof fn lemma_split_at(s: Seq<char>, i: int)
    requires
        first_colon_at(s, i),
    ensures
        split_at_colon(s) == Some((s.take(i), s.skip(i + 1))),
{
    let k = choose|k: int| first_colon_at(s, k);
    lemma_first_colon_unique(s, i, k);
}

/// A sequence without a colon cannot be cut.
pub proof fn lemma_split_none(s: Seq<char>)
    requires
        colon_free(s),
    ensures
        split_at_colon(s) is None,
{
    if exists|i: int| first_colon_at(s, i) {
        let i = choose|i: int| first_colon_at(s, i);
        assert(s[i] == ':');
    }
}

/// A head without a colon, a colon and a tail are cut back into head and tail.
pub proof fn lemma_split_joined(head: Seq<char>, tail: Seq<char>)
    requires
        colon_free(head),
    ensures
        split_at_colon(head + seq![':'] + tail) == Some((head, tail)),
{
    let s = head + seq![':'] + tail;
    let i = head.len() as int;
    assert(s.take(i) =~= head);
    assert(s.skip(i + 1) =~= tail);
    assert(s[i] == ':');
    lemma_split_at(s, i);
}

/// The method name `<namespace>:<kind>:<payload>`.
pub open spec fn method_name(namespace: Seq<char>, kind: Seq<char>, payload: Seq<char>) -> Seq<
    char,
> {
    namespace + seq![':'] + kind + seq![':'] + payload
}

/// A method name of three parts decodes by its kind and payload, whatever
/// its namespace, as long as neither namespace nor kind holds a colon.
pub proof fn lemma_decode_method_name(namespace: Seq<char>, kind: Seq<char>, payload: Seq<char>)
    requires
        colon_free(namespace),
        colon_free(kind),
    ensures
        decode_spec(method_name(namespace, kind, payload)) == classify(
            method_name(namespace, kind, payload),
            kind,
            payload,
        ),
{
    let method = method_name(namespace, kind, payload);
    let rest = kind + seq![':'] + payload;
    assert(method =~= namespace + seq![':'] + rest);
    lemma_split_joined(namespace, rest);
    lemma_split_joined(kind, payload);
    assert(method[namespace.len() as int] == ':');
    reveal_strlit("poll");
    reveal_strlit("specs");
    if method == "poll"@ || method == "specs"@ {
        assert(method[namespace.len() as int] != ':');
    }
}

/// `<namespace>:function:<name>` is a call of the function handler `name`,
/// whatever the namespace. The name may be empty and may hold colons.
pub proof fn lemma_decode_function(namespace: Seq<char>, name: Seq<char>)
    requires
        colon_free(namespace),
    ensures
        decode_spec(namespace + ":function:"@ + name) == RequestView::Function(name),
{
    reveal_strlit("function");
    reveal_strlit(":function:");
    assert(namespace + ":function:"@ + name =~= method_name(namespace, "function"@, name));
    lemma_decode_method_name(namespace, "function"@, name);
}

/// `<namespace>:command:<name>` is a call of the command handler `name`,
/// whatever the namespace. The name may be empty and may hold colons.
pub proof fn lemma_decode_command(namespace: Seq<char>, name: Seq<char>)
    requires
        colon_free(namespace),
    ensures
        decode_spec(namespace + ":command:"@ + name) == RequestView::Command(name),
{
    reveal_strlit("command");
    reveal_strlit(":command:");
    assert(namespace + ":command:"@ + name =~= method_name(namespace, "command"@, name));
    lemma_kinds_differ();
    lemma_decode_method_name(namespace, "command"@, name);
}

/// `<namespace>:autocmd:<event>:<pattern>` is the autocommand of `event` and
/// `pattern`, neither of them empty, whatever the namespace. The pattern may
/// hold colons.
pub proof fn lemma_decode_autocmd(namespace: Seq<char>, event: Seq<char>, pattern: Seq<char>)
    requires
        colon_free(namespace),
        colon_free(event),
        event.len() > 0,
        pattern.len() > 0,
    ensures
        decode_spec(namespace + ":autocmd:"@ + event + ":"@ + pattern) == RequestView::Autocmd(
            event,
            pattern,
        ),
{
    reveal_strlit("autocmd");
    reveal_strlit(":autocmd:");
    reveal_strlit(":");
    let payload = event + seq![':'] + pattern;
    assert(namespace + ":autocmd:"@ + event + ":"@ + pattern =~= method_name(
        namespace,
        "autocmd"@,
        payload,
    ));
    lemma_kinds_differ();
    lemma_split_joined(event, pattern);
    lemma_decode_method_name(namespace, "autocmd"@, payload);
}

/// An autocommand needs an event and a pattern: where the payload holds no
/// colon, or nothing before or behind its first one, the method is unknown.
pub proof fn lemma_decode_autocmd_incomplete(namespace: Seq<char>, payload: Seq<char>)
    requires
        colon_free(namespace),
        match split_at_colon(payload) {
            Some((event, pattern)) => event.len() == 0 || pattern.len() == 0,
            None => true,
        },
    ensures
        decode_spec(namespace + ":autocmd:"@ + payload) == RequestView::Unknown(
            namespace + ":autocmd:"@ + payload,
        ),
{
    reveal_strlit("autocmd");
    reveal_strlit(":autocmd:");
    assert(namespace + ":autocmd:"@ + payload =~= method_name(namespace, "autocmd"@, payload));
    lemma_kinds_differ();
    lemma_decode_method_name(namespace, "autocmd"@, payload);
}

/// A method of three parts whose middle part names no kind of handler is
/// unknown.
pub proof fn lemma_decode_other_kind(namespace: Seq<char>, kind: Seq<char>, payload: Seq<char>)
    requires
        colon_free(namespace),
        colon_free(kind),
        kind != "function"@,
        kind != "command"@,
        kind != "autocmd"@,
    ensures
        decode_spec(method_name(namespace, kind, payload)) == RequestView::Unknown(
            method_name(namespace, kind, payload),
        ),
{
    lemma_decode_method_name(namespace, kind, payload);
}

/// The two control messages are never taken for anything else.
pub proof fn lemma_decode_control()
    ensures
        decode_spec("poll"@) == RequestView::Poll,
        decode_spec("specs"@) == RequestView::Specs,
{
    reveal_strlit("poll");
    reveal_strlit("specs");
    assert("specs"@.len() == 5);
    assert("poll"@.len() == 4);
}

/// A method name with fewer than two colons, other than the two control
/// messages, is unknown.
pub proof fn lemma_decode_too_short(method: Seq<char>)
    requires
        method != "poll"@,
        method != "specs"@,
        match split_at_colon(method) {
            Some((_namespace, rest)) => colon_free(rest),
            None => true,
        },
    ensures
        decode_spec(method) == RequestView::Unknown(method),
{
    match split_at_colon(method) {
        Some((_namespace, rest)) => {
            lemma_split_none(rest);
        },
        None => {},
    }
}

/// What is unknown is handed on whole.
pub proof fn lemma_unknown_is_whole(method: Seq<char>)
    ensures
        decode_spec(method) matches RequestView::Unknown(raw) ==> raw == method,
{
}

/// The three kinds of handler have three different names.
pub proof fn lemma_kinds_differ()
    ensures
        "function"@ != "command"@,
        "function"@ != "autocmd"@,
        "command"@ != "autocmd"@,
{
    reveal_strlit("function");
    reveal_strlit("command");
    reveal_strlit("autocmd");
    assert("function"@.len() == 8);
    assert("command"@[0] == 'c');
    assert("autocmd"@[0] == 'a');
}

/// The number of characters of `s`.
fn char_count(s: &str) -> (n: usize)
    ensures
        n == s@.len(),
{
    s.unicode_len()
}

/// The position of the first colon of `s`, counted in characters.
fn find_colon(s: &str) -> (r: Option<usize>)
    ensures
        match r {
            Some(i) => first_colon_at(s@, i as int),
            None => colon_free(s@),
        },
{
    broadcast use group_string_axioms;

    let n = char_count(s);
    let mut chars = s.chars();
    let mut i: usize = 0;
    loop
        invariant
            n == s@.len(),
            i <= n,
            chars.obeys_prophetic_iter_laws(),
            chars.remaining() == s@.skip(i as int),
            forall|j: int| 0 <= j < i ==> s@[j] != ':',
        decreases n - i,
    {
        match chars.next() {
            Some(c) => {
                if c == ':' {
                    return Some(i);
                }
                i += 1;
            },
            None => {
                return None;
            },
        }
    }
}

/// Cuts `s` at its first colon.
pub fn split_once<'a>(s: &'a str) -> (r: Option<(&'a str, &'a str)>)
    ensures
        match r {
            Some((head, tail)) => split_at_colon(s@) == Some((head@, tail@)),
            None => split_at_colon(s@) is None,
        },
{
    match find_colon(s) {
        Some(i) => {
            let n = char_count(s);
            let head = s.substring_char(0, i);
            let tail = s.substring_char(i + 1, n);
            proof {
                lemma_split_at(s@, i as int);
                assert(s@.take(i as int) == s@.subrange(0, i as int));
                assert(s@.skip(i + 1) == s@.subrange(i + 1, n as int));
            }
            Some((head, tail))
        },
        None => {
            proof {
                lemma_split_none(s@);
            }
            None
        },
    }
}

/// Whether `a` and `b` hold the same text.
pub fn same_text(a: &str, b: &str) -> (r: bool)
    ensures
        r == (a@ == b@),
{
    let x = a.as_bytes();
    let y = b.as_bytes();
    proof {
        // Each text is what its bytes decode to, so the bytes decide.
        encode_utf8_decode_utf8(a@);
        encode_utf8_decode_utf8(b@);
    }
    if x.len() != y.len() {
        return false;
    }
    let mut i: usize = 0;
    while i < x.len()
        invariant
            i <= x@.len(),
            x@.len() == y@.len(),
            x@ == encode_utf8(a@),
            y@ == encode_utf8(b@),
            forall|j: int| 0 <= j < i ==> x@[j] == y@[j],
        decreases x@.len() - i,
    {
        if x[i] != y[i] {
            return false;
        }
        i += 1;
    }
    assert(x@ =~= y@);
    true
}

/// Decodes the payload of an autocommand method: `<event>:<pattern>`, neither
/// of them empty.
fn decode_autocmd<'a>(method: &'a str, payload: &'a str) -> (r: Request<'a>)
    ensures
        r@ == classify(method@, "autocmd"@, payload@),
{
    proof {
        lemma_kinds_differ();
    }
    match split_once(payload) {
        Some((event, pattern)) => {
            if event.is_empty() || pattern.is_empty() {
                Request::Unknown(method)
            } else {
                Request::Autocmd(event, pattern)
            }
        },
        None => Request::Unknown(method),
    }
}

impl<'a> Request<'a> {
    /// Decodes a method name. Every string stands for some request: one that
    /// follows no rule of the grammar is [`Request::Unknown`] and holds the
    /// whole method name.
    pub fn decode(method: &'a str) -> (r: Request<'a>)
        ensures
            r@ == decode_spec(method@),
    {
        if same_text(method, "poll") {
            Request::Poll
        } else if same_text(method, "specs") {
            Request::Specs
        } else {
            match split_once(method) {
                Some((_namespace, rest)) => match split_once(rest) {
                    Some((kind, payload)) => {
                        if same_text(kind, "function") {
                            Request::Function(payload)
                        } else if same_text(kind, "command") {
                            Request::Command(payload)
                        } else if same_text(kind, "autocmd") {
                            decode_autocmd(method, payload)
                        } else {
                            Request::Unknown(method)
                        }
                    },
                    None => Request::Unknown(method),
                },
                None => Request::Unknown(method),
            }
        }
    }
}

} // verus!
