//! The dispatch engine: three registries of handlers, and the two entry
//! points through which a session hands in what the peer sent.
//!
//! A request is answered; a notification is not. Function and command
//! handlers take requests, autocommand handlers take notifications. The
//! arguments of a message must be one array: what it holds is what the handler
//! gets. A handler answers with a pending result of type `P`, which the engine
//! hands on as it is and never looks into.
use crate::method::{colon_free, decode_spec, Request, RequestView};
use crate::registry::{distinct, lemma_registration, position_of, Registry};
use crate::value::{
    array_items, array_value, as_array, bool_value, from_bool, from_entries, from_items,
    from_text, map_value, text_value,
};
use rmp_rpc::{Client, Value};
use vstd::prelude::*;
use vstd::string::*;

verus! {

/// `rmp_rpc::Client`: the handle through which a handler sends requests and
/// notifications of its own to the peer. The engine hands it on untouched.
#[verifier::external_type_specification]
#[verifier::external_body]
pub struct ExClient(rmp_rpc::Client);

/// A function that the peer can call by name.
///
/// The three spec functions say what a handler holds true of itself, for
/// proofs about an engine that it is registered with. A handler need not
/// define them: as they stand they claim nothing of it.
pub trait FunctionHandler<P>: Send {
    /// The name that `name` returns, where the handler says so.
    open spec fn name_spec(&self) -> Option<Seq<char>> {
        None
    }

    /// What `is_sync` returns, where the handler says so.
    open spec fn sync_spec(&self) -> Option<bool> {
        None
    }

    /// Whether `pending` is an answer of this handler, as it is before the
    /// call, to a call with `args`.
    open spec fn answers(&self, args: Seq<Value>, pending: P) -> bool {
        true
    }

    /// The name under which the function is registered.
    fn name(&self) -> (name: &str)
        ensures
            says(self.name_spec(), name@),
    ;

    /// Whether the peer is to wait for the answer. The engine tells the peer
    /// and does not act on it.
    fn is_sync(&self) -> (sync: bool)
        ensures
            says(self.sync_spec(), sync),
    ;

    /// Takes a call. What it returns resolves to the reply, or to the error,
    /// now or later. Through `client` it may ask the peer in turn.
    fn handle(&mut self, client: &mut Client, args: &[Value]) -> (pending: P)
        ensures
            old(self).answers(args@, pending),
    ;
}

/// What is to happen when an event fires on something that matches a
/// pattern.
///
/// The three spec functions say what a handler holds true of itself, for
/// proofs about an engine that it is registered with. A handler need not
/// define them: as they stand they claim nothing of it.
pub trait AutocmdHandler: Send {
    /// The pattern that `pattern` returns, where the handler says so.
    open spec fn pattern_spec(&self) -> Option<Seq<char>> {
        None
    }

    /// The event that `event` returns, where the handler says so.
    open spec fn event_spec(&self) -> Option<Seq<char>> {
        None
    }

    /// Whether this handler, as it now is, has taken note of the event with
    /// `args`.
    open spec fn took(&self, args: Seq<Value>) -> bool {
        true
    }

    /// The pattern under which, with the event, the handler is registered.
    fn pattern(&self) -> (pattern: &str)
        ensures
            says(self.pattern_spec(), pattern@),
    ;

    /// The event under which, with the pattern, the handler is registered.
    fn event(&self) -> (event: &str)
        ensures
            says(self.event_spec(), event@),
    ;

    /// Takes note that the event has fired. Nothing is answered.
    fn handle(&mut self, client: &mut Client, args: &[Value])
        ensures
            final(self).took(args@),
    ;
}

/// A command that the peer can call by name.
///
/// The two spec functions say what a handler holds true of itself, for
/// proofs about an engine that it is registered with. A handler need not
/// define them: as they stand they claim nothing of it.
pub trait CommandHandler<P>: Send {
    /// The name that `name` returns, where the handler says so.
    open spec fn name_spec(&self) -> Option<Seq<char>> {
        None
    }

    /// Whether `pending` is an answer of this handler, as it is before the
    /// call, to a call with `args`.
    open spec fn answers(&self, args: Seq<Value>, pending: P) -> bool {
        true
    }

    /// The name under which the command is registered.
    fn name(&self) -> (name: &str)
        ensures
            says(self.name_spec(), name@),
    ;

    /// Whether the peer is to wait for the answer. The engine does not act
    /// on it.
    fn is_sync(&self) -> bool;

    /// Takes a call. What it returns resolves to the reply, or to the error,
    /// now or later. Through `client` it may ask the peer in turn.
    fn handle(&mut self, client: &mut Client, args: &[Value]) -> (pending: P)
        ensures
            old(self).answers(args@, pending),
    ;
}

/// `value` is what the handler said it would be, if it said anything.
pub open spec fn says<A>(said: Option<A>, value: A) -> bool {
    said matches Some(v) ==> value == v
}

/// The engine's answer to a request.
#[derive(Debug, PartialEq)]
pub enum Reply<P> {
    /// The request succeeded with this value.
    Done(Value),
    /// The request failed; the value says why.
    Failed(Value),
    /// A handler took the request: its pending result is the answer.
    Deferred(P),
}

/// What became of a notification.
#[derive(Debug, Clone, Copy, PartialEq, Eq)]
pub enum Delivery {
    /// The autocommand handler ran.
    Handled,
    /// The arguments were not one array; no handler ran.
    BadArgument,
    /// No handler is registered for the event and pattern; no handler ran.
    UnknownAutocmd,
    /// The method is no autocommand; no handler ran.
    NotAutocmd,
}

/// What the arguments of a message hand to a handler: the items of the first
/// argument, which must be an array. Further arguments are ignored.
pub open spec fn forwarded(args: Seq<Value>) -> Option<Seq<Value>> {
    if args.len() > 0 {
        array_items(args[0])
    } else {
        None
    }
}

/// The arguments for a handler, or the error text where the message has no
/// argument or its first one is no array.
pub fn unwrap_arg(args: &[Value]) -> (r: Result<&Vec<Value>, String>)
    ensures
        match r {
            Ok(inner) => forwarded(args@) == Some(inner@),
            Err(e) => forwarded(args@) is None && e@ == "Bad argument"@,
        },
{
    if args.len() > 0 {
        match as_array(&args[0]) {
            Some(inner) => Ok(inner),
            None => Err("Bad argument".to_owned()),
        }
    } else {
        Err("Bad argument".to_owned())
    }
}

/// The error value that names what was asked for and is not there:
/// `complaint` followed by `name`.
pub fn unknown(complaint: &str, name: &str) -> (value: Value)
    ensures
        value == text_value(complaint@ + name@),
{
    let mut message = String::from_str(complaint);
    message.append(name);
    from_text(message.as_str())
}

/// How a function handler is described to the peer.
pub open spec fn function_spec(sync: bool, name: Seq<char>) -> Value {
    map_value(
        seq![
            (text_value("sync"@), bool_value(sync)),
            (text_value("name"@), text_value(name)),
            (text_value("type"@), text_value("function"@)),
            (text_value("opts"@), map_value(Seq::empty())),
        ],
    )
}

/// Describes a function handler to the peer: a map of `sync`, `name`, the
/// `type`, which is `function`, and `opts`, which are empty.
pub fn serialize(sync: bool, name: &str) -> (value: Value)
    ensures
        value == function_spec(sync, name@),
{
    let mut entries: Vec<(Value, Value)> = Vec::new();
    entries.push((from_text("sync"), from_bool(sync)));
    entries.push((from_text("name"), from_text(name)));
    entries.push((from_text("type"), from_text("function")));
    entries.push((from_text("opts"), from_entries(Vec::new())));
    assert(entries@ =~= seq![
        (text_value("sync"@), bool_value(sync)),
        (text_value("name"@), text_value(name@)),
        (text_value("type"@), text_value("function"@)),
        (text_value("opts"@), map_value(Seq::empty())),
    ]);
    from_entries(entries)
}

/// A registered function handler, with what it said of itself when it was
/// registered.
#[verifier::reject_recursive_types(P)]
pub struct FunctionEntry<P> {
    pub sync: bool,
    pub handler: Box<dyn FunctionHandler<P>>,
}

/// The handlers of one session, each kind in a registry of its own.
#[verifier::reject_recursive_types(P)]
pub struct RequestHandler<P> {
    function_map: Registry<String, FunctionEntry<P>>,
    command_map: Registry<String, Box<dyn CommandHandler<P>>>,
    autocmd_map: Registry<(String, String), Box<dyn AutocmdHandler>>,
}

impl<P> RequestHandler<P> {
    /// The function handlers, by name.
    pub closed spec fn functions(&self) -> Registry<String, FunctionEntry<P>> {
        self.function_map
    }

    /// The command handlers, by name.
    pub closed spec fn commands(&self) -> Registry<String, Box<dyn CommandHandler<P>>> {
        self.command_map
    }

    /// The autocommand handlers, by event and pattern.
    pub closed spec fn autocmds(&self) -> Registry<(String, String), Box<dyn AutocmdHandler>> {
        self.autocmd_map
    }

    /// In no registry a key occurs twice. This holds of a new engine, and
    /// every function of an engine keeps it.
    pub open spec fn wf(&self) -> bool {
        &&& self.functions().wf()
        &&& self.commands().wf()
        &&& self.autocmds().wf()
    }

    /// The descriptions of the function handlers, in the order of their
    /// registration. Commands and autocommands are not described.
    pub open spec fn specs(&self) -> Seq<Value> {
        Seq::new(
            self.functions().keys().len(),
            |i: int| function_spec(self.functions().handlers()[i].sync, self.functions().keys()[i]),
        )
    }

    /// What a call of the function `name` with `args` may make of the engine
    /// `before`, and the `reply` that goes with it. No handler is asked unless
    /// the arguments are one array and the function is registered; then the
    /// reply is an answer of the handler of `name` to the items of that
    /// array, and nothing but this handler may have changed.
    pub open spec fn answers_function(
        &self,
        before: Self,
        name: Seq<char>,
        args: Seq<Value>,
        reply: Reply<P>,
    ) -> bool {
        &&& self.commands() == before.commands()
        &&& self.autocmds() == before.autocmds()
        &&& match forwarded(args) {
            None => {
                &&& reply == Reply::<P>::Failed(text_value("Bad argument"@))
                &&& self.functions() == before.functions()
            },
            Some(_) => match position_of(before.functions().keys(), name) {
                None => {
                    &&& reply == Reply::<P>::Failed(text_value("Unknown function: "@ + name))
                    &&& self.functions() == before.functions()
                },
                Some(i) => {
                    &&& reply matches Reply::Deferred(pending)
                    &&& before.functions().handlers()[i].handler.answers(
                        forwarded(args)->0,
                        pending,
                    )
                    &&& self.functions().differs_at_most_at(before.functions(), i)
                    &&& self.functions().handlers()[i].sync == before.functions().handlers()[i].sync
                },
            },
        }
    }

    /// What a call of the command `name` with `args` may make of the engine
    /// `before`, and the `reply` that goes with it. No handler is asked unless
    /// the arguments are one array and the command is registered; then the
    /// reply is an answer of the handler of `name` to the items of that
    /// array, and nothing but this handler may have changed.
    pub open spec fn answers_command(
        &self,
        before: Self,
        name: Seq<char>,
        args: Seq<Value>,
        reply: Reply<P>,
    ) -> bool {
        &&& self.functions() == before.functions()
        &&& self.autocmds() == before.autocmds()
        &&& match forwarded(args) {
            None => {
                &&& reply == Reply::<P>::Failed(text_value("Bad argument"@))
                &&& self.commands() == before.commands()
            },
            Some(_) => match position_of(before.commands().keys(), name) {
                None => {
                    &&& reply == Reply::<P>::Failed(text_value("Unknown command: "@ + name))
                    &&& self.commands() == before.commands()
                },
                Some(i) => {
                    &&& reply matches Reply::Deferred(pending)
                    &&& before.commands().handlers()[i].answers(forwarded(args)->0, pending)
                    &&& self.commands().differs_at_most_at(before.commands(), i)
                },
            },
        }
    }

    /// What the autocommand of `event` and `pattern` with `args` may make of
    /// the engine `before`, and what is reported of it. No handler is asked
    /// unless the arguments are one array and a handler is registered for
    /// the two; then that handler has taken the items of the array, and
    /// nothing but this handler may have changed.
    pub open spec fn delivers_autocmd(
        &self,
        before: Self,
        event: Seq<char>,
        pattern: Seq<char>,
        args: Seq<Value>,
        delivery: Delivery,
    ) -> bool {
        &&& self.functions() == before.functions()
        &&& self.commands() == before.commands()
        &&& match forwarded(args) {
            None => {
                &&& delivery == Delivery::BadArgument
                &&& self.autocmds() == before.autocmds()
            },
            Some(_) => match position_of(before.autocmds().keys(), (event, pattern)) {
                None => {
                    &&& delivery == Delivery::UnknownAutocmd
                    &&& self.autocmds() == before.autocmds()
                },
                Some(i) => {
                    &&& delivery == Delivery::Handled
                    &&& self.autocmds().handlers()[i].took(forwarded(args)->0)
                    &&& self.autocmds().differs_at_most_at(before.autocmds(), i)
                },
            },
        }
    }

    /// What the request `method` with `args` may make of the engine `before`,
    /// and the `reply` that goes with it.
    pub open spec fn answers_request(
        &self,
        before: Self,
        method: Seq<char>,
        args: Seq<Value>,
        reply: Reply<P>,
    ) -> bool {
        match decode_spec(method) {
            RequestView::Poll => {
                &&& reply == Reply::<P>::Done(text_value("ok"@))
                &&& *self == before
            },
            RequestView::Specs => {
                &&& reply matches Reply::Done(value)
                &&& value == array_value(before.specs())
                &&& array_items(value) == Some(before.specs())
                &&& *self == before
            },
            RequestView::Function(name) => self.answers_function(before, name, args, reply),
            RequestView::Command(name) => self.answers_command(before, name, args, reply),
            RequestView::Autocmd(_, _) | RequestView::Unknown(_) => {
                &&& reply == Reply::<P>::Failed(text_value("Unknown method: "@ + method))
                &&& *self == before
            },
        }
    }

    /// What the notification `method` with `args` may make of the engine
    /// `before`, and what is reported of it.
    pub open spec fn delivers_notification(
        &self,
        before: Self,
        method: Seq<char>,
        args: Seq<Value>,
        delivery: Delivery,
    ) -> bool {
        match decode_spec(method) {
            RequestView::Autocmd(event, pattern) => self.delivers_autocmd(
                before,
                event,
                pattern,
                args,
                delivery,
            ),
            _ => {
                &&& delivery == Delivery::NotAutocmd
                &&& *self == before
            },
        }
    }

    /// An engine without handlers.
    pub fn new() -> (r: Self)
        ensures
            r.wf(),
            r.functions()@.len() == 0,
            r.commands()@.len() == 0,
            r.autocmds()@.len() == 0,
    {
        RequestHandler {
            function_map: Registry::new(),
            autocmd_map: Registry::new(),
            command_map: Registry::new(),
        }
    }

    /// Registers `handler` as the function `name`, described to the peer as
    /// `sync`. A function already registered under that name is replaced.
    pub fn insert_function(&mut self, name: String, sync: bool, handler: Box<dyn FunctionHandler<P>>)
        ensures
            old(self).wf() ==> final(self).wf(),
            final(self).functions().is_with(
                old(self).functions(),
                name@,
                (FunctionEntry { sync, handler }),
            ),
            final(self).commands() == old(self).commands(),
            final(self).autocmds() == old(self).autocmds(),
    {
        self.function_map.insert(name, FunctionEntry { sync, handler });
    }

    /// Registers a function handler under the name it gives itself, described
    /// to the peer as it describes itself. A function already registered
    /// under that name is replaced.
    pub fn register_function(&mut self, func: Box<dyn FunctionHandler<P>>)
        ensures
            old(self).wf() ==> final(self).wf(),
            exists|name: Seq<char>, sync: bool|
                {
                    &&& #[trigger] final(self).functions().is_with(
                        old(self).functions(),
                        name,
                        (FunctionEntry { sync, handler: func }),
                    )
                    &&& says(func.name_spec(), name)
                    &&& says(func.sync_spec(), sync)
                },
            func.name_spec() matches Some(own) ==> final(self).functions().keys() == old(
                self,
            ).functions().keys_with(own),
            (func.name_spec() is Some && func.sync_spec() is Some)
                ==> final(self).functions().is_with(
                old(self).functions(),
                func.name_spec()->0,
                (FunctionEntry { sync: func.sync_spec()->0, handler: func }),
            ),
            final(self).commands() == old(self).commands(),
            final(self).autocmds() == old(self).autocmds(),
    {
        let name = func.name().to_owned();
        let sync = func.is_sync();
        let ghost key = name@;
        self.function_map.insert(name, FunctionEntry { sync, handler: func });
        proof {
            let entry = FunctionEntry { sync, handler: func };
            assert(self.functions().is_with(old(self).functions(), key, entry));
            lemma_registration(old(self).functions(), self.functions(), key, entry);
        }
    }

    /// Registers `handler` as the command `name`. A command already
    /// registered under that name is replaced.
    pub fn insert_command(&mut self, name: String, handler: Box<dyn CommandHandler<P>>)
        ensures
            old(self).wf() ==> final(self).wf(),
            final(self).commands().is_with(old(self).commands(), name@, handler),
            final(self).functions() == old(self).functions(),
            final(self).autocmds() == old(self).autocmds(),
    {
        self.command_map.insert(name, handler);
    }

    /// Registers a command handler under the name it gives itself. A command
    /// already registered under that name is replaced.
    pub fn register_command(&mut self, command: Box<dyn CommandHandler<P>>)
        ensures
            old(self).wf() ==> final(self).wf(),
            exists|name: Seq<char>|
                {
                    &&& #[trigger] final(self).commands().is_with(
                        old(self).commands(),
                        name,
                        command,
                    )
                    &&& says(command.name_spec(), name)
                },
            command.name_spec() matches Some(own) ==> {
                &&& final(self).commands().keys() == old(self).commands().keys_with(own)
                &&& final(self).commands().is_with(old(self).commands(), own, command)
            },
            final(self).functions() == old(self).functions(),
            final(self).autocmds() == old(self).autocmds(),
    {
        let name = command.name().to_owned();
        let ghost key = name@;
        self.command_map.insert(name, command);
        proof {
            assert(self.commands().is_with(old(self).commands(), key, command));
            lemma_registration(old(self).commands(), self.commands(), key, command);
        }
    }

    /// Registers `handler` for `event` and `pattern`. A handler already
    /// registered for the two is replaced.
    pub fn insert_autocmd(&mut self, event: String, pattern: String, handler: Box<dyn AutocmdHandler>)
        ensures
            old(self).wf() ==> final(self).wf(),
            final(self).autocmds().is_with(old(self).autocmds(), (event@, pattern@), handler),
            final(self).functions() == old(self).functions(),
            final(self).commands() == old(self).commands(),
    {
        self.autocmd_map.insert((event, pattern), handler);
    }

    /// Registers an autocommand handler for the event and pattern it gives
    /// itself. A handler already registered for the two is replaced.
    pub fn register_autocmd(&mut self, autocmd: Box<dyn AutocmdHandler>)
        ensures
            old(self).wf() ==> final(self).wf(),
            exists|event: Seq<char>, pattern: Seq<char>|
                {
                    &&& #[trigger] final(self).autocmds().is_with(
                        old(self).autocmds(),
                        (event, pattern),
                        autocmd,
                    )
                    &&& says(autocmd.event_spec(), event)
                    &&& says(autocmd.pattern_spec(), pattern)
                },
            (autocmd.event_spec() is Some && autocmd.pattern_spec() is Some) ==> {
                &&& final(self).autocmds().keys() == old(self).autocmds().keys_with(
                    (autocmd.event_spec()->0, autocmd.pattern_spec()->0),
                )
                &&& final(self).autocmds().is_with(
                    old(self).autocmds(),
                    (autocmd.event_spec()->0, autocmd.pattern_spec()->0),
                    autocmd,
                )
            },
            final(self).functions() == old(self).functions(),
            final(self).commands() == old(self).commands(),
    {
        let event = autocmd.event().to_owned();
        let pattern = autocmd.pattern().to_owned();
        let ghost key = (event@, pattern@);
        self.autocmd_map.insert((event, pattern), autocmd);
        proof {
            assert(self.autocmds().is_with(old(self).autocmds(), key, autocmd));
            lemma_registration(old(self).autocmds(), self.autocmds(), key, autocmd);
        }
    }

    /// Hands a request for the function `function` to its handler.
    pub fn handle_function(&mut self, client: &mut Client, function: &str, args: &[Value]) -> (reply:
        Reply<P>)
        ensures
            old(self).wf() ==> final(self).wf(),
            final(self).answers_function(*old(self), function@, args@, reply),
    {
        match unwrap_arg(args) {
            Ok(inner) => {
                let key = function.to_owned();
                match self.function_map.get_mut(&key) {
                    Some(entry) => {
                        let pending = entry.handler.handle(client, inner.as_slice());
                        Reply::Deferred(pending)
                    },
                    None => Reply::Failed(unknown("Unknown function: ", function)),
                }
            },
            Err(e) => Reply::Failed(from_text(e.as_str())),
        }
    }

    /// Hands a request for the command `command` to its handler.
    pub fn handle_command(&mut self, client: &mut Client, command: &str, args: &[Value]) -> (reply:
        Reply<P>)
        ensures
            old(self).wf() ==> final(self).wf(),
            final(self).answers_command(*old(self), command@, args@, reply),
    {
        match unwrap_arg(args) {
            Ok(inner) => {
                let key = command.to_owned();
                match self.command_map.get_mut(&key) {
                    Some(handler) => {
                        let pending = handler.handle(client, inner.as_slice());
                        Reply::Deferred(pending)
                    },
                    None => Reply::Failed(unknown("Unknown command: ", command)),
                }
            },
            Err(e) => Reply::Failed(from_text(e.as_str())),
        }
    }

    /// Hands the autocommand of `event` and `pattern` to its handler.
    pub fn handle_autocmd(
        &mut self,
        client: &mut Client,
        event: &str,
        pattern: &str,
        args: &[Value],
    ) -> (delivery: Delivery)
        ensures
            old(self).wf() ==> final(self).wf(),
            final(self).delivers_autocmd(*old(self), event@, pattern@, args@, delivery),
    {
        match unwrap_arg(args) {
            Ok(inner) => {
                let key = (event.to_owned(), pattern.to_owned());
                match self.autocmd_map.get_mut(&key) {
                    Some(handler) => {
                        handler.handle(client, inner.as_slice());
                        Delivery::Handled
                    },
                    None => Delivery::UnknownAutocmd,
                }
            },
            Err(_) => Delivery::BadArgument,
        }
    }

    /// Describes every registered function handler, in the order of
    /// registration.
    pub fn list_specs(&self) -> (value: Value)
        ensures
            value == array_value(self.specs()),
            array_items(value) == Some(self.specs()),
    {
        let mut specs: Vec<Value> = Vec::new();
        let mut i: usize = 0;
        while i < self.function_map.len()
            invariant
                i <= self.functions().keys().len(),
                specs@ == self.specs().take(i as int),
            decreases self.functions().keys().len() - i,
        {
            let name = self.function_map.key_at(i);
            let entry = self.function_map.handler_at(i);
            specs.push(serialize(entry.sync, name.as_str()));
            assert(specs@ =~= self.specs().take(i + 1));
            i += 1;
        }
        assert(specs@ =~= self.specs());
        from_items(specs)
    }

    /// Answers a request of the peer.
    ///
    /// `poll` is answered with `ok` and `specs` with the descriptions of the
    /// function handlers. A call of a function or a command goes to its
    /// handler. Everything else, an autocommand too, fails as an unknown
    /// method.
    pub fn handle_request(&mut self, client: &mut Client, method: &str, args: &[Value]) -> (reply:
        Reply<P>)
        ensures
            old(self).wf() ==> final(self).wf(),
            final(self).answers_request(*old(self), method@, args@, reply),
    {
        match Request::decode(method) {
            Request::Poll => Reply::Done(from_text("ok")),
            Request::Specs => Reply::Done(self.list_specs()),
            Request::Function(function) => self.handle_function(client, function, args),
            Request::Command(command) => self.handle_command(client, command, args),
            _ => Reply::Failed(unknown("Unknown method: ", method)),
        }
    }

    /// Takes a notification of the peer. Only an autocommand is one: it goes
    /// to its handler. Nothing is ever sent back.
    pub fn handle_notification(&mut self, client: &mut Client, method: &str, args: &[Value]) -> (delivery:
        Delivery)
        ensures
            old(self).wf() ==> final(self).wf(),
            final(self).delivers_notification(*old(self), method@, args@, delivery),
    {
        match Request::decode(method) {
            Request::Autocmd(event, pattern) => self.handle_autocmd(client, event, pattern, args),
            _ => Delivery::NotAutocmd,
        }
    }
}

/// A liveness probe is answered with `ok` whatever is registered, be it
/// nothing at all, and whatever its arguments are.
pub proof fn lemma_poll_succeeds<P>(
    before: RequestHandler<P>,
    after: RequestHandler<P>,
    args: Seq<Value>,
    reply: Reply<P>,
)
    requires
        after.answers_request(before, "poll"@, args, reply),
    ensures
        reply == Reply::<P>::Done(text_value("ok"@)),
        after == before,
{
    crate::method::lemma_decode_control();
}

/// The answer to `specs` is an array with one description for each name
/// under which a function is registered. Commands and autocommands do not
/// count.
pub proof fn lemma_specs_describe_functions<P>(
    before: RequestHandler<P>,
    after: RequestHandler<P>,
    args: Seq<Value>,
    reply: Reply<P>,
)
    requires
        before.wf(),
        after.answers_request(before, "specs"@, args, reply),
    ensures
        reply matches Reply::Done(value) && array_items(value) == Some(before.specs()),
        before.specs().len() == before.functions().keys().len(),
        distinct(before.functions().keys()),
        forall|other: RequestHandler<P>|
            other.functions() == before.functions() ==> #[trigger] other.specs() == before.specs(),
        after == before,
{
    crate::method::lemma_decode_control();
}

/// A call of a function that is not registered fails with an error that ends
/// in the name asked for, and the engine stays as it was: no handler ran.
/// This is so where the arguments are one array; where they are not, see
/// [`lemma_bad_argument`].
pub proof fn lemma_unknown_function<P>(
    before: RequestHandler<P>,
    after: RequestHandler<P>,
    namespace: Seq<char>,
    name: Seq<char>,
    args: Seq<Value>,
    reply: Reply<P>,
)
    requires
        colon_free(namespace),
        after.answers_request(before, namespace + ":function:"@ + name, args, reply),
        forwarded(args) is Some,
        !before.functions().contains(name),
    ensures
        reply == Reply::<P>::Failed(text_value("Unknown function: "@ + name)),
        after == before,
{
    crate::method::lemma_decode_function(namespace, name);
}

/// A call of a command that is not registered fails with an error that ends
/// in the name asked for, and the engine stays as it was: no handler ran.
/// This is so where the arguments are one array; where they are not, see
/// [`lemma_bad_argument`].
pub proof fn lemma_unknown_command<P>(
    before: RequestHandler<P>,
    after: RequestHandler<P>,
    namespace: Seq<char>,
    name: Seq<char>,
    args: Seq<Value>,
    reply: Reply<P>,
)
    requires
        colon_free(namespace),
        after.answers_request(before, namespace + ":command:"@ + name, args, reply),
        forwarded(args) is Some,
        !before.commands().contains(name),
    ensures
        reply == Reply::<P>::Failed(text_value("Unknown command: "@ + name)),
        after == before,
{
    crate::method::lemma_decode_command(namespace, name);
}

/// A call of a function or of a command without arguments, or with a first
/// argument that is no array, fails as a bad argument, and the engine stays as
/// it was: no handler ran, registered or not.
pub proof fn lemma_bad_argument<P>(
    before: RequestHandler<P>,
    after: RequestHandler<P>,
    method: Seq<char>,
    args: Seq<Value>,
    reply: Reply<P>,
)
    requires
        after.answers_request(before, method, args, reply),
        decode_spec(method) is Function || decode_spec(method) is Command,
        args.len() == 0 || array_items(args[0]) is None,
    ensures
        reply == Reply::<P>::Failed(text_value("Bad argument"@)),
        after == before,
{
}

/// An autocommand that comes as a request, and a method that follows no rule,
/// fail as an unknown method. The error ends in the method name, and the
/// engine stays as it was.
pub proof fn lemma_unknown_method<P>(
    before: RequestHandler<P>,
    after: RequestHandler<P>,
    method: Seq<char>,
    args: Seq<Value>,
    reply: Reply<P>,
)
    requires
        after.answers_request(before, method, args, reply),
        decode_spec(method) is Autocmd || decode_spec(method) is Unknown,
    ensures
        reply == Reply::<P>::Failed(text_value("Unknown method: "@ + method)),
        after == before,
{
}

/// Only an autocommand is a notification: every other method is dropped, and
/// the engine stays as it was.
pub proof fn lemma_not_a_notification<P>(
    before: RequestHandler<P>,
    after: RequestHandler<P>,
    method: Seq<char>,
    args: Seq<Value>,
    delivery: Delivery,
)
    requires
        after.delivers_notification(before, method, args, delivery),
        !(decode_spec(method) is Autocmd),
    ensures
        delivery == Delivery::NotAutocmd,
        after == before,
{
}

/// An autocommand for which nothing is registered, or whose arguments are not
/// one array, runs no handler: the engine stays as it was.
pub proof fn lemma_autocmd_dropped<P>(
    before: RequestHandler<P>,
    after: RequestHandler<P>,
    namespace: Seq<char>,
    event: Seq<char>,
    pattern: Seq<char>,
    args: Seq<Value>,
    delivery: Delivery,
)
    requires
        colon_free(namespace),
        colon_free(event),
        event.len() > 0,
        pattern.len() > 0,
        after.delivers_notification(
            before,
            namespace + ":autocmd:"@ + event + ":"@ + pattern,
            args,
            delivery,
        ),
        forwarded(args) is None || !before.autocmds().contains((event, pattern)),
    ensures
        delivery == (if forwarded(args) is None {
            Delivery::BadArgument
        } else {
            Delivery::UnknownAutocmd
        }),
        after == before,
{
    crate::method::lemma_decode_autocmd(namespace, event, pattern);
}

/// A call of a registered function with one array of arguments is answered
/// by the handler of that name and by no other: the reply is what this
/// handler answered to the items of the array, and every other handler is as
/// it was.
pub proof fn lemma_function_called<P>(
    before: RequestHandler<P>,
    after: RequestHandler<P>,
    namespace: Seq<char>,
    name: Seq<char>,
    args: Seq<Value>,
    reply: Reply<P>,
)
    requires
        colon_free(namespace),
        after.answers_request(before, namespace + ":function:"@ + name, args, reply),
        forwarded(args) is Some,
        before.functions().contains(name),
    ensures
        reply matches Reply::Deferred(pending) && before.functions().handlers()[position_of(
            before.functions().keys(),
            name,
        )->0].handler.answers(array_items(args[0])->0, pending),
        after.functions().differs_at_most_at(
            before.functions(),
            position_of(before.functions().keys(), name)->0,
        ),
        after.commands() == before.commands(),
        after.autocmds() == before.autocmds(),
{
    crate::method::lemma_decode_function(namespace, name);
}

/// A call of a registered command with one array of arguments is answered
/// by the handler of that name and by no other: the reply is what this
/// handler answered to the items of the array, and every other handler is as
/// it was.
pub proof fn lemma_command_called<P>(
    before: RequestHandler<P>,
    after: RequestHandler<P>,
    namespace: Seq<char>,
    name: Seq<char>,
    args: Seq<Value>,
    reply: Reply<P>,
)
    requires
        colon_free(namespace),
        after.answers_request(before, namespace + ":command:"@ + name, args, reply),
        forwarded(args) is Some,
        before.commands().contains(name),
    ensures
        reply matches Reply::Deferred(pending) && before.commands().handlers()[position_of(
            before.commands().keys(),
            name,
        )->0].answers(array_items(args[0])->0, pending),
        after.commands().differs_at_most_at(
            before.commands(),
            position_of(before.commands().keys(), name)->0,
        ),
        after.functions() == before.functions(),
        after.autocmds() == before.autocmds(),
{
    crate::method::lemma_decode_command(namespace, name);
}

/// An autocommand with one array of arguments, for whose event and pattern a
/// handler is registered, reaches that handler and no other: it has taken
/// the items of the array, and every other handler is as it was.
pub proof fn lemma_autocmd_delivered<P>(
    before: RequestHandler<P>,
    after: RequestHandler<P>,
    namespace: Seq<char>,
    event: Seq<char>,
    pattern: Seq<char>,
    args: Seq<Value>,
    delivery: Delivery,
)
    requires
        colon_free(namespace),
        colon_free(event),
        event.len() > 0,
        pattern.len() > 0,
        after.delivers_notification(
            before,
            namespace + ":autocmd:"@ + event + ":"@ + pattern,
            args,
            delivery,
        ),
        forwarded(args) is Some,
        before.autocmds().contains((event, pattern)),
    ensures
        delivery == Delivery::Handled,
        after.autocmds().handlers()[position_of(before.autocmds().keys(), (event, pattern))->0].took(
            array_items(args[0])->0,
        ),
        after.autocmds().differs_at_most_at(
            before.autocmds(),
            position_of(before.autocmds().keys(), (event, pattern))->0,
        ),
        after.functions() == before.functions(),
        after.commands() == before.commands(),
{
    crate::method::lemma_decode_autocmd(namespace, event, pattern);
}

/// A function handler that names itself stands, once registered, under its
/// own name and described as it describes itself. A function that had that
/// name is gone, so that the number of functions stays; under a new name it
/// grows by one. Every other function is as it was.
pub proof fn lemma_function_registered<P>(
    before: RequestHandler<P>,
    after: RequestHandler<P>,
    entry: FunctionEntry<P>,
    name: Seq<char>,
    own: Seq<char>,
)
    requires
        entry.handler.name_spec() == Some(own),
        after.functions().is_with(before.functions(), name, entry),
        says(entry.handler.name_spec(), name),
        says(entry.handler.sync_spec(), entry.sync),
    ensures
        after.functions().handler_of(own) == Some(entry),
        says(entry.handler.sync_spec(), after.functions().handler_of(own)->0.sync),
        forall|other: Seq<char>|
            other != own ==> after.functions().handler_of(other) == before.functions().handler_of(
                other,
            ),
        after.functions().keys() == before.functions().keys_with(own),
        before.functions().contains(own) ==> after.specs().len() == before.specs().len(),
        !before.functions().contains(own) ==> after.specs().len() == before.specs().len() + 1,
        before.wf() && after.commands() == before.commands() && after.autocmds()
            == before.autocmds() ==> after.wf(),
{
    lemma_registration(before.functions(), after.functions(), name, entry);
}

/// A command handler that names itself stands, once registered, under its
/// own name. A command that had that name is gone; under a new name the
/// commands grow by one. Every other command is as it was.
pub proof fn lemma_command_registered<P>(
    before: RequestHandler<P>,
    after: RequestHandler<P>,
    handler: Box<dyn CommandHandler<P>>,
    name: Seq<char>,
    own: Seq<char>,
)
    requires
        handler.name_spec() == Some(own),
        after.commands().is_with(before.commands(), name, handler),
        says(handler.name_spec(), name),
    ensures
        after.commands().is_with(before.commands(), own, handler),
        after.commands().keys() == before.commands().keys_with(own),
        forall|other: Seq<char>|
            other != own ==> after.commands().handler_of(other) == before.commands().handler_of(
                other,
            ),
{
    lemma_registration(before.commands(), after.commands(), name, handler);
}

/// An autocommand handler that names its event and pattern stands, once
/// registered, under the two. A handler that stood there is gone; under a
/// new pair the handlers grow by one. Every other handler is as it was.
pub proof fn lemma_autocmd_registered<P>(
    before: RequestHandler<P>,
    after: RequestHandler<P>,
    handler: Box<dyn AutocmdHandler>,
    event: Seq<char>,
    pattern: Seq<char>,
    own: (Seq<char>, Seq<char>),
)
    requires
        handler.event_spec() == Some(own.0),
        handler.pattern_spec() == Some(own.1),
        after.autocmds().is_with(before.autocmds(), (event, pattern), handler),
        says(handler.event_spec(), event),
        says(handler.pattern_spec(), pattern),
    ensures
        after.autocmds().is_with(before.autocmds(), own, handler),
        after.autocmds().keys() == before.autocmds().keys_with(own),
        forall|other: (Seq<char>, Seq<char>)|
            other != own ==> after.autocmds().handler_of(other) == before.autocmds().handler_of(
                other,
            ),
{
    lemma_registration(before.autocmds(), after.autocmds(), (event, pattern), handler);
}

} // verus!
