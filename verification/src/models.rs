//! Shared data types: parameters with their metadata, the modes of the create
//! popup, and the channels that connect the app to its background workers.
use std::sync::mpsc::{Receiver, Sender};
use vstd::prelude::*;

verus! {

/// The sending half of a standard channel, carried through as an opaque value.
#[verifier::external_type_specification]
#[verifier::external_body]
#[verifier::reject_recursive_types(T)]
pub struct ExSender<T>(Sender<T>);

/// The receiving half of a standard channel, carried through as an opaque value.
#[verifier::external_type_specification]
#[verifier::external_body]
#[verifier::reject_recursive_types(T)]
pub struct ExReceiver<T>(Receiver<T>);

/// Metadata of a parameter as the store reports it.
pub struct ParameterMeta {
    pub param_type: Option<String>,
    pub version: Option<i64>,
    pub tier: Option<String>,
    pub data_type: Option<String>,
    pub key_id: Option<String>,
    pub last_modified_epoch: Option<i64>,
    pub description: Option<String>,
    pub last_modified_user: Option<String>,
}

#[verifier::ext_equal]
pub struct MetaView {
    pub param_type: Option<Seq<char>>,
    pub version: Option<i64>,
    pub tier: Option<Seq<char>>,
    pub data_type: Option<Seq<char>>,
    pub key_id: Option<Seq<char>>,
    pub last_modified_epoch: Option<i64>,
    pub description: Option<Seq<char>>,
    pub last_modified_user: Option<Seq<char>>,
}

/// The characters of an optional string.
pub open spec fn opt_text(o: Option<String>) -> Option<Seq<char>> {
    match o {
        Some(s) => Some(s@),
        None => None,
    }
}

impl View for ParameterMeta {
    type V = MetaView;

    open spec fn view(&self) -> MetaView {
        MetaView {
            param_type: opt_text(self.param_type),
            version: self.version,
            tier: opt_text(self.tier),
            data_type: opt_text(self.data_type),
            key_id: opt_text(self.key_id),
            last_modified_epoch: self.last_modified_epoch,
            description: opt_text(self.description),
            last_modified_user: opt_text(self.last_modified_user),
        }
    }
}

/// Metadata with every field absent.
pub open spec fn empty_meta() -> MetaView {
    MetaView {
        param_type: None,
        version: None,
        tier: None,
        data_type: None,
        key_id: None,
        last_modified_epoch: None,
        description: None,
        last_modified_user: None,
    }
}

impl Default for ParameterMeta {
    fn default() -> (r: ParameterMeta)
        ensures
            r@ == empty_meta(),
    {
        ParameterMeta {
            param_type: None,
            version: None,
            tier: None,
            data_type: None,
            key_id: None,
            last_modified_epoch: None,
            description: None,
            last_modified_user: None,
        }
    }
}

impl Clone for ParameterMeta {
    fn clone(&self) -> (r: ParameterMeta)
        ensures
            r@ == self@,
    {
        ParameterMeta {
            param_type: clone_opt(&self.param_type),
            version: self.version,
            tier: clone_opt(&self.tier),
            data_type: clone_opt(&self.data_type),
            key_id: clone_opt(&self.key_id),
            last_modified_epoch: self.last_modified_epoch,
            description: clone_opt(&self.description),
            last_modified_user: clone_opt(&self.last_modified_user),
        }
    }
}

/// A copy of an optional string.
pub fn clone_opt(o: &Option<String>) -> (r: Option<String>)
    ensures
        opt_text(r) == opt_text(*o),
{
    match o {
        Some(s) => Some(s.clone()),
        None => None,
    }
}

/// A parameter: its name, its value once loaded, and its metadata.
pub struct Parameter {
    pub name: String,
    pub value: Option<String>,
    pub meta: ParameterMeta,
}

#[verifier::ext_equal]
pub struct ParameterView {
    pub name: Seq<char>,
    pub value: Option<Seq<char>>,
    pub meta: MetaView,
}

impl View for Parameter {
    type V = ParameterView;

    open spec fn view(&self) -> ParameterView {
        ParameterView { name: self.name@, value: opt_text(self.value), meta: self.meta@ }
    }
}

impl Clone for Parameter {
    fn clone(&self) -> (r: Parameter)
        ensures
            r@ == self@,
    {
        Parameter { name: self.name.clone(), value: clone_opt(&self.value), meta: self.meta.clone() }
    }
}

/// The views of a list of parameters.
pub open spec fn params_view(v: Seq<Parameter>) -> Seq<ParameterView> {
    v.map_values(|p: Parameter| p@)
}

/// Which field of the create popup has the focus.
#[derive(Clone, Copy, PartialEq, Eq, Structural)]
pub enum CreateField {
    Name,
    Value,
}

/// Mode of the value editor in the create popup.
#[derive(Clone, Copy, PartialEq, Eq, Structural)]
pub enum ValueEditorMode {
    Insert,
    Normal,
}

/// A value fetched in the background for the parameter `name`.
pub struct ValueFetchResult {
    pub name: String,
    pub value: Result<String, String>,
}

/// The request side of the value workers' channel: a `Sender<String>` and
/// the list of every name handed to it. Only `send` extends that list.
pub struct RequestSender {
    tx: Sender<String>,
    sent: Ghost<Seq<Seq<char>>>,
}

impl View for RequestSender {
    type V = Seq<Seq<char>>;

    /// Every name handed to the channel's `Sender::send`, in order. (The
    /// sender itself is opaque; what it is handed is all that shows of it.)
    closed spec fn view(&self) -> Seq<Seq<char>> {
        self.sent@
    }
}

impl RequestSender {
    /// A request side over `tx` that has handed nothing over yet.
    pub fn new(tx: Sender<String>) -> (r: RequestSender)
        ensures
            r@ == Seq::<Seq<char>>::empty(),
    {
        RequestSender { tx, sent: Ghost(Seq::empty()) }
    }

    /// `Sender::send`: hands `name` to the channel, once, and reports whether
    /// the receiving side still existed. Claimed: the name joins the list of
    /// what was handed to the sender (the list is the record of these calls).
    /// Whether it was delivered depends on the receiving side and is not
    /// stated.
    #[verifier::external_body]
    pub(crate) fn send(&mut self, name: String) -> (delivered: bool)
        ensures
            final(self)@ == old(self)@.push(name@),
    {
        self.tx.send(name).is_ok()
    }
}

/// The channels of the background value fetchers: names go out, values come back.
pub struct ValueWorkerPool {
    pub request_tx: RequestSender,
    pub response_rx: Receiver<ValueFetchResult>,
}

/// The names a pool's workers have been handed, if there is a pool.
pub open spec fn pool_view(pool: Option<ValueWorkerPool>) -> Option<Seq<Seq<char>>> {
    match pool {
        Some(p) => Some(p.request_tx@),
        None => None,
    }
}

/// What a background refresh of all parameters delivers.
pub struct FullRefreshResult {
    pub parameters: Vec<Parameter>,
    pub count: usize,
    pub thread_count: usize,
}

/// Outcome of polling a channel once.
pub enum Polled<T> {
    Ready(T),
    Empty,
    Disconnected,
}

/// `Receiver::try_recv`: takes one message if one is waiting, without blocking.
/// What arrives depends on other threads, so nothing is stated of it.
#[verifier::external_body]
pub(crate) fn channel_try_receive<T>(rx: &Receiver<T>) -> Polled<T> {
    match rx.try_recv() {
        Ok(v) => Polled::Ready(v),
        Err(std::sync::mpsc::TryRecvError::Empty) => Polled::Empty,
        Err(std::sync::mpsc::TryRecvError::Disconnected) => Polled::Disconnected,
    }
}

/// `Receiver::try_iter`: takes every message that is waiting, without blocking.
/// What arrives depends on other threads, so nothing is stated of it.
#[verifier::external_body]
pub(crate) fn channel_drain<T>(rx: &Receiver<T>) -> Vec<T> {
    rx.try_iter().collect()
}

} // verus!
