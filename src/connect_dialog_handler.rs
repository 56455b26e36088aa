//! The dialog in which the user names a remote backend by its node id and,
//! optionally, a relay.
use vstd::prelude::*;
use vstd::string::*;
use iroh_base::key::PublicKey;
use iroh_base::node_addr::RelayUrl;
use crate::identity::{
    key_text_shape, node_id_accepts, parse_node_id, parse_relay_url, relay_url_accepts, trim,
    trimmed,
};

verus! {

/// Why the dialog's input does not name a backend.
#[derive(Debug)]
pub enum ConnectError {
    /// No node id was given.
    EmptyNodeId,
    /// The node id is not a public key; the parser's explanation.
    MalformedIdentity(String),
    /// The relay is given but is not a URL; the parser's explanation.
    MalformedRelayHint(String),
}

/// What the dialog's input comes to.
pub enum ConnectOutcome {
    EmptyNodeId,
    MalformedIdentity,
    MalformedRelayHint,
    Direct,
    ViaRelay,
}

/// What a node id and a relay, both trimmed, come to.
pub open spec fn connect_outcome(node_id: Seq<char>, relay_url: Seq<char>) -> ConnectOutcome {
    if node_id.len() == 0 {
        ConnectOutcome::EmptyNodeId
    } else if !node_id_accepts(node_id) {
        ConnectOutcome::MalformedIdentity
    } else if relay_url.len() == 0 {
        ConnectOutcome::Direct
    } else if !relay_url_accepts(relay_url) {
        ConnectOutcome::MalformedRelayHint
    } else {
        ConnectOutcome::ViaRelay
    }
}

pub open spec fn outcome_of(r: Result<(PublicKey, Option<RelayUrl>), ConnectError>) -> ConnectOutcome {
    match r {
        Ok((_, None)) => ConnectOutcome::Direct,
        Ok((_, Some(_))) => ConnectOutcome::ViaRelay,
        Err(ConnectError::EmptyNodeId) => ConnectOutcome::EmptyNodeId,
        Err(ConnectError::MalformedIdentity(_)) => ConnectOutcome::MalformedIdentity,
        Err(ConnectError::MalformedRelayHint(_)) => ConnectOutcome::MalformedRelayHint,
    }
}

pub open spec fn error_text(e: ConnectError) -> Seq<char> {
    match e {
        ConnectError::EmptyNodeId => "Please Enter Node Id"@,
        ConnectError::MalformedIdentity(t) => t@,
        ConnectError::MalformedRelayHint(t) => t@,
    }
}

impl ConnectError {
    /// The text shown next to the input.
    pub fn message(&self) -> (r: String)
        ensures
            r@ == error_text(*self),
    {
        match self {
            ConnectError::EmptyNodeId => String::from_str("Please Enter Node Id"),
            ConnectError::MalformedIdentity(t) => t.clone(),
            ConnectError::MalformedRelayHint(t) => t.clone(),
        }
    }
}

/// Puts the results of parsing together: the node id is parsed first, and
/// the relay, `None` when none was given, only once the node id is good.
pub fn connect_target(
    node_id: Result<PublicKey, String>,
    relay_url: Option<Result<RelayUrl, String>>,
) -> (r: Result<(PublicKey, Option<RelayUrl>), ConnectError>)
    ensures
        match (node_id, relay_url) {
            (Err(t), _) => r matches Err(ConnectError::MalformedIdentity(u)) && u@ == t@,
            (Ok(_), None) => r matches Ok((_, None)),
            (Ok(_), Some(Err(t))) => r matches Err(ConnectError::MalformedRelayHint(u)) && u@ == t@,
            (Ok(_), Some(Ok(_))) => r matches Ok((_, Some(_))),
        },
{
    match node_id {
        Err(t) => Err(ConnectError::MalformedIdentity(t)),
        Ok(id) => match relay_url {
            None => Ok((id, None)),
            Some(Err(t)) => Err(ConnectError::MalformedRelayHint(t)),
            Some(Ok(url)) => Ok((id, Some(url))),
        },
    }
}

/// Reads a node id and an optional relay as typed, ignoring whitespace
/// around each. An empty relay means the default relays; it is not parsed.
pub fn parse_connect_target(node_id: &str, relay_url: &str) -> (r: Result<(PublicKey, Option<RelayUrl>), ConnectError>)
    ensures
        outcome_of(r) == connect_outcome(trimmed(node_id@), trimmed(relay_url@)),
        trimmed(node_id@).len() > 0 && !key_text_shape(trimmed(node_id@)) ==> r matches Err(ConnectError::MalformedIdentity(_)),
{
    let n = trim(node_id);
    if n.is_empty() {
        return Err(ConnectError::EmptyNodeId);
    }
    let id = parse_node_id(n);
    if id.is_err() {
        return connect_target(id, None);
    }
    let u = trim(relay_url);
    if u.is_empty() {
        connect_target(id, None)
    } else {
        let url = parse_relay_url(u);
        connect_target(id, Some(url))
    }
}

/// Everything the dialog handles. Key presses reach it as
/// `HideConnectDialog` when they close it.
#[derive(Debug)]
pub enum ConnectDialogMessage {
    NodeIdEntered(String),
    RelayURL(String),
    ConnectButtonPressed(String, String),
    HideConnectDialog,
    ShowConnectDialog,
    ConnectionError(String),
}

/// The state of the connect dialog.
#[derive(Debug, Clone)]
pub struct ConnectDialog {
    pub node_id: String,
    pub relay_url: String,
    pub iroh_connection_error: String,
    pub show_modal: bool,
    pub show_spinner: bool,
    pub disable_widgets: bool,
}

/// The dialog closed: every field empty, nothing disabled.
pub open spec fn hidden(d: ConnectDialog) -> bool {
    &&& !d.show_modal
    &&& d.node_id@.len() == 0
    &&& d.relay_url@.len() == 0
    &&& d.iroh_connection_error@.len() == 0
    &&& !d.show_spinner
    &&& !d.disable_widgets
}

impl ConnectDialog {
    /// A closed dialog with empty fields.
    pub fn new() -> (r: ConnectDialog)
        ensures
            hidden(r),
    {
        ConnectDialog {
            node_id: String::new(),
            relay_url: String::new(),
            iroh_connection_error: String::new(),
            show_modal: false,
            show_spinner: false,
            disable_widgets: false,
        }
    }

    /// Closes the dialog and forgets what was typed.
    fn hide_modal(&mut self)
        ensures
            hidden(*final(self)),
    {
        self.show_modal = false;
        self.node_id = String::new();
        self.iroh_connection_error = String::new();
        self.relay_url = String::new();
        self.show_spinner = false;
        self.disable_widgets = false;
    }

    /// Handles one message. A connect request whose input names a backend
    /// returns it; input that does not is reported in the dialog, whose
    /// controls are enabled again.
    pub fn update(&mut self, message: ConnectDialogMessage) -> (r: Option<(PublicKey, Option<RelayUrl>)>)
        ensures
            match message {
                ConnectDialogMessage::ConnectButtonPressed(n, u) => {
                    let o = connect_outcome(trimmed(n@), trimmed(u@));
                    &&& (r is Some <==> (o is Direct || o is ViaRelay))
                    &&& (r matches Some((_, relay)) ==> (relay is Some <==> o is ViaRelay))
                    &&& (r is Some ==> final(self).show_spinner == old(self).show_spinner
                        && final(self).disable_widgets == old(self).disable_widgets)
                    &&& (o is ViaRelay ==> final(self).iroh_connection_error@.len() == 0)
                    &&& (o is Direct ==> final(self).iroh_connection_error == old(self).iroh_connection_error)
                    &&& (o is EmptyNodeId ==> final(self).iroh_connection_error@ == "Please Enter Node Id"@)
                    &&& (r is None ==> !final(self).show_spinner && !final(self).disable_widgets)
                    &&& final(self).node_id == old(self).node_id
                    &&& final(self).relay_url == old(self).relay_url
                    &&& final(self).show_modal == old(self).show_modal
                },
                ConnectDialogMessage::ShowConnectDialog => {
                    &&& r is None
                    &&& *final(self) == (ConnectDialog { show_modal: true, ..*old(self) })
                },
                ConnectDialogMessage::HideConnectDialog => r is None && hidden(*final(self)),
                ConnectDialogMessage::NodeIdEntered(s) => {
                    &&& r is None
                    &&& *final(self) == (ConnectDialog { node_id: s, ..*old(self) })
                },
                ConnectDialogMessage::RelayURL(s) => {
                    &&& r is None
                    &&& *final(self) == (ConnectDialog { relay_url: s, ..*old(self) })
                },
                ConnectDialogMessage::ConnectionError(e) => {
                    &&& r is None
                    &&& *final(self) == (ConnectDialog { iroh_connection_error: e, disable_widgets: false, ..*old(self) })
                },
            },
    {
        match message {
            ConnectDialogMessage::ConnectButtonPressed(node_id, url) => {
                match parse_connect_target(node_id.as_str(), url.as_str()) {
                    Ok((id, relay)) => {
                        if relay.is_some() {
                            self.iroh_connection_error = String::new();
                        }
                        Some((id, relay))
                    },
                    Err(e) => {
                        self.iroh_connection_error = e.message();
                        self.show_spinner = false;
                        self.disable_widgets = false;
                        None
                    },
                }
            },
            ConnectDialogMessage::ShowConnectDialog => {
                self.show_modal = true;
                None
            },
            ConnectDialogMessage::HideConnectDialog => {
                self.hide_modal();
                None
            },
            ConnectDialogMessage::NodeIdEntered(node_id) => {
                self.node_id = node_id;
                None
            },
            ConnectDialogMessage::RelayURL(relay_url) => {
                self.relay_url = relay_url;
                None
            },
            ConnectDialogMessage::ConnectionError(error) => {
                self.iroh_connection_error = error;
                self.disable_widgets = false;
                None
            },
        }
    }
}

impl Default for ConnectDialog {
    fn default() -> (r: ConnectDialog)
        ensures
            hidden(r),
    {
        ConnectDialog::new()
    }
}

} // verus!
