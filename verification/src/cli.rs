//! The command line: what each command asks for, and how a running node is asked.
use crate::hex_text;
use crate::hex_text::hex_encoded;
use crate::identity::{IdentityView, NodeIdentity};
use crate::text;
use crate::text::{contains_text, decimal_digits, joined, occurs_at, texts};
use vstd::prelude::*;
use vstd::string::*;
use vstd::utf8::*;

verus! {

/// A command line.
#[derive(Debug)]
pub struct Cli {
    pub command: Option<Commands>,
}

/// The commands.
#[derive(Debug)]
pub enum Commands {
    /// Start the mesh node, which is also what happens without a command.
    Start,
    /// Print the node's own id and public key.
    Id,
    /// Print the peers, each with the hops that its beacon travelled.
    Peers,
    /// Send an encrypted message to a node.
    Send {
        /// Id of the node.
        id: String,
        /// Words of the message.
        msg: Vec<String>,
    },
    /// Print the peers, as `Peers` does: a running node reaches each of them over the mesh,
    /// and holds no routes beside them.
    Route,
    /// Approve a pending request for friendship.
    Approve {
        /// Id of the node.
        id: String,
    },
}

// JSON objects.

/// The text of a JSON object with these names and string values, as `serde_json` writes
/// it.
pub uninterp spec fn json_object_text(fields: Seq<(Seq<char>, Seq<char>)>) -> Seq<char>;

/// The names and values of the fields of an object.
pub open spec fn field_texts(fields: Seq<(String, String)>) -> Seq<(Seq<char>, Seq<char>)> {
    fields.map_values(|f: (String, String)| (f.0@, f.1@))
}

/// Makes a `serde_json::Value` of the fields and writes it as text with its `Display`. The
/// text depends on the fields alone.
#[verifier::external_body]
fn object_text(fields: Vec<(String, String)>) -> (text: String)
    ensures
        text@ == json_object_text(field_texts(fields@)),
{
    serde_json::Value::from_iter(fields).to_string()
}

// Commands.

/// A request to the running node.
#[derive(Debug)]
pub struct ApiCall {
    pub method: String,
    pub path: String,
    pub body: Option<String>,
}

/// What a request to the running node stands for.
#[verifier::ext_equal]
pub struct ApiCallView {
    pub method: Seq<char>,
    pub path: Seq<char>,
    pub body: Option<Seq<char>>,
}

impl View for ApiCall {
    type V = ApiCallView;

    open spec fn view(&self) -> ApiCallView {
        ApiCallView {
            method: self.method@,
            path: self.path@,
            body: match self.body {
                Some(body) => Some(body@),
                None => None,
            },
        }
    }
}

/// What a command line asks for.
pub enum CommandPlan {
    /// Run the node.
    RunNode,
    /// Print the identity.
    PrintIdentity,
    /// Ask the running node.
    CallApi(ApiCall),
}

/// What a command line asks for.
pub enum CommandPlanView {
    RunNode,
    PrintIdentity,
    CallApi(ApiCallView),
}

impl View for CommandPlan {
    type V = CommandPlanView;

    open spec fn view(&self) -> CommandPlanView {
        match self {
            CommandPlan::RunNode => CommandPlanView::RunNode,
            CommandPlan::PrintIdentity => CommandPlanView::PrintIdentity,
            CommandPlan::CallApi(call) => CommandPlanView::CallApi(call@),
        }
    }
}

/// What a command line asks for. Without a command the node is run.
pub open spec fn planned(cli: Cli) -> CommandPlanView {
    match cli.command {
        None => CommandPlanView::RunNode,
        Some(Commands::Start) => CommandPlanView::RunNode,
        Some(Commands::Id) => CommandPlanView::PrintIdentity,
        Some(Commands::Peers) => CommandPlanView::CallApi(
            ApiCallView { method: "GET"@, path: "/api/peers"@, body: None },
        ),
        Some(Commands::Route) => CommandPlanView::CallApi(
            ApiCallView { method: "GET"@, path: "/api/peers"@, body: None },
        ),
        Some(Commands::Send { id, msg }) => CommandPlanView::CallApi(
            ApiCallView {
                method: "POST"@,
                path: "/api/send"@,
                body: Some(
                    json_object_text(
                        seq![("tan_id"@, id@), ("message"@, joined(texts(msg@), " "@))],
                    ),
                ),
            },
        ),
        Some(Commands::Approve { id }) => CommandPlanView::CallApi(
            ApiCallView {
                method: "POST"@,
                path: "/api/approve"@,
                body: Some(json_object_text(seq![("tan_id"@, id@)])),
            },
        ),
    }
}

/// Decide what a command line asks for.
pub fn plan(cli: &Cli) -> (plan: CommandPlan)
    ensures
        plan@ == planned(*cli),
{
    match &cli.command {
        None => CommandPlan::RunNode,
        Some(Commands::Start) => CommandPlan::RunNode,
        Some(Commands::Id) => CommandPlan::PrintIdentity,
        Some(Commands::Peers) | Some(Commands::Route) => CommandPlan::CallApi(
            ApiCall { method: "GET".to_owned(), path: "/api/peers".to_owned(), body: None },
        ),
        Some(Commands::Send { id, msg }) => {
            let message = text::join(msg, 0, " ");
            let mut fields: Vec<(String, String)> = Vec::new();
            fields.push(("tan_id".to_owned(), id.clone()));
            fields.push(("message".to_owned(), message));
            proof {
                assert(texts(msg@).skip(0) =~= texts(msg@));
                assert(field_texts(fields@) =~= seq![
                    ("tan_id"@, id@),
                    ("message"@, joined(texts(msg@), " "@)),
                ]);
            }
            CommandPlan::CallApi(
                ApiCall {
                    method: "POST".to_owned(),
                    path: "/api/send".to_owned(),
                    body: Some(object_text(fields)),
                },
            )
        },
        Some(Commands::Approve { id }) => {
            let mut fields: Vec<(String, String)> = Vec::new();
            fields.push(("tan_id".to_owned(), id.clone()));
            assert(field_texts(fields@) =~= seq![("tan_id"@, id@)]);
            CommandPlan::CallApi(
                ApiCall {
                    method: "POST".to_owned(),
                    path: "/api/approve".to_owned(),
                    body: Some(object_text(fields)),
                },
            )
        },
    }
}

/// The three lines that the `id` command prints.
pub open spec fn identity_report(identity: IdentityView) -> Seq<char> {
    "TanID:       "@ + identity.tan_id + "\nName:        "@ + identity.friendly_name
        + "\nPublic Key:  "@ + hex_encoded(identity.public_key)
}

/// The three lines that the `id` command prints.
pub fn identity_lines(identity: &NodeIdentity) -> (lines: String)
    ensures
        lines@ == identity_report(identity@),
{
    let mut lines = "TanID:       ".to_owned();
    lines.append(identity.tan_id.as_str());
    lines.append("\nName:        ");
    lines.append(identity.friendly_name.as_str());
    lines.append("\nPublic Key:  ");
    lines.append(hex_text::encode(&identity.public_key_bytes()).as_str());
    lines
}

// Asking a running node.

/// The address of the running node, given the `TANOS_PORT` variable.
pub fn local_address(variable: &Option<String>) -> (address: String)
    ensures
        address@ == "127.0.0.1:"@ + (match variable {
            Some(port) => port@,
            None => "7700"@,
        }),
{
    let mut address = "127.0.0.1:".to_owned();
    match variable {
        Some(port) => {
            address.append(port.as_str());
        },
        None => {
            address.append("7700");
        },
    }
    address
}

/// What is reported when no node answers, given the `TANOS_PORT` variable.
pub fn connect_failure(variable: &Option<String>) -> (message: String)
    ensures
        message@ == "Failed to connect on port "@ + (match variable {
            Some(port) => port@,
            None => "7700"@,
        }) + ". Is `tanos-node start` running?"@,
{
    let mut message = "Failed to connect on port ".to_owned();
    match variable {
        Some(port) => {
            message.append(port.as_str());
        },
        None => {
            message.append("7700");
        },
    }
    message.append(". Is `tanos-node start` running?");
    message
}

/// The request that is sent to the running node.
pub open spec fn request_text(call: ApiCallView) -> Seq<char> {
    let content = match call.body {
        Some(body) => body,
        None => Seq::empty(),
    };
    call.method + " "@ + call.path
        + " HTTP/1.1\r\nHost: localhost\r\nContent-Type: application/json\r\nContent-Length: "@
        + decimal_digits(encode_utf8(content).len()) + "\r\nConnection: close\r\n\r\n"@ + content
}

/// Write the request that is sent to the running node.
pub fn http_request(call: &ApiCall) -> (request: String)
    ensures
        request@ == request_text(call@),
{
    let empty = String::new();
    let content = match &call.body {
        Some(body) => body.as_str(),
        None => empty.as_str(),
    };
    let length: usize = content.as_bytes().len();
    let mut request = call.method.clone();
    request.append(" ");
    request.append(call.path.as_str());
    request.append(
        " HTTP/1.1\r\nHost: localhost\r\nContent-Type: application/json\r\nContent-Length: ",
    );
    request.append(text::decimal(length as u64).as_str());
    request.append("\r\nConnection: close\r\n\r\n");
    request.append(content);
    assert(content@ == (match call@.body {
        Some(body) => body,
        None => Seq::empty(),
    }));
    request
}

/// The part of a response behind the first empty line is this one.
pub open spec fn is_body_of(body: Seq<char>, response: Seq<char>) -> bool {
    exists|i: int| #[trigger]
        occurs_at(response, "\r\n\r\n"@, i) && body == response.skip(i + 4) && (forall|k: int|
            0 <= k < i ==> !#[trigger] occurs_at(response, "\r\n\r\n"@, k))
}

/// What is printed of a response: what follows the first empty line, or all of it where
/// there is none.
pub fn response_body(response: &str) -> (body: String)
    ensures
        if contains_text(response@, "\r\n\r\n"@) {
            is_body_of(body@, response@)
        } else {
            body@ == response@
        },
{
    proof {
        reveal_strlit("\r\n\r\n");
    }
    match text::find(response, "\r\n\r\n") {
        Some(i) => {
            assert("\r\n\r\n"@.len() == 4);
            assert(occurs_at(response@, "\r\n\r\n"@, i as int));
            let n: usize = response.unicode_len();
            let body = response.substring_char(i + 4, n).to_owned();
            assert(body@ =~= response@.skip(i + 4));
            body
        },
        None => response.to_owned(),
    }
}

/// What the commands ask for. Only `id` prints the identity, and only `start`, or no command,
/// runs the node; the others ask the running node: for its peers, to send the words joined by
/// spaces, or to approve.
pub proof fn law_what_commands_ask_for(id: String, msg: Vec<String>)
    ensures
        planned(Cli { command: None }) == CommandPlanView::RunNode,
        planned(Cli { command: Some(Commands::Start) }) == CommandPlanView::RunNode,
        planned(Cli { command: Some(Commands::Id) }) == CommandPlanView::PrintIdentity,
        planned(Cli { command: Some(Commands::Peers) }) == CommandPlanView::CallApi(
            ApiCallView { method: "GET"@, path: "/api/peers"@, body: None },
        ),
        planned(Cli { command: Some(Commands::Route) }) == CommandPlanView::CallApi(
            ApiCallView { method: "GET"@, path: "/api/peers"@, body: None },
        ),
        planned(Cli { command: Some(Commands::Send { id, msg }) }) == CommandPlanView::CallApi(
            ApiCallView {
                method: "POST"@,
                path: "/api/send"@,
                body: Some(
                    json_object_text(
                        seq![("tan_id"@, id@), ("message"@, joined(texts(msg@), " "@))],
                    ),
                ),
            },
        ),
        planned(Cli { command: Some(Commands::Approve { id }) }) == CommandPlanView::CallApi(
            ApiCallView {
                method: "POST"@,
                path: "/api/approve"@,
                body: Some(json_object_text(seq![("tan_id"@, id@)])),
            },
        ),
{
}

/// A request names its method and path, announces the length of its content in bytes, and
/// carries the content behind an empty line; a call without a body has no content.
pub proof fn law_what_a_request_says(
    method: Seq<char>,
    path: Seq<char>,
    content: Seq<char>,
    call: ApiCall,
)
    ensures
        request_text(ApiCallView { method, path, body: Some(content) }) == method + " "@ + path
            + " HTTP/1.1\r\nHost: localhost\r\nContent-Type: application/json\r\nContent-Length: "@
            + decimal_digits(encode_utf8(content).len()) + "\r\nConnection: close\r\n\r\n"@
            + content,
        request_text(ApiCallView { method, path, body: None }) == request_text(
            ApiCallView { method, path, body: Some(Seq::empty()) },
        ),
        call@.method == call.method@,
        call@.path == call.path@,
        call@.body is Some <==> call.body is Some,
        call.body is Some ==> call@.body->0 == call.body->0@,
{
}

/// The body of a response is what follows its first empty line.
pub proof fn law_what_follows_the_first_empty_line(body: Seq<char>, response: Seq<char>)
    requires
        is_body_of(body, response),
    ensures
        exists|i: int| #[trigger]
            occurs_at(response, "\r\n\r\n"@, i) && response.skip(i + 4) == body && (forall|k: int|
                0 <= k < i ==> !#[trigger] occurs_at(response, "\r\n\r\n"@, k)),
{
    let i = choose|i: int| #[trigger]
        occurs_at(response, "\r\n\r\n"@, i) && body == response.skip(i + 4) && (forall|k: int|
            0 <= k < i ==> !#[trigger] occurs_at(response, "\r\n\r\n"@, k));
    assert(occurs_at(response, "\r\n\r\n"@, i));
}

/// The `id` command prints the id, the name and the public key, each on its line; the fields
/// of an object are its names and values in their order; a plan is what its view says.
pub proof fn law_reports_and_fields(
    identity: IdentityView,
    fields: Seq<(String, String)>,
    i: int,
    call: ApiCall,
)
    ensures
        identity_report(identity) == "TanID:       "@ + identity.tan_id + "\nName:        "@
            + identity.friendly_name + "\nPublic Key:  "@ + hex_encoded(identity.public_key),
        field_texts(fields).len() == fields.len(),
        0 <= i < fields.len() ==> field_texts(fields)[i] == (fields[i].0@, fields[i].1@),
        CommandPlan::RunNode@ == CommandPlanView::RunNode,
        CommandPlan::PrintIdentity@ == CommandPlanView::PrintIdentity,
        CommandPlan::CallApi(call)@ == CommandPlanView::CallApi(call@),
{
}

} // verus!
