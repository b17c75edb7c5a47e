use tanos::cli::{
    connect_failure, http_request, identity_lines, local_address, plan, response_body, ApiCall,
    Cli, CommandPlan, Commands,
};
use tanos::identity::{IdentityError, NodeIdentity};
use tanos::setup::{startup, web_port, SetupState, Startup};

fn call(cli: &Cli) -> ApiCall {
    match plan(cli) {
        CommandPlan::CallApi(call) => call,
        _ => panic!("the running node is asked"),
    }
}

fn command(command: Commands) -> Cli {
    Cli { command: Some(command) }
}

#[test]
fn commands_come_to_plans() {
    assert!(matches!(plan(&Cli { command: None }), CommandPlan::RunNode));
    assert!(matches!(plan(&command(Commands::Start)), CommandPlan::RunNode));
    assert!(matches!(plan(&command(Commands::Id)), CommandPlan::PrintIdentity));
    for listing in [Commands::Peers, Commands::Route] {
        let asked = call(&command(listing));
        assert_eq!(asked.method, "GET");
        assert_eq!(asked.path, "/api/peers");
        assert!(asked.body.is_none());
    }
}

#[test]
fn send_and_approve_carry_json() {
    let msg = vec!["say".to_string(), "\"hi\"".to_string()];
    let sent = call(&command(Commands::Send { id: "bob".to_string(), msg }));
    assert_eq!(sent.method, "POST");
    assert_eq!(sent.path, "/api/send");
    let body = sent.body.expect("a body");
    let value: serde_json::Value = serde_json::from_str(&body).expect("an object");
    assert_eq!(value["tan_id"], "bob");
    assert_eq!(value["message"], "say \"hi\"");
    assert_eq!(value.as_object().expect("an object").len(), 2);
    let approved = call(&command(Commands::Approve { id: "bob".to_string() }));
    assert_eq!(approved.path, "/api/approve");
    assert_eq!(approved.body, Some("{\"tan_id\":\"bob\"}".to_string()));
}

#[test]
fn identity_is_printed() {
    let id = NodeIdentity::generate(Some("Alice".to_string()));
    let expected = format!(
        "TanID:       {}\nName:        Alice\nPublic Key:  {}",
        id.tan_id,
        hex::encode(id.public_key_bytes())
    );
    assert_eq!(identity_lines(&id), expected);
}

#[test]
fn running_node_is_addressed() {
    assert_eq!(local_address(&None), "127.0.0.1:7700");
    assert_eq!(local_address(&Some("8080".to_string())), "127.0.0.1:8080");
    assert_eq!(
        connect_failure(&None),
        "Failed to connect on port 7700. Is `tanos-node start` running?"
    );
    assert_eq!(
        connect_failure(&Some("x".to_string())),
        "Failed to connect on port x. Is `tanos-node start` running?"
    );
}

#[test]
fn requests_are_written() {
    let get = ApiCall { method: "GET".to_string(), path: "/api/peers".to_string(), body: None };
    assert_eq!(
        http_request(&get),
        "GET /api/peers HTTP/1.1\r\nHost: localhost\r\nContent-Type: application/json\r\nContent-Length: 0\r\nConnection: close\r\n\r\n"
    );
    let post = ApiCall {
        method: "POST".to_string(),
        path: "/api/send".to_string(),
        body: Some("\u{e9}!".to_string()),
    };
    let text = http_request(&post);
    assert!(text.contains("Content-Length: 3\r\n"));
    assert!(text.ends_with("\r\n\r\n\u{e9}!"));
}

#[test]
fn responses_are_cut() {
    assert_eq!(response_body("HTTP/1.1 200 OK\r\nA: b\r\n\r\n[1]\r\n\r\n2"), "[1]\r\n\r\n2");
    assert_eq!(response_body("no head"), "no head");
    assert_eq!(response_body("x\r\n\r\n"), "");
}

#[test]
fn web_port_by_environment() {
    assert_eq!(web_port(&None), 7700);
    assert_eq!(web_port(&Some("8080".to_string())), 8080);
    assert_eq!(web_port(&Some("eighty".to_string())), 7700);
    assert_eq!(web_port(&Some("70000".to_string())), 7700);
}

#[test]
fn start_depends_on_the_identity() {
    assert_eq!(startup(Ok(true)), Startup::Load);
    assert_eq!(startup(Ok(false)), Startup::Setup);
    assert_eq!(startup(Err(IdentityError::NoHome)), Startup::Setup);
}

#[test]
fn setup_hands_out_one_identity() {
    let identity = NodeIdentity::generate(None);
    let id = identity.tan_id.clone();
    let mut setup = SetupState::for_identity(identity);
    assert_eq!(setup.shown_id(), id);
    let named = setup.handle_setup("Alice".to_string()).expect("the first time");
    assert_eq!(named.friendly_name, "Alice");
    assert_eq!(named.tan_id, id);
    assert!(setup.handle_setup("Bob".to_string()).is_none());
    assert_eq!(setup.shown_id(), "");
    assert_eq!(SetupState::new().shown_id().len(), 16);
}
