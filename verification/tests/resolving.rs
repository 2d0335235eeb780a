use riot_resolver::errors::{ClientError, FetchRiotIdError};
use riot_resolver::resolver::{lookup_plan, resolve_batch, resolve_one_finish, resolve_one_start};
use riot_resolver::riot_id::RiotID;

/// A stand-in for the identity service: answers from a fixed table and
/// counts how often it is asked.
struct StubClient {
    calls: usize,
}

impl StubClient {
    fn new() -> StubClient {
        StubClient { calls: 0 }
    }

    fn lookup(&mut self, game_name: &str, tag_line: &str) -> Result<RiotID, ClientError> {
        self.calls += 1;
        match (game_name, tag_line) {
            ("Ely", "na1") => Ok(RiotID::new(
                "PUUID-A".to_string(),
                "Ely".to_string(),
                "na1".to_string(),
            )),
            ("Foo", "bar") => Err(ClientError::Transport("connection refused".to_string())),
            ("Ghost", "eu1") => Err(ClientError::Http(404, "player not found".to_string())),
            _ => Err(ClientError::Http(403, "forbidden".to_string())),
        }
    }
}

/// Runs a whole batch against the stub: one lookup per plan entry, in plan
/// order, then the aggregation.
fn run_batch(
    players: &Vec<String>,
    client: &mut StubClient,
) -> (Vec<RiotID>, Vec<(String, String)>) {
    let plan = lookup_plan(players);
    let mut outcomes = Vec::new();
    for (game_name, tag_line) in &plan {
        outcomes.push(client.lookup(game_name, tag_line));
    }
    resolve_batch(players, outcomes)
}

#[test]
fn batch_partitions_every_input() {
    let players: Vec<String> = vec![
        "Ely#na1".to_string(),
        "bad-name".to_string(),
        "Ghost#eu1".to_string(),
        "Foo#bar".to_string(),
        "also#bad#name".to_string(),
    ];
    let mut client = StubClient::new();
    let (successes, failures) = run_batch(&players, &mut client);
    assert_eq!(successes.len() + failures.len(), players.len());
    assert_eq!(successes.len(), 1);
    assert_eq!(failures.len(), 4);
}

#[test]
fn unparseable_name_fails_without_a_lookup() {
    let players: Vec<String> = vec!["bad-name".to_string()];
    let mut client = StubClient::new();
    let (successes, failures) = run_batch(&players, &mut client);
    assert_eq!(client.calls, 0);
    assert!(successes.is_empty());
    assert_eq!(
        failures,
        vec![("bad-name".to_string(), "Invalid name format".to_string())]
    );
}

#[test]
fn http_failure_reason_names_the_status() {
    let players: Vec<String> = vec!["Ghost#eu1".to_string()];
    let mut client = StubClient::new();
    let (successes, failures) = run_batch(&players, &mut client);
    assert_eq!(client.calls, 1);
    assert!(successes.is_empty());
    assert_eq!(
        failures,
        vec![(
            "Ghost#eu1".to_string(),
            "HTTP status 404: player not found".to_string()
        )]
    );
}

#[test]
fn end_to_end_batch_scenario() {
    let players: Vec<String> = vec![
        "Ely#na1".to_string(),
        "bad-name".to_string(),
        "Foo#bar".to_string(),
    ];
    let mut client = StubClient::new();
    let (successes, failures) = run_batch(&players, &mut client);

    assert_eq!(client.calls, 2);
    assert_eq!(successes.len(), 1);
    assert_eq!(successes[0].get_id(), "PUUID-A");
    assert_eq!(successes[0].get_game_name(), "Ely");
    assert_eq!(successes[0].get_tag_line(), "na1");
    assert_eq!(
        failures,
        vec![
            ("bad-name".to_string(), "Invalid name format".to_string()),
            (
                "Foo#bar".to_string(),
                "Transport error: connection refused".to_string()
            ),
        ]
    );
}

#[test]
fn empty_batch_yields_empty_result() {
    let players: Vec<String> = Vec::new();
    let mut client = StubClient::new();
    let (successes, failures) = run_batch(&players, &mut client);
    assert_eq!(client.calls, 0);
    assert!(successes.is_empty());
    assert!(failures.is_empty());
}

#[test]
fn batch_keeps_input_order_in_each_sequence() {
    let players: Vec<String> = vec![
        "first-bad".to_string(),
        "Ghost#eu1".to_string(),
        "second-bad".to_string(),
        "Foo#bar".to_string(),
    ];
    let mut client = StubClient::new();
    let (successes, failures) = run_batch(&players, &mut client);
    assert!(successes.is_empty());
    let names: Vec<&str> = failures.iter().map(|f| f.0.as_str()).collect();
    assert_eq!(names, vec!["first-bad", "Ghost#eu1", "second-bad", "Foo#bar"]);
}

#[test]
fn single_resolution_parses_then_wraps_the_outcome() {
    let pair = resolve_one_start("Ely#na1").unwrap();
    assert_eq!(pair, ("Ely".to_string(), "na1".to_string()));

    let mut client = StubClient::new();
    let outcome = client.lookup(&pair.0, &pair.1);
    let resolved = resolve_one_finish(outcome).unwrap();
    assert_eq!(resolved.get_id(), "PUUID-A");
}

#[test]
fn single_resolution_parse_error_names_the_input() {
    let err = resolve_one_start("bad-name").unwrap_err();
    match err {
        FetchRiotIdError::ParseError(msg) => assert_eq!(
            msg,
            "Invalid player name format: bad-name. Expected format `game_name#tag_line`"
        ),
        FetchRiotIdError::RequestError(_) => panic!("expected a parse error"),
    }
}

#[test]
fn single_resolution_wraps_client_errors() {
    let outcome: Result<RiotID, ClientError> =
        Err(ClientError::Decode("missing field `puuid`".to_string()));
    let err = resolve_one_finish(outcome).unwrap_err();
    assert_eq!(
        err.message(),
        "Request Error: Decode error: missing field `puuid`"
    );
}
