use riot_resolver::errors::{
    u16_to_decimal, ClientError, DecodeError, ErrorCategory, FetchRiotIdError,
};
use riot_resolver::riot_id::RiotID;
use riot_resolver::urls::{account_url_by_puuid, account_url_by_riot_id};

#[test]
fn decimal_rendering_exact_values() {
    assert_eq!(u16_to_decimal(0), "0");
    assert_eq!(u16_to_decimal(7), "7");
    assert_eq!(u16_to_decimal(404), "404");
    assert_eq!(u16_to_decimal(65535), "65535");
}

#[test]
fn client_error_messages() {
    assert_eq!(
        ClientError::Http(502, "bad gateway".to_string()).message(),
        "HTTP status 502: bad gateway"
    );
    assert_eq!(
        ClientError::Transport("dns failure".to_string()).message(),
        "Transport error: dns failure"
    );
    assert_eq!(
        ClientError::Decode("unexpected body".to_string()).message(),
        "Decode error: unexpected body"
    );
}

#[test]
fn fetch_error_messages() {
    assert_eq!(
        FetchRiotIdError::ParseError("bad input".to_string()).message(),
        "Parse error: bad input"
    );
    assert_eq!(
        FetchRiotIdError::RequestError(ClientError::Http(404, "not found".to_string())).message(),
        "Request Error: HTTP status 404: not found"
    );
}

#[test]
fn decode_error_messages() {
    assert_eq!(DecodeError::MissingValue.message(), "No players found in the URL");
    assert_eq!(
        DecodeError::InvalidEscape.message(),
        "Player list is not valid percent-encoded text"
    );
}

#[test]
fn error_categories_follow_the_status() {
    let not_found =
        FetchRiotIdError::RequestError(ClientError::Http(404, "not found".to_string()));
    let forbidden =
        FetchRiotIdError::RequestError(ClientError::Http(403, "forbidden".to_string()));
    let other_http =
        FetchRiotIdError::RequestError(ClientError::Http(500, "server error".to_string()));
    let transport =
        FetchRiotIdError::RequestError(ClientError::Transport("timed out".to_string()));
    let decode = FetchRiotIdError::RequestError(ClientError::Decode("bad body".to_string()));
    let parse = FetchRiotIdError::ParseError("bad input".to_string());

    assert_eq!(not_found.category(), ErrorCategory::NotFound);
    assert_eq!(forbidden.category(), ErrorCategory::Forbidden);
    assert_eq!(other_http.category(), ErrorCategory::UpstreamFailure);
    assert_eq!(transport.category(), ErrorCategory::UpstreamFailure);
    assert_eq!(decode.category(), ErrorCategory::UpstreamFailure);
    assert_eq!(parse.category(), ErrorCategory::InvalidInput);
}

#[test]
fn record_getters_return_components_verbatim() {
    let record = RiotID::new(
        "some-puuid".to_string(),
        "Susurration".to_string(),
        "ELY".to_string(),
    );
    assert_eq!(record.get_id(), "some-puuid");
    assert_eq!(record.get_game_name(), "Susurration");
    assert_eq!(record.get_tag_line(), "ELY");
}

#[test]
fn lookup_urls_are_built_verbatim() {
    assert_eq!(
        account_url_by_riot_id("Ely", "na1", "demo-api-key"),
        "https://americas.api.riotgames.com/riot/account/v1/accounts/by-riot-id/Ely/na1?api_key=demo-api-key"
    );
    assert_eq!(
        account_url_by_puuid("some-puuid", "demo-api-key"),
        "https://americas.api.riotgames.com/riot/account/v1/accounts/by-puuid/some-puuid?api_key=demo-api-key"
    );
}

#[test]
fn record_equality_is_by_account_key() {
    let a = RiotID::new("K1".to_string(), "NameA".to_string(), "tag1".to_string());
    let b = RiotID::new("K1".to_string(), "NameB".to_string(), "tag2".to_string());
    let c = RiotID::new("K2".to_string(), "NameA".to_string(), "tag1".to_string());
    assert_eq!(a, b);
    assert_ne!(a, c);
}
