use remote_prover::config::Network;
use remote_prover::explorer::{
    extract_program_source, interpret_edition_response, interpret_program_response,
};
use remote_prover::urls::{build_edition_url, build_network_program_url, build_program_url};

#[test]
fn program_url_appends_segments() {
    assert_eq!(
        build_program_url("https://api.explorer.provable.com", "foo.aleo", None),
        Ok("https://api.explorer.provable.com/program/foo.aleo".to_owned())
    );
    assert_eq!(
        build_program_url("http://localhost:3033/v2/testnet", "foo.aleo", None),
        Ok("http://localhost:3033/v2/testnet/program/foo.aleo".to_owned())
    );
}

#[test]
fn program_url_drops_one_trailing_empty_segment() {
    assert_eq!(
        build_program_url("http://localhost:3033/v2/", "foo.aleo", None),
        Ok("http://localhost:3033/v2/program/foo.aleo".to_owned())
    );
}

#[test]
fn program_url_carries_the_edition() {
    assert_eq!(
        build_program_url("https://api.explorer.provable.com", "foo.aleo", Some(7)),
        Ok("https://api.explorer.provable.com/program/foo.aleo/7".to_owned())
    );
}

#[test]
fn edition_url_targets_latest_edition() {
    assert_eq!(
        build_edition_url("https://api.explorer.provable.com", "foo.aleo"),
        Ok("https://api.explorer.provable.com/program/foo.aleo/latest_edition".to_owned())
    );
}

#[test]
fn base_urls_are_normalized_before_use() {
    // The URL parser canonicalizes scheme and host and elides default ports.
    assert_eq!(
        build_program_url("HTTP://Example.COM", "foo.aleo", None),
        Ok("http://example.com/program/foo.aleo".to_owned())
    );
    assert_eq!(
        build_program_url("http://example.com:80/v2", "foo.aleo", None),
        Ok("http://example.com/v2/program/foo.aleo".to_owned())
    );
}

#[test]
fn relative_bases_fail_fast() {
    let err = build_program_url("not a url", "foo.aleo", None)
        .expect_err("a relative base must be refused");
    assert_eq!(err, "Invalid program API base: not a url");
    assert!(build_edition_url("/v2/testnet", "foo.aleo").is_err());
}

#[test]
fn network_program_url_uses_the_rest_root() {
    assert_eq!(
        build_network_program_url(Network::Testnet, "foo.aleo", None),
        Ok("https://api.explorer.provable.com/program/foo.aleo".to_owned())
    );
    assert_eq!(
        build_network_program_url(Network::Mainnet, "foo.aleo", Some(2)),
        Ok("https://api.explorer.provable.com/program/foo.aleo/2".to_owned())
    );
}

#[test]
fn raw_program_bodies_pass_through() {
    let body = "program foo.aleo;\n\nfunction main:\n";
    assert_eq!(extract_program_source(body), Ok(body.to_owned()));
}

#[test]
fn quoted_program_bodies_are_decoded() {
    let body = " \"program foo.aleo;\\nfunction main:\\n\" ";
    assert_eq!(
        extract_program_source(body),
        Ok("program foo.aleo;\nfunction main:\n".to_owned())
    );
}

#[test]
fn malformed_quoted_bodies_are_refused() {
    let err = extract_program_source("\"unterminated")
        .expect_err("an unterminated JSON string must be refused");
    assert_eq!(err, "Failed to decode program body");
}

#[test]
fn program_fetch_failures_name_the_program_and_status() {
    let err = interpret_program_response("ghost.aleo", 404, "")
        .expect_err("a missing program is an error");
    assert_eq!(err, "Program 'ghost.aleo' request failed with status 404");
    let ok = interpret_program_response("foo.aleo", 200, "program foo.aleo;");
    assert_eq!(ok, Ok("program foo.aleo;".to_owned()));
    let quoted = interpret_program_response("foo.aleo", 201, "\"src\"");
    assert_eq!(quoted, Ok("src".to_owned()));
    let bad = interpret_program_response("foo.aleo", 200, "\"broken")
        .expect_err("an undecodable body is an error");
    assert_eq!(bad, "Failed to decode program 'foo.aleo'");
}

#[test]
fn edition_responses_are_interpreted() {
    assert_eq!(interpret_edition_response("foo.aleo", 404, ""), Ok(None));
    assert_eq!(interpret_edition_response("foo.aleo", 200, "7"), Ok(Some(7)));
    assert_eq!(
        interpret_edition_response("foo.aleo", 200, " 65535 \n"),
        Ok(Some(65535))
    );
    let status_err = interpret_edition_response("foo.aleo", 500, "")
        .expect_err("a failing status is an error");
    assert_eq!(
        status_err,
        "Latest edition request for 'foo.aleo' failed with status 500"
    );
    let body_err = interpret_edition_response("foo.aleo", 200, "soon")
        .expect_err("a non-numeric body is an error");
    assert_eq!(body_err, "Failed to parse latest edition of 'foo.aleo'");
    assert!(interpret_edition_response("foo.aleo", 200, "70000").is_err());
}
