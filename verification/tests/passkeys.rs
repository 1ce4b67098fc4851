//! Challenges, enrollment codes, and the ceremonies of the page and the phone.
use base64::engine::general_purpose::URL_SAFE_NO_PAD;
use base64::Engine;
use gatehouse::daemon::audit::Audit;
use gatehouse::daemon::binding::{
    assertion_challenge, bind_challenge, check_bound, derive_challenge, verification_code, BindError,
};
use gatehouse::daemon::ceremony::{deny_with, passkeys_in, release_with, CeremonyError};
use gatehouse::daemon::ctx::Ctx;
use gatehouse::daemon::enroll::{extend_code, EnrollCodes, ALPHABET, CODE_LEN, CODE_TTL};
use gatehouse::daemon::passkey::Assertion;
use gatehouse::daemon::phone::{
    approve_finish, approve_start, approved_reply, denied_reply, deny, passkey_registered,
    pending_json, register_finish, register_start, reject_unauthenticated_release, PhoneAuth,
};
use gatehouse::daemon::relay_client::{
    dispatch, hello, relay_dial, rpc_reply, ws_url, PhoneStep, RelayDial,
};
use gatehouse::daemon::server::Next;
use gatehouse::daemon::state::{Pending, Shared, SECOND};
use gatehouse::daemon::web::WebCtx;
use gatehouse::json::{parse, render, Json};
use gatehouse::proto::envelope::SigScheme;
use gatehouse::proto::policy::Policy;
use gatehouse::proto::relay::{DaemonToRelay, DeviceCred, RelayConfig, RelayMethod, RelayToml};
use gatehouse::proto::request::{GateRequest, Operation};
use gatehouse::proto::wire::Tier;

fn b64(bytes: &[u8]) -> String {
    URL_SAFE_NO_PAD.encode(bytes)
}

#[test]
fn same_request_same_challenge() {
    let a = derive_challenge("abc123", "nonce-1");
    let b = derive_challenge("abc123", "nonce-1");
    assert_eq!(a, b);
}

#[test]
fn different_digest_or_nonce_changes_challenge() {
    let base = derive_challenge("abc123", "nonce-1");
    assert_ne!(base, derive_challenge("abc124", "nonce-1"));
    assert_ne!(base, derive_challenge("abc123", "nonce-2"));
}

/// Field boundaries must matter: concatenation-style derivations collide.
#[test]
fn field_split_is_not_ambiguous() {
    assert_ne!(derive_challenge("ab", "cd"), derive_challenge("abc", "d"));
}

#[test]
fn challenge_is_the_hash_of_the_canonical_text() {
    let text = "{\"digest\":\"d\\\"\",\"nonce\":\"n\",\"purpose\":\"gatehouse-approval-v1\"}";
    let hash = <sha2::Sha256 as sha2::Digest>::digest(text.as_bytes());
    assert_eq!(derive_challenge("d\"", "n").to_vec(), hash.to_vec());
}

#[test]
fn verification_code_matches_terminal_prefix() {
    let digest = "0123456789abcdef0123456789abcdef";
    assert_eq!(verification_code(digest), &digest[..8]);
}

fn cred_with_challenge(encoded: &str) -> Json {
    let client_data = format!(
        "{{\"type\":\"webauthn.get\",\"challenge\":\"{encoded}\",\"origin\":\"https://example.test\"}}"
    );
    cred_with_client_data(&client_data)
}

fn cred_with_client_data(client_data: &str) -> Json {
    let text = format!(
        "{{\"id\":\"aaaa\",\"rawId\":\"{}\",\"type\":\"public-key\",\"extensions\":{{}},\"response\":{{\"authenticatorData\":\"{}\",\"clientDataJSON\":\"{}\",\"signature\":\"{}\",\"userHandle\":null}}}}",
        b64(b"aaaa"),
        b64(b"authdata"),
        b64(client_data.as_bytes()),
        b64(b"sig")
    );
    parse(&text).ok().unwrap()
}

fn read(cred: &Json) -> Assertion {
    Assertion::read(cred).ok().expect("credential shape")
}

#[test]
fn bound_assertion_is_accepted() {
    let challenge = derive_challenge("deadbeef", "n1");
    let cred = read(&cred_with_challenge(&b64(&challenge)));
    assert!(check_bound(&cred, "deadbeef", "n1").is_ok());
    assert_eq!(assertion_challenge(&cred).ok().unwrap(), challenge.to_vec());
}

/// The relay-substitution case: a real gesture for request A must not
/// release request B.
#[test]
fn assertion_for_another_request_fails_closed() {
    let challenge = derive_challenge("aaaaaaaa", "n1");
    let cred = read(&cred_with_challenge(&b64(&challenge)));
    assert!(check_bound(&cred, "bbbbbbbb", "n1").is_err());
    assert!(check_bound(&cred, "aaaaaaaa", "n2").is_err());
    let e = check_bound(&cred, "bbbbbbbb", "n1").err().unwrap();
    assert!(matches!(e, BindError::NotBound));
    assert_eq!(e.message(), "assertion is not bound to this request");
}

#[test]
fn bind_challenge_rewrites_options_and_state() {
    let state = parse(&format!(
        "{{\"ast\":{{\"credentials\":[],\"policy\":\"required\",\"challenge\":\"{}\",\"appid\":null,\"allow_backup_eligible_upgrade\":false}}}}",
        b64(&[7u8; 32])
    ))
    .ok()
    .expect("ceremony state shape");
    let mut rcr = parse(&format!(
        "{{\"publicKey\":{{\"challenge\":\"{}\",\"rpId\":\"localhost\",\"allowCredentials\":[],\"userVerification\":\"required\"}}}}",
        b64(&[7u8; 32])
    ))
    .ok()
    .expect("challenge response shape");

    let challenge = derive_challenge("deadbeef", "n1");
    let bound = bind_challenge(&mut rcr, state, &challenge).expect("rebind");

    let shown = rcr.get("publicKey").unwrap().get_text("challenge").unwrap();
    assert_eq!(URL_SAFE_NO_PAD.decode(shown).unwrap(), challenge.to_vec());
    let encoded = bound.get("ast").unwrap().get_text("challenge").unwrap();
    assert_eq!(encoded, &b64(&challenge));
}

#[test]
fn states_of_another_shape_are_not_rebound() {
    let mut rcr = parse("{\"publicKey\":{\"challenge\":\"AA\"}}").ok().unwrap();
    let state = parse("{\"state\":1}").ok().unwrap();
    assert_eq!(
        bind_challenge(&mut rcr, state, &[0u8; 32]).err().unwrap(),
        "ceremony state has no challenge field"
    );
    let state = parse("{\"ast\":{\"challenge\":\"AA\"}}").ok().unwrap();
    let e = bind_challenge(&mut rcr, state, &[0u8; 32]).err().unwrap();
    assert_eq!(e, "ceremony state rejected rebind: missing field `credentials`");
}

#[test]
fn junk_client_data_fails_closed() {
    let cred = read(&cred_with_challenge("!!!not-base64!!!"));
    assert!(check_bound(&cred, "aaaaaaaa", "n1").is_err());
    let e = assertion_challenge(&cred).err().unwrap();
    assert!(matches!(&e, BindError::NotBase64(m) if m == "Invalid symbol 33, offset 0."));
    assert_eq!(e.message(), "clientDataJSON challenge not base64url: Invalid symbol 33, offset 0.");
    let cred = read(&cred_with_client_data("not json"));
    let e = assertion_challenge(&cred).err().unwrap();
    assert!(matches!(e, BindError::NotJson(_)));
    assert_eq!(e.message(), "clientDataJSON not JSON: expected ident at line 1 column 2");
    let cred = read(&cred_with_client_data("{\"type\":\"webauthn.get\"}"));
    assert!(matches!(assertion_challenge(&cred), Err(BindError::NoChallenge)));
    let fault = serde_json::from_value::<webauthn_rs::prelude::PublicKeyCredential>(
        serde_json::Value::Null,
    )
    .unwrap_err();
    assert_eq!(Assertion::read(&Json::Null).err().unwrap(), fault.to_string());
}

#[test]
fn code_is_single_use() {
    let mut codes = EnrollCodes::new();
    let code = codes.issue(0).unwrap();
    assert!(codes.redeem(&code, 0));
    assert!(!codes.redeem(&code, 0), "a redeemed code must not work twice");
}

#[test]
fn wrong_code_is_rejected() {
    let mut codes = EnrollCodes::new();
    let code = codes.issue(0).unwrap();
    assert!(!codes.redeem("AAAAAAAA", 0));
    assert!(!codes.redeem("", 0));
    assert!(!codes.redeem(&format!("{code}X"), 0));
    assert!(codes.redeem(&code, 0), "a bad guess must not consume the code");
}

#[test]
fn code_expires() {
    let mut codes = EnrollCodes::new();
    let code = EnrollCodes::draw().unwrap();
    codes.add_with_ttl(&code, 1_000_000, 0);
    assert!(!codes.redeem(&code, 20_000_000));
    assert_eq!(codes.live(20_000_000), 0);
}

#[test]
fn codes_are_shaped_and_distinct() {
    let mut codes = EnrollCodes::new();
    let a = codes.issue(0).unwrap();
    let b = codes.issue(0).unwrap();
    assert_eq!(a.len(), CODE_LEN);
    assert_ne!(a, b);
    assert!(a.bytes().all(|c| ALPHABET.as_bytes().contains(&c)));
}

#[test]
fn entry_is_case_insensitive() {
    let mut codes = EnrollCodes::new();
    let code = codes.issue(0).unwrap();
    assert!(codes.redeem(&format!("  {}  ", code.to_ascii_lowercase()), 0));
}

#[test]
fn codes_last_as_long_as_they_say() {
    let mut codes = EnrollCodes::new();
    codes.add("AAAA2222", 0);
    codes.add("BBBB3333", 10 * SECOND);
    assert_eq!(codes.live(CODE_TTL * SECOND - 1), 2);
    assert_eq!(codes.live(CODE_TTL * SECOND), 1);
    assert!(!codes.redeem("AAAA2222", CODE_TTL * SECOND));
    assert!(codes.redeem("BBBB3333", CODE_TTL * SECOND));
}

#[test]
fn drawn_codes_become_valid() {
    let mut codes = EnrollCodes::new();
    assert_eq!(codes.issue_given(None, 0), None);
    assert_eq!(codes.live(0), 0);
    assert_eq!(codes.issue_given(Some("AAAA2222".into()), 0), Some("AAAA2222".to_string()));
    assert_eq!(codes.live(CODE_TTL * SECOND - 1), 1);
    assert!(codes.redeem("AAAA2222", CODE_TTL * SECOND - 1));
}

#[test]
fn letters_are_drawn_without_bias() {
    let mut value = String::new();
    extend_code(&mut value, &vec![0, 30, 31, 248, 255, 247]);
    assert_eq!(value, "A9A9");
    extend_code(&mut value, &vec![1, 1, 1, 1, 1, 1]);
    assert_eq!(value, "A9A9BBBB");
}

#[test]
fn forge_without_assertion_is_detected() {
    let forged = parse("{\"approved\":true,\"digest\":\"abc\"}").ok().unwrap();
    assert!(reject_unauthenticated_release(&forged));
    let finish = parse(
        "{\"id\":\"00000000-0000-0000-0000-000000000001\",\"cred\":{\"id\":\"x\",\"type\":\"public-key\"}}",
    )
    .ok()
    .unwrap();
    assert!(!reject_unauthenticated_release(&finish));
}

#[test]
fn builder_accepts_plain_http_localhost() {
    assert!(
        WebCtx::new(4278, "t".into()).is_some(),
        "webauthn builds for http://localhost"
    );
}

fn ctx() -> Ctx {
    Ctx::new(Policy::load("").unwrap(), vec![], vec![], Audit::open(None), false, None)
}

fn exec(word: &str) -> GateRequest {
    GateRequest {
        harness: "cli".into(),
        session_id: "s".into(),
        env_allowlist: vec![],
        op: Operation::Exec { argv: vec![word.into()], cwd: "/w".into() },
    }
}

fn submit(c: &mut Ctx, word: &str) -> (String, String) {
    match c.handle_submit(exec(word), true, 0).next {
        Next::Wait { ticket, .. } => (ticket.digest, ticket.nonce),
        _ => panic!("expected a wait"),
    }
}

fn config() -> RelayConfig {
    RelayConfig {
        rp_id: "relay.example.com".into(),
        origin: "https://relay.example.com:8787".into(),
        phone_token: "pt".into(),
        listen: "0.0.0.0:8787".into(),
        daemon_listen: "0.0.0.0:8788".into(),
        transport: None,
        daemon_auth: None,
    }
}

fn body(text: &str) -> Json {
    parse(text).ok().unwrap()
}

#[test]
fn phones_need_an_origin_of_their_relying_party() {
    assert!(PhoneAuth::new(&config()).is_some());
    let mut other = config();
    other.rp_id = "elsewhere.org".into();
    assert!(PhoneAuth::new(&other).is_none());
    let mut bad = config();
    bad.origin = "no address".into();
    assert!(PhoneAuth::new(&bad).is_none());
}

#[test]
fn phones_list_what_waits() {
    let mut c = ctx();
    assert_eq!(render(&pending_json(&c, 0)), "{\"entries\":[],\"enrolled\":0}");
    let (digest, _) = submit(&mut c, "frobnicate");
    assert_eq!(
        render(&pending_json(&c, 2 * SECOND)),
        format!("{{\"entries\":[{{\"digest\":\"{digest}\",\"summary\":\"Run `frobnicate` in /w\",\"tier\":\"ask\",\"harness\":\"cli\",\"age_secs\":2}}],\"enrolled\":0}}")
    );
}

#[test]
fn phones_enroll_with_a_code() {
    let mut c = ctx();
    let mut p = PhoneAuth::new(&config()).unwrap();
    let refused = "enrollment code invalid or expired (run `gate enroll-code`)";
    assert_eq!(register_start(&mut p, &mut c, &body("{}"), 0).err().unwrap(), refused);
    c.enroll_codes.add("AAAA2222", 0);
    c.phone_passkeys.push(passkey());
    let start = register_start(&mut p, &mut c, &body("{\"code\":\"aaaa2222\"}"), 1).ok().unwrap();
    c.phone_passkeys.clear();
    let id = start.get_text("id").unwrap().clone();
    let key = start.get("options").unwrap().get("publicKey").unwrap();
    assert_eq!(key.get("rp").unwrap().get_text("name").unwrap(), "Gatehouse");
    assert_eq!(key.get("rp").unwrap().get_text("id").unwrap(), "relay.example.com");
    assert_eq!(key.get("user").unwrap().get_text("name").unwrap(), "phone-operator");
    assert_eq!(
        render(key.get("excludeCredentials").unwrap()),
        format!("[{{\"type\":\"public-key\",\"id\":\"{}\"}}]", b64(b"credential-1"))
    );
    assert_eq!(
        render(key.get("rp").unwrap()),
        "{\"name\":\"Gatehouse\",\"id\":\"relay.example.com\"}"
    );
    let user = uuid::Uuid::parse_str(&id).unwrap();
    assert_eq!(
        render(key.get("user").unwrap()),
        format!(
            "{{\"id\":\"{}\",\"name\":\"phone-operator\",\"displayName\":\"Gatehouse Phone\"}}",
            b64(user.as_bytes())
        )
    );
    assert_eq!(p.ceremonies.registrations.len(), 1);
    let state = p.ceremonies.registrations.values().next().unwrap().get("rs").unwrap();
    assert_eq!(state.get_text("challenge").unwrap(), key.get_text("challenge").unwrap());
    assert_eq!(
        render(state.get("exclude_credentials").unwrap()),
        format!("[\"{}\"]", b64(b"credential-1"))
    );
    assert_eq!(
        register_start(&mut p, &mut c, &body("{\"code\":\"AAAA2222\"}"), 1).err().unwrap(),
        refused
    );

    let cred = format!(
        "{{\"id\":\"aaaa\",\"rawId\":\"{0}\",\"type\":\"public-key\",\"extensions\":{{}},\"response\":{{\"attestationObject\":\"{0}\",\"clientDataJSON\":\"{0}\"}}}}",
        b64(b"aaaa")
    );
    let finish = body(&format!("{{\"id\":\"{id}\",\"cred\":{cred}}}"));
    let e = register_finish(&mut p, &mut c, &finish).err().unwrap();
    assert!(e.starts_with("register finish: "), "got: {e}");
    assert_eq!(
        register_finish(&mut p, &mut c, &finish).err().unwrap(),
        "unknown registration ceremony"
    );
    assert_eq!(
        register_finish(&mut p, &mut c, &body("{}")).err().unwrap(),
        "bad body: missing field `id`"
    );
    let listed = body(&format!("[\"{id}\",{cred}]"));
    assert_eq!(
        register_finish(&mut p, &mut c, &listed).err().unwrap(),
        "unknown registration ceremony"
    );
    assert!(c.phone_passkeys.is_empty());
    assert_eq!(render(&passkey_registered(&mut c.phone_passkeys, Json::Null)), "{\"enrolled\":1}");
}

/// A passkey as it is stored, made of a P-256 key that is a point of the curve.
fn passkey() -> Json {
    body(&format!(
        "{{\"cred\":{{\"cred_id\":\"{}\",\"cred\":{{\"type_\":\"ES256\",\"key\":{{\"EC_EC2\":{{\"curve\":\"SECP256R1\",\"x\":\"axfR8uEsQkf4vOblY6RA8ncDfYEt6zOg9KE5RdiYwpY\",\"y\":\"T-NC4v4af5uO5-tKfA-eFivOM1drMV7Oy7ZAaDe_UfU\"}}}}}},\"counter\":0,\"transports\":null,\"user_verified\":true,\"backup_eligible\":false,\"backup_state\":false,\"registration_policy\":\"required\",\"extensions\":{{}},\"attestation\":{{\"data\":\"None\",\"metadata\":\"None\"}},\"attestation_format\":\"none\"}}}}",
        b64(b"credential-1")
    ))
}

#[test]
fn phone_approvals_are_bound_to_their_request() {
    let mut c = ctx();
    let mut p = PhoneAuth::new(&config()).unwrap();
    assert_eq!(approve_start(&mut p, &c, &body("{}")).err().unwrap(), "missing digest");
    assert_eq!(
        approve_start(&mut p, &c, &body("{\"digest\":\"x\"}")).err().unwrap(),
        "no such pending request"
    );
    let (digest, nonce) = submit(&mut c, "frobnicate");
    let ask = body(&format!("{{\"digest\":\"{digest}\"}}"));
    assert_eq!(approve_start(&mut p, &c, &ask).err().unwrap(), "no phone passkeys enrolled");
    c.phone_passkeys.push(Json::Null);
    let e = approve_start(&mut p, &c, &ask).err().unwrap();
    assert!(e.starts_with("auth start: "), "got: {e}");
    c.phone_passkeys.clear();
    c.phone_passkeys.push(passkey());
    let start = approve_start(&mut p, &c, &ask).expect("ceremony starts");
    let allowed = start.get("options").unwrap().get("publicKey").unwrap().get("allowCredentials");
    match allowed.unwrap() {
        Json::Array(list) => assert_eq!(list[0].get_text("id").unwrap(), &b64(b"credential-1")),
        _ => panic!("expected a list"),
    }
    assert_eq!(start.get_text("code").unwrap(), &digest[..8]);
    let key = start.get("options").unwrap().get("publicKey").unwrap();
    assert_eq!(key.get_text("challenge").unwrap(), &b64(&derive_challenge(&digest, &nonce)));
    assert_eq!(key.get_text("rpId").unwrap(), "relay.example.com");
    let id = start.get_text("id").unwrap().clone();

    let cred = render(&cred_with_challenge(&b64(&derive_challenge(&digest, &nonce))));
    let finish = body(&format!("{{\"id\":\"{id}\",\"cred\":{cred}}}"));
    let e = approve_finish(&mut p, &mut c, &finish, 0).err().unwrap();
    assert!(e.starts_with("assertion rejected: "), "got: {e}");
    assert!(c.state.is_pending(&digest));
    assert_eq!(
        approve_finish(&mut p, &mut c, &finish, 0).err().unwrap(),
        "unknown auth ceremony"
    );
    let listed = body(&format!("[\"{id}\",{cred}]"));
    assert_eq!(
        approve_finish(&mut p, &mut c, &listed, 0).err().unwrap(),
        "unknown auth ceremony"
    );
    let mut said = |text: &str| approve_finish(&mut p, &mut c, &body(text), 0).err().unwrap();
    assert_eq!(said("{}"), "bad body: missing field `id`");
    assert_eq!(said(&format!("{{\"id\":\"{id}\"}}")), "bad body: missing field `cred`");
    let bad_id = uuid::Uuid::parse_str("x").unwrap_err().to_string();
    assert_eq!(
        said("{\"id\":\"x\",\"cred\":1}"),
        format!("bad body: UUID parsing failed: {bad_id}")
    );
    let bad_cred = serde_json::from_str::<serde_json::Value>("1")
        .and_then(serde_json::from_value::<webauthn_rs::prelude::PublicKeyCredential>)
        .unwrap_err();
    assert_eq!(said("{\"cred\":1,\"id\":\"x\"}"), format!("bad body: {bad_cred}"));
    assert_eq!(said(&format!("[\"{id}\",1]")), format!("bad body: {bad_cred}"));
    assert_eq!(
        said(&format!("[\"{id}\"]")),
        "bad body: invalid length 1, expected struct AuthFinishBody with 2 elements"
    );
    assert_eq!(
        said(&format!("[\"{id}\",{cred},null]")),
        "bad body: invalid length 3, expected fewer elements in array"
    );
    assert_eq!(
        said("-5"),
        "bad body: invalid type: integer `-5`, expected struct AuthFinishBody"
    );
    assert_eq!(
        said("\"a\\\"b\""),
        "bad body: invalid type: string \"a\\\"b\", expected struct AuthFinishBody"
    );
    for (text, shown) in [("null", "null"), ("true", "boolean `true`"), ("1.5", "floating point `1.5`")] {
        assert_eq!(
            said(text),
            format!("bad body: invalid type: {shown}, expected struct AuthFinishBody")
        );
    }
    assert_eq!(
        register_finish(&mut p, &mut c, &body("false")).err().unwrap(),
        "bad body: invalid type: boolean `false`, expected struct RegFinishBody"
    );
}

#[test]
fn phones_deny() {
    let mut c = ctx();
    let (digest, _) = submit(&mut c, "frobnicate");
    assert_eq!(deny(&mut c, &body("{}")).err().unwrap(), "missing digest");
    assert_eq!(
        deny(&mut c, &body("{\"digest\":\"zz\"}")).err().unwrap(),
        "no pending request matches 'zz'"
    );
    let d = deny(&mut c, &body(&format!("{{\"digest\":\"{digest}\"}}"))).ok().unwrap();
    assert!(d.verdict.is_none());
    assert_eq!(d.digest, digest);
    assert_eq!(render(&denied_reply(&digest)), format!("{{\"denied\":\"{digest}\"}}"));
    assert_eq!(
        render(&approved_reply(&digest, true).ok().unwrap()),
        format!("{{\"approved\":\"{digest}\"}}")
    );
    assert_eq!(
        approved_reply(&digest, false).err().unwrap().message(),
        "request no longer waiting"
    );
}

#[test]
fn assertions_release_their_own_request_only() {
    let mut s = Shared::new();
    let request = exec("x");
    let digest = request.digest().unwrap();
    let entry = Pending { request, tier: Tier::AskStrong, nonce: "n1".into(), submitted: 0 };
    assert!(s.insert_pending(digest.clone(), entry));
    let wrong = read(&cred_with_challenge(&b64(&derive_challenge(&digest, "n2"))));
    assert!(matches!(
        release_with(&mut s, &digest, b"key", &wrong, true, 10),
        Err(CeremonyError::NotBound(BindError::NotBound))
    ));
    assert!(s.is_pending(&digest));
    let right = read(&cred_with_challenge(&b64(&derive_challenge(&digest, "n1"))));
    let d = release_with(&mut s, &digest, b"\x01\xab", &right, true, 10).ok().unwrap();
    let e = d.verdict.unwrap();
    assert_eq!((&e.digest, e.nonce.as_str(), e.key_id.as_str()), (&digest, "n1", "01ab"));
    assert_eq!((e.issued_at, e.expires_at), (10, 130));
    assert_eq!(e.scheme, SigScheme::Webauthn);
    assert!(e.sig.contains("clientDataJSON"));
    assert!(matches!(
        release_with(&mut s, &digest, b"k", &right, true, 10),
        Err(CeremonyError::NotPending)
    ));
    assert!(matches!(deny_with(&mut s, &digest), Err(CeremonyError::Take(_))));
}

#[test]
fn the_page_asks_for_its_token() {
    let mut w = WebCtx::new(4278, "tok".into()).unwrap();
    let mut c = ctx();
    assert!(w.authed(Some("tok")));
    assert!(!w.authed(Some("to")) && !w.authed(None));
    assert!(matches!(w.api_pending(&c, None, 0), Err(401)));
    assert!(w.api_pending(&c, Some("tok"), 0).is_ok());
    assert!(matches!(w.reg_start(&mut c, Some("tok"), None, 0), Err(401)));
    c.enroll_codes.add("AAAA2222", 0);
    let start = w.reg_start(&mut c, Some("tok"), Some(&body("{\"code\":\"AAAA2222\"}")), 0).ok().unwrap();
    let key = start.get("options").unwrap().get("publicKey").unwrap();
    assert_eq!(key.get("rp").unwrap().get_text("id").unwrap(), "localhost");
    let ask = body("{\"digest\":\"x\"}");
    assert!(matches!(w.auth_start(&c, Some("nope"), &ask), Err(401)));
    assert!(matches!(w.auth_start(&c, Some("tok"), &body("{}")), Err(422)));
    assert!(matches!(w.auth_start(&c, Some("tok"), &ask), Err(404)));
    assert!(matches!(w.auth_finish(&mut c, Some("tok"), &body("{}"), 0), Err(422)));
    assert!(matches!(w.reg_finish(&mut c, Some("tok"), &body("{}")), Err(422)));
    assert!(matches!(w.api_deny(&mut c, Some("tok"), &ask), Err(404)));
    let (digest, _) = submit(&mut c, "frobnicate");
    let ask = body(&format!("{{\"digest\":\"{digest}\"}}"));
    assert!(w.api_deny(&mut c, Some("tok"), &ask).ok().unwrap().verdict.is_none());
}

#[test]
fn the_page_starts_and_checks_ceremonies() {
    let mut w = WebCtx::new(4278, "tok".into()).unwrap();
    let mut c = ctx();
    let (digest, nonce) = submit(&mut c, "frobnicate");
    let ask = body(&format!("{{\"digest\":\"{digest}\"}}"));
    assert!(matches!(w.auth_start(&c, Some("tok"), &ask), Err(412)));
    c.passkeys.push(passkey());
    let start = w.auth_start(&c, Some("tok"), &ask).ok().unwrap();
    let key = start.get("options").unwrap().get("publicKey").unwrap();
    assert_eq!(key.get_text("challenge").unwrap(), &b64(&derive_challenge(&digest, &nonce)));
    let id = start.get_text("id").unwrap().clone();
    let cred = render(&cred_with_challenge(&b64(&derive_challenge(&digest, &nonce))));
    let finish = body(&format!("{{\"id\":\"{id}\",\"cred\":{cred}}}"));
    assert!(matches!(w.auth_finish(&mut c, Some("no"), &finish, 0), Err(401)));
    assert!(matches!(w.auth_finish(&mut c, Some("tok"), &finish, 0), Err(401)));
    assert!(matches!(w.auth_finish(&mut c, Some("tok"), &finish, 0), Err(400)));
    assert!(c.state.is_pending(&digest), "a rejected assertion releases nothing");
    assert_eq!(WebCtx::new(4278, "tok".into()).unwrap().ceremonies.authentications.len(), 0);
}

#[test]
fn bodies_are_read_by_position_too() {
    let mut w = WebCtx::new(4278, "tok".into()).unwrap();
    let mut c = ctx();
    c.enroll_codes.add("AAAA2222", 0);
    assert!(matches!(w.reg_start(&mut c, Some("tok"), Some(&body("[]")), 0), Err(401)));
    assert!(matches!(w.reg_start(&mut c, Some("tok"), Some(&body("[1]")), 0), Err(422)));
    let two = body("[\"AAAA2222\",1]");
    assert!(matches!(w.reg_start(&mut c, Some("tok"), Some(&two), 0), Err(422)));
    assert!(w.reg_start(&mut c, Some("tok"), Some(&body("[\"AAAA2222\"]")), 0).is_ok());
    let (digest, _) = submit(&mut c, "frobnicate");
    let ask = body(&format!("[\"{digest}\"]"));
    assert!(matches!(w.auth_start(&c, Some("tok"), &ask), Err(412)));
    assert!(matches!(w.auth_start(&c, Some("tok"), &body("[\"x\",1]")), Err(422)));
    let cred = render(&cred_with_challenge("AA"));
    let id = "00000000-0000-0000-0000-000000000001";
    let finish = body(&format!("[\"{id}\",{cred}]"));
    assert!(matches!(w.auth_finish(&mut c, Some("tok"), &finish, 0), Err(400)));
    let finish = body(&format!("[\"{id}\",{cred},1]"));
    assert!(matches!(w.auth_finish(&mut c, Some("tok"), &finish, 0), Err(422)));
    let d = w.api_deny(&mut c, Some("tok"), &ask).ok().unwrap();
    assert_eq!((d.digest, d.summary.as_str()), (digest, "Run `frobnicate` in /w"));
}

#[test]
fn stored_passkeys_are_read() {
    let key = render(&passkey());
    let keys = passkeys_in(&format!("[{key}, {key}]"));
    assert_eq!(keys.len(), 2);
    assert_eq!(render(&keys[1]), key);
    assert_eq!(passkeys_in("[]").len(), 0);
    for text in ["", "{}", "nonsense", "[17]"] {
        assert_eq!(passkeys_in(text).len(), 0);
    }
    assert_eq!(passkeys_in(&format!("[{key}, null]")).len(), 0);
}

#[test]
fn origins_are_kept_as_they_are_read() {
    let mut shouted = config();
    shouted.origin = shouted.origin.to_uppercase();
    let p = PhoneAuth::new(&shouted).unwrap();
    assert_eq!(p.ceremonies.webauthn.get_allowed_origins()[0].as_str(), "https://relay.example.com:8787/");
}

#[test]
fn relays_call_the_daemon() {
    let mut c = ctx();
    let mut p = PhoneAuth::new(&config()).unwrap();
    assert_eq!(ws_url("https://r:8788/"), "wss://r:8788/ws");
    assert_eq!(ws_url("http://r"), "ws://r/ws");
    assert!(matches!(
        hello(&c, Some("dev_1")),
        DaemonToRelay::Hello { enrolled: 0, device_id: Some(d) } if d == "dev_1"
    ));
    match dispatch(&mut c, &mut p, RelayMethod::Pending, &Json::Null, 0, 0) {
        PhoneStep::Reply(Ok(j)) => assert_eq!(render(&j), "{\"entries\":[],\"enrolled\":0}"),
        _ => panic!("expected the list"),
    }
    match dispatch(&mut c, &mut p, RelayMethod::ApproveFinish, &body("{\"approved\":true}"), 0, 0) {
        PhoneStep::Reply(Err(e)) => assert_eq!(e, "forged approval: missing WebAuthn assertion"),
        _ => panic!("expected a refusal"),
    }
    let (digest, _) = submit(&mut c, "frobnicate");
    let ask = body(&format!("{{\"digest\":\"{digest}\"}}"));
    assert!(matches!(
        dispatch(&mut c, &mut p, RelayMethod::Deny, &ask, 0, 0),
        PhoneStep::Deny(d) if d.digest == digest
    ));
    assert!(matches!(
        rpc_reply("1".into(), Ok(Json::Null)),
        DaemonToRelay::RpcOk { id, body: Json::Null } if id == "1"
    ));
    assert!(matches!(
        rpc_reply("1".into(), Err("m".into())),
        DaemonToRelay::RpcErr { message, .. } if message == "m"
    ));
}

#[test]
fn daemons_choose_how_to_dial() {
    let cred = DeviceCred {
        device_id: "dev_1".into(),
        token: "ct".into(),
        endpoint: "https://c".into(),
        rp_id: "c".into(),
        origin: "https://c".into(),
        phone_token: None,
    };
    let toml = RelayToml { endpoint: Some("https://t".into()), device_id: None, token: None };
    assert!(matches!(relay_dial(None, None, None, None), RelayDial::Offline));
    assert!(matches!(
        relay_dial(Some("https://u"), None, None, None),
        RelayDial::Certificate { url } if url == "https://u"
    ));
    assert!(matches!(
        relay_dial(Some("https://u"), Some("x"), Some(&toml), Some(&cred)),
        RelayDial::Token { url, token, device_id: None } if url == "https://u" && token == "x"
    ));
    assert!(matches!(
        relay_dial(None, None, Some(&toml), Some(&cred)),
        RelayDial::Token { url, token, device_id: Some(d) }
            if url == "https://t" && token == "ct" && d == "dev_1"
    ));
    assert!(matches!(
        relay_dial(None, None, None, Some(&cred)),
        RelayDial::Token { url, .. } if url == "https://c"
    ));
}
