//! The client role: the redirect for callers without a token, the prompt,
//! and the full exchange loop run in-process against the authorizer.

use oauth_engine::oauth_authorizer::handle_connection;
use oauth_engine::oauth_client::{
    ClientStep, FollowUp, client_connection_next, client_connection_start,
};
use oauth_engine::token_base::TokenBase;

#[test]
fn service_without_token_redirects_to_authorize() {
    let step = client_connection_start("GET /service HTTP/1.1\r\n\r\n");
    match step {
        ClientStep::Reply(resp) => {
            assert_eq!(resp.response_line.status_code, 302);
            assert_eq!(resp.headers.get("Location"), Some("/authorize".to_string()));
        },
        ClientStep::CallAuthorizer { .. } => panic!("expected an immediate redirect"),
    }
}

#[test]
fn authorize_get_shows_the_prompt() {
    let step = client_connection_start("GET /authorize HTTP/1.1\r\n\r\n");
    match step {
        ClientStep::Reply(resp) => {
            assert_eq!(resp.response_line.status_code, 200);
            let page = resp.body.get("html_content").unwrap();
            assert!(page.contains("Authorization Prompt"));
            assert!(page.contains("form action='/authorize'"));
        },
        ClientStep::CallAuthorizer { .. } => panic!("expected the prompt page"),
    }
}

#[test]
fn authorize_post_missing_password_is_an_error_page() {
    let step =
        client_connection_start("POST /authorize HTTP/1.1\r\n\r\n{\"username\":\"user\"}");
    match step {
        ClientStep::Reply(resp) => {
            assert_eq!(resp.response_line.status_code, 200);
            let page = resp.body.get("html_content").unwrap();
            assert!(page.contains("invalid_request"));
            assert!(page.contains("Missing password field"));
        },
        ClientStep::CallAuthorizer { .. } => panic!("expected an error page"),
    }
}

#[test]
fn unknown_client_path_gets_the_fixed_page() {
    let step = client_connection_start("GET /elsewhere HTTP/1.1\r\n\r\n");
    match step {
        ClientStep::Reply(resp) => {
            assert_eq!(resp.response_line.status_code, 404);
        },
        ClientStep::CallAuthorizer { .. } => panic!("expected the missing-page reply"),
    }
}

#[test]
fn full_exchange_sets_the_cookie_and_redirects() {
    let mut base = TokenBase::new();
    let step = client_connection_start("POST /authorize HTTP/1.1\r\n\r\nusername=user&password=asdf");
    let (outbound, follow_up) = match step {
        ClientStep::CallAuthorizer { outbound, follow_up } => (outbound, follow_up),
        ClientStep::Reply(r) => panic!("expected an exchange, got status {}", r.response_line.status_code),
    };
    assert_eq!(outbound.request_line.path, "/token");
    assert!(matches!(follow_up, FollowUp::TokenExchange));

    let authorizer_reply = handle_connection(&mut base, &outbound.to_string(), 1000);
    let step = client_connection_next(follow_up, &authorizer_reply);
    match step {
        ClientStep::Reply(resp) => {
            assert_eq!(resp.response_line.status_code, 302);
            assert_eq!(resp.headers.get("Location"), Some("/service".to_string()));
            let setter = resp.headers.get("Set-Cookie").unwrap();
            assert!(setter.starts_with("access_token="));
            assert!(setter.ends_with("; Path=/; Max-Age=3600"));
        },
        ClientStep::CallAuthorizer { .. } => panic!("expected the final redirect"),
    }
}

#[test]
fn failed_exchange_relays_the_error() {
    let mut base = TokenBase::new();
    let step =
        client_connection_start("POST /authorize HTTP/1.1\r\n\r\nusername=user&password=wrong");
    let (outbound, follow_up) = match step {
        ClientStep::CallAuthorizer { outbound, follow_up } => (outbound, follow_up),
        ClientStep::Reply(_) => panic!("expected an exchange"),
    };
    let authorizer_reply = handle_connection(&mut base, &outbound.to_string(), 1000);
    let step = client_connection_next(follow_up, &authorizer_reply);
    match step {
        ClientStep::Reply(resp) => {
            assert_eq!(resp.response_line.status_code, 200);
            let page = resp.body.get("html_content").unwrap();
            assert!(page.contains("invalid_grant"));
            assert!(page.contains("User credentials not valid"));
        },
        ClientStep::CallAuthorizer { .. } => panic!("expected an error page"),
    }
}

#[test]
fn service_with_token_fetches_and_renders_the_resource() {
    let mut base = TokenBase::new();

    // Obtain a token through the exchange first.
    let step = client_connection_start("POST /authorize HTTP/1.1\r\n\r\nusername=user&password=asdf");
    let (outbound, follow_up) = match step {
        ClientStep::CallAuthorizer { outbound, follow_up } => (outbound, follow_up),
        ClientStep::Reply(_) => panic!("expected an exchange"),
    };
    let reply = handle_connection(&mut base, &outbound.to_string(), 1000);
    let step = client_connection_next(follow_up, &reply);
    let token = match step {
        ClientStep::Reply(resp) => {
            let cookie = resp.headers.get("Cookie").unwrap();
            cookie.strip_prefix("access_token=").unwrap().to_string()
        },
        ClientStep::CallAuthorizer { .. } => panic!("expected the redirect"),
    };

    // Now visit /service with the cookie set.
    let raw = format!("GET /service HTTP/1.1\r\nCookie: access_token={}\r\n\r\n", token);
    let step = client_connection_start(&raw);
    let (outbound, follow_up) = match step {
        ClientStep::CallAuthorizer { outbound, follow_up } => (outbound, follow_up),
        ClientStep::Reply(_) => panic!("expected a resource fetch"),
    };
    assert_eq!(outbound.request_line.path, "/resource");

    let reply = handle_connection(&mut base, &outbound.to_string(), 1005);
    let step = client_connection_next(follow_up, &reply);
    let (outbound, follow_up) = match step {
        ClientStep::CallAuthorizer { outbound, follow_up } => (outbound, follow_up),
        ClientStep::Reply(_) => panic!("expected an expiry fetch"),
    };
    assert_eq!(outbound.request_line.path, "/expiry");

    let reply = handle_connection(&mut base, &outbound.to_string(), 1010);
    let step = client_connection_next(follow_up, &reply);
    match step {
        ClientStep::Reply(resp) => {
            assert_eq!(resp.response_line.status_code, 200);
            let page = resp.body.get("html_content").unwrap();
            assert!(page.contains("This is the content of the protected resource."));
            assert!(page.contains("Token expires in 20 seconds!"));
        },
        ClientStep::CallAuthorizer { .. } => panic!("expected the final page"),
    }
}

#[test]
fn service_with_bad_token_relays_the_denial() {
    let mut base = TokenBase::new();
    let step = client_connection_start(
        "GET /service HTTP/1.1\r\nCookie: access_token=garbage\r\n\r\n",
    );
    let (outbound, follow_up) = match step {
        ClientStep::CallAuthorizer { outbound, follow_up } => (outbound, follow_up),
        ClientStep::Reply(_) => panic!("expected a resource fetch"),
    };
    let reply = handle_connection(&mut base, &outbound.to_string(), 0);
    let step = client_connection_next(follow_up, &reply);
    match step {
        ClientStep::Reply(resp) => {
            assert_eq!(resp.response_line.status_code, 200);
            let page = resp.body.get("html_content").unwrap();
            assert!(page.contains("token provided was invalid"));
        },
        ClientStep::CallAuthorizer { .. } => panic!("expected an error page"),
    }
}
