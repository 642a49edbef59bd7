use backdrop::{authorization, check_status, Error, Fetch, Query, Reply, Topic};

fn pairs(params: Vec<(&'static str, String)>) -> Vec<(String, String)> {
    params.into_iter().map(|(k, v)| (k.to_string(), v)).collect()
}

fn expect(list: &[(&str, &str)]) -> Vec<(String, String)> {
    list.iter().map(|(k, v)| (k.to_string(), v.to_string())).collect()
}

#[test]
fn success_range_of_statuses() {
    assert_eq!(check_status(200), Ok(()));
    assert_eq!(check_status(299), Ok(()));
    assert_eq!(check_status(199), Err(Error::Status(199)));
    assert_eq!(check_status(301), Err(Error::Status(301)));
    assert_eq!(check_status(404), Err(Error::Status(404)));
}

#[test]
fn reply_bodies_and_their_errors() {
    assert_eq!(Reply::Unreachable.into_body(), Err(Error::Request));
    assert_eq!(
        Reply::Answered { status: 503, body: None }.into_body(),
        Err(Error::Status(503))
    );
    assert_eq!(
        Reply::Answered { status: 200, body: None }.into_body(),
        Err(Error::InvalidResponse)
    );
    assert_eq!(
        Reply::Answered { status: 200, body: Some(vec![1, 2, 3]) }.into_body(),
        Ok(vec![1, 2, 3])
    );
}

#[test]
fn replies_accepted_by_status_alone() {
    assert_eq!(Reply::Unreachable.accepted(), Err(Error::Request));
    assert_eq!(Reply::Answered { status: 204, body: None }.accepted(), Ok(()));
    assert_eq!(Reply::Answered { status: 401, body: None }.accepted(), Err(Error::Status(401)));
}

#[test]
fn authorization_carries_the_client_id() {
    let value = authorization("abc123").unwrap();
    assert_eq!(value.to_str().unwrap(), "Client-ID abc123");
    let tabbed = authorization("a\tb").unwrap();
    assert_eq!(tabbed.as_bytes(), b"Client-ID a\tb");
    assert!(authorization("clé").is_ok());
}

#[test]
fn control_characters_make_an_invalid_key() {
    assert_eq!(authorization("abc\n").err(), Some(Error::InvalidApiKey));
    assert_eq!(authorization("a\u{7f}b").err(), Some(Error::InvalidApiKey));
    assert_eq!(authorization("\0").err(), Some(Error::InvalidApiKey));
}

#[test]
fn topic_filter_is_looked_up_first() {
    let fetch = Fetch { count: 3, query: Some(Query::Topic("nature".to_string())) };
    let lookup = fetch.topic_request().unwrap();
    assert_eq!(lookup.url, "https://api.unsplash.com/topics/nature");
    assert!(lookup.query.is_empty());

    let topic = Topic::new("6sMVjTLSkeQ".to_string());
    assert_eq!(topic.id(), "6sMVjTLSkeQ");
    let request = fetch.photos_request(Some(&topic));
    assert_eq!(request.url, "https://api.unsplash.com/photos/random");
    assert_eq!(
        pairs(request.query),
        expect(&[("count", "3"), ("orientation", "landscape"), ("topics", "6sMVjTLSkeQ")])
    );
}

#[test]
fn text_filter_goes_into_the_query() {
    let fetch = Fetch { count: 10, query: Some(Query::Text("mountain lake".to_string())) };
    assert!(fetch.topic_request().is_none());
    let request = fetch.photos_request(None);
    assert_eq!(
        pairs(request.query),
        expect(&[("count", "10"), ("orientation", "landscape"), ("query", "mountain lake")])
    );
}

#[test]
fn no_filter_no_extra_params() {
    let fetch = Fetch::default();
    assert!(fetch.topic_request().is_none());
    let request = fetch.photos_request(None);
    assert_eq!(request.url, "https://api.unsplash.com/photos/random");
    assert_eq!(pairs(request.query), expect(&[("count", "10"), ("orientation", "landscape")]));
}
