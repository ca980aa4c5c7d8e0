use rig_core::providers::fireworks::{
    Client, ClientBuilder, ClientError, FireworksBuilder, FireworksExt, API_BASE_VAR, API_KEY_VAR,
    FIREWORKS_API_BASE_URL, KIMI_K3,
};

#[test]
fn public_constants_describe_the_fireworks_chat_completions_api() {
    assert_eq!(
        FIREWORKS_API_BASE_URL,
        "https://api.fireworks.ai/inference/v1"
    );
    assert_eq!(KIMI_K3, "accounts/fireworks/models/kimi-k3");
}

#[test]
fn the_provider_describes_itself() {
    assert_eq!(FireworksExt::VERIFY_PATH, "/models");
    assert_eq!(FireworksExt::PROVIDER_NAME, "fireworks");
    assert_eq!(FireworksBuilder::BASE_URL, FIREWORKS_API_BASE_URL);
    assert_eq!(API_KEY_VAR, "FIREWORKS_API_KEY");
    assert_eq!(API_BASE_VAR, "FIREWORKS_API_BASE");
    assert!(FireworksBuilder::build(&ClientBuilder::new("k".to_string())).is_ok());
}

#[test]
fn a_client_is_made_from_the_environment() {
    let make = |key: Result<&str, u8>, base: Result<Option<&str>, u8>| {
        Client::from_env(key.map(str::to_string), base.map(|b| b.map(str::to_string)))
    };
    let client = make(Ok("key"), Ok(None)).ok().unwrap();
    assert_eq!((client.api_key(), client.base_url()), ("key", FIREWORKS_API_BASE_URL));
    let client = make(Ok("key"), Ok(Some("https://fireworks.test/v1"))).ok().unwrap();
    assert_eq!((client.api_key(), client.base_url()), ("key", "https://fireworks.test/v1"));
    assert!(matches!(make(Err(1), Err(2)), Err(ClientError::Variable(1))));
    assert!(matches!(make(Err(1), Ok(None)), Err(ClientError::Variable(1))));
    assert!(matches!(make(Ok("key"), Err(2)), Err(ClientError::Variable(2))));
}

#[test]
fn a_client_is_made_from_a_key() {
    let client = Client::from_val::<u8>("key".to_string()).ok().unwrap();
    assert_eq!((client.api_key(), client.base_url()), ("key", FIREWORKS_API_BASE_URL));
    let client = ClientBuilder::new("key".to_string()).base_url("b".to_string()).build();
    let client = client.ok().unwrap();
    assert_eq!((client.api_key(), client.base_url()), ("key", "b"));
    assert_eq!(format!("{:?}", client.ext()), "FireworksExt");
}
