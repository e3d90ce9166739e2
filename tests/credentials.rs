use wdapty::{
    get_credentials, Aws, CredentialSources, CredentialsError, EnvCredentials, ParseCredentials,
};

const TEST_FILE: &str = "[default]
    aws_access_key_id=defaultid
    aws_secret_access_key=defaultsecret
    aws_session_token=defaultsession
    region=default
    [test]
    aws_access_key_id=testid
    aws_secret_access_key=testsecret
    aws_session_token=test-session
    region=test
    ";

const INCOMPLETE_TEST_FILE: &str = "[default]
    aws_access_key_id=defaultid
    aws_secret_access_key=defaultsecret
    region=default
    [test]
    aws_secret_access_key=testsecret
    aws_session_token=test-session
    region=test
    ";

fn no_env() -> EnvCredentials {
    EnvCredentials {
        access_key_id: None,
        secret_access_key: None,
        session_token: None,
        region: None,
    }
}

fn file_only(text: &str) -> CredentialSources {
    CredentialSources {
        file: Some(text.to_string()),
        env: no_env(),
    }
}

#[test]
fn test_extract_credentials_default() {
    let aws_provider = Aws::new(None, None);

    let credentials = aws_provider.extract_credentials_from_file(TEST_FILE);
    assert!(credentials.get("aws_access_key_id").is_some());
    assert!(credentials.get("aws_secret_access_key").is_some());
    assert!(credentials.get("region").is_some());

    assert_eq!(credentials.get("aws_access_key_id").unwrap(), "defaultid");
    assert_eq!(
        credentials.get("aws_secret_access_key").unwrap(),
        "defaultsecret"
    );
    assert_eq!(credentials.get("region").unwrap(), "default");
}

#[test]
fn test_extract_credentials_different_profile() {
    let aws_provider = Aws::new(Some("test"), None);

    let credentials = aws_provider.extract_credentials_from_file(TEST_FILE);
    assert!(credentials.get("aws_access_key_id").is_some());
    assert!(credentials.get("aws_secret_access_key").is_some());
    assert!(credentials.get("region").is_some());

    assert_eq!(credentials.get("aws_access_key_id").unwrap(), "testid");
    assert_eq!(
        credentials.get("aws_secret_access_key").unwrap(),
        "testsecret"
    );
    assert_eq!(credentials.get("region").unwrap(), "test");
}

#[test]
fn test_extract_credentials_from_env() {
    let aws_provider = Aws::new(None, None);
    let env = EnvCredentials {
        access_key_id: Some("keyid".to_string()),
        secret_access_key: Some("secret".to_string()),
        session_token: Some("token".to_string()),
        region: Some("region".to_string()),
    };
    let credentials = aws_provider.extract_credentials_from_env(&env);
    assert!(credentials.get("aws_access_key_id").is_some());
    assert!(credentials.get("aws_secret_access_key").is_some());
    assert!(credentials.get("region").is_some());

    assert_eq!(credentials.get("aws_access_key_id").unwrap(), "keyid");
    assert_eq!(credentials.get("aws_secret_access_key").unwrap(), "secret");
    assert_eq!(credentials.get("aws_session_token").unwrap(), "token");
    assert_eq!(credentials.get("region").unwrap(), "region");
}

#[test]
fn test_parse() {
    let aws_provider = Aws::new(Some("test"), Some("test_parse".to_string()));
    let result = aws_provider.parse(&file_only(TEST_FILE));
    assert!(result.is_ok());
    let credentials = result.unwrap();

    assert_eq!(credentials.access_key_id, "testid");
    assert_eq!(credentials.secret_access_key, "testsecret");
    assert_eq!(credentials.region, "test");
}

#[test]
fn test_parse_env_priority() {
    let sources = CredentialSources {
        file: Some(TEST_FILE.to_string()),
        env: EnvCredentials {
            access_key_id: Some("env_keyid".to_string()),
            secret_access_key: Some("env_secret".to_string()),
            session_token: Some("env_token".to_string()),
            region: Some("env_region".to_string()),
        },
    };
    let aws_provider = Aws::new(Some("test"), Some("test_parse_env_priority".to_string()));
    let result = aws_provider.parse(&sources);
    assert!(result.is_ok());
    let credentials = result.unwrap();

    assert_eq!(credentials.access_key_id, "env_keyid");
    assert_eq!(credentials.secret_access_key, "env_secret");
    assert_eq!(credentials.session_token, "env_token");
    assert_eq!(credentials.region, "env_region");
}

#[test]
fn test_parse_env_priority_partial() {
    let sources = CredentialSources {
        file: Some(TEST_FILE.to_string()),
        env: EnvCredentials {
            access_key_id: Some("env_keyid".to_string()),
            secret_access_key: Some("env_secret".to_string()),
            session_token: None,
            region: None,
        },
    };
    let aws_provider = Aws::new(
        Some("test"),
        Some("test_parse_env_priority_partial".to_string()),
    );
    let result = aws_provider.parse(&sources);
    assert!(result.is_ok());
    let credentials = result.unwrap();

    assert_eq!(credentials.access_key_id, "env_keyid");
    assert_eq!(credentials.secret_access_key, "env_secret");
    assert_eq!(credentials.session_token, "test-session");
    assert_eq!(credentials.region, "test");
}

#[test]
fn test_parse_failure_file_does_not_exist() {
    let aws_provider = Aws::new(
        Some("test"),
        Some("test_parse_failure_file_does_not_exist".to_string()),
    );
    let sources = CredentialSources {
        file: None,
        env: no_env(),
    };
    let result = aws_provider.parse(&sources);
    assert!(result.is_err());
    assert_eq!(result.unwrap_err().message(), "File does not exist");
}

#[test]
fn test_parse_failure_incomplete_credentials() {
    let aws_provider = Aws::new(
        Some("test"),
        Some("test_parse_failure_incomplete_credentials".to_string()),
    );
    let result = aws_provider.parse(&file_only(INCOMPLETE_TEST_FILE));
    assert!(result.is_err());
    assert_eq!(result.unwrap_err().message(), "Missing aws credentials");
}

#[test]
fn missing_key_in_both_sources_fails() {
    let sources = CredentialSources {
        file: Some(INCOMPLETE_TEST_FILE.to_string()),
        env: EnvCredentials {
            access_key_id: None,
            secret_access_key: Some("s".to_string()),
            session_token: Some("t".to_string()),
            region: Some("r".to_string()),
        },
    };
    let result = Aws::new(Some("test"), None).parse(&sources);
    assert_eq!(result.unwrap_err(), CredentialsError::MissingCredentials);
}

#[test]
fn env_fills_a_key_the_file_lacks() {
    let sources = CredentialSources {
        file: Some(INCOMPLETE_TEST_FILE.to_string()),
        env: EnvCredentials {
            access_key_id: Some("from_env".to_string()),
            secret_access_key: None,
            session_token: None,
            region: None,
        },
    };
    let credentials = Aws::new(Some("test"), None).parse(&sources).unwrap();
    assert_eq!(credentials.access_key_id, "from_env");
    assert_eq!(credentials.secret_access_key, "testsecret");
    assert_eq!(credentials.session_token, "test-session");
    assert_eq!(credentials.region, "test");
}

#[test]
fn other_headers_close_the_section() {
    let text = "[test]\nregion = eu \n[other]\naws_access_key_id=x\n[test]\naws_access_key_id = y\n";
    let credentials = Aws::new(Some("test"), None).extract_credentials_from_file(text);
    assert_eq!(credentials.get("region").unwrap(), "eu");
    assert_eq!(credentials.get("aws_access_key_id").unwrap(), "y");
    assert_eq!(credentials.len(), 2);
    let credentials = Aws::new(Some("missing"), None).extract_credentials_from_file(text);
    assert_eq!(credentials.len(), 0);
}

#[test]
fn get_credentials_dispatches_on_provider() {
    let result = get_credentials("gcp", Some("test"), None, &file_only(TEST_FILE));
    assert_eq!(result.unwrap_err(), CredentialsError::InvalidProvider);
    assert_eq!(
        CredentialsError::InvalidProvider.message(),
        "Invalid Execution type"
    );
    let credentials = get_credentials("aws", None, None, &file_only(TEST_FILE)).unwrap();
    assert_eq!(credentials.access_key_id, "defaultid");
    assert_eq!(credentials.session_token, "defaultsession");
}

#[test]
fn provider_trait_resolves_like_parse() {
    let aws = Aws::new(Some("test"), None);
    let via_trait = ParseCredentials::parse(&aws, &file_only(TEST_FILE)).unwrap();
    assert_eq!(via_trait.access_key_id, "testid");
}

#[test]
fn default_provider_settings() {
    let aws = Aws::new(None, Some("/etc/creds".to_string()));
    assert_eq!(aws.profile(), "default");
    assert_eq!(aws.credentials_path(), "/etc/creds");
    let aws = Aws::new(None, None);
    assert!(aws.credentials_path().ends_with("/.aws/credentials"));
    assert!(!aws.credentials_path().starts_with('~'));
}
