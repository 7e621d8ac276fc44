use ossup::config::{
    d_jobs, d_max_tasks, d_parallel, d_part, decode_secret, encode_secret, load_config,
    restrict_permissions, save_config, secret_text, Account, ClientConfig, StoredAccount,
    StoredConfig,
};

fn sample() -> ClientConfig {
    ClientConfig {
        access_key_id: "LTAI".to_string(),
        access_key_secret: "s3cret 密钥".to_string(),
        endpoint: "oss-cn-hangzhou.aliyuncs.com".to_string(),
        bucket: "b".to_string(),
        prefix: "p/q".to_string(),
        remember: true,
        jobs: 16,
        parallel: 4,
        part_size_mb: 64,
        ossutil_path: "/opt/ossutil".to_string(),
        cli_creds: true,
        max_tasks: 7,
        accounts: vec![
            Account {
                name: "生产".to_string(),
                access_key_id: "id1".to_string(),
                access_key_secret: "k1".to_string(),
                endpoint: "e1".to_string(),
            },
            Account {
                name: "测试".to_string(),
                access_key_id: "id2".to_string(),
                access_key_secret: String::new(),
                endpoint: String::new(),
            },
        ],
        buckets: vec!["b".to_string(), "c".to_string()],
    }
}

#[test]
fn defaults() {
    assert_eq!((d_jobs(), d_parallel(), d_part(), d_max_tasks()), (5, 8, 16, 3));
    let c = load_config(None);
    assert_eq!((c.jobs, c.parallel, c.part_size_mb, c.max_tasks), (5, 8, 16, 3));
    assert_eq!(c.endpoint, "");
    assert!(!c.remember && !c.cli_creds && c.accounts.is_empty() && c.buckets.is_empty());
    assert_eq!(format!("{c:?}"), format!("{:?}", ClientConfig::default()));
}

#[test]
fn unreadable_settings_load_as_the_defaults() {
    let c = load_config(Some(StoredConfig::default()));
    assert_eq!(format!("{c:?}"), format!("{:?}", ClientConfig::default()));
}

#[test]
fn secrets_are_stored_in_base64() {
    let stored = save_config(sample());
    assert_eq!(stored.access_key_secret_enc, "czNjcmV0IOWvhumSpQ==");
    assert_eq!(stored.accounts[0].access_key_secret_enc, "azE=");
    assert_eq!(stored.accounts[1].access_key_secret_enc, "");
    assert_eq!(stored.accounts[0].name, "生产");
    assert_eq!(stored.jobs, 16);
    assert_eq!(encode_secret("a"), "YQ==");
    assert_eq!(encode_secret(""), "");
}

#[test]
fn saved_settings_load_as_they_were() {
    assert!(sample().can_be_saved());
    let back = load_config(Some(save_config(sample())));
    assert_eq!(format!("{back:?}"), format!("{:?}", sample()));
}

#[test]
fn zeros_load_as_defaults() {
    let mut c = sample();
    c.jobs = 0;
    c.parallel = 0;
    c.part_size_mb = 0;
    c.max_tasks = 0;
    let stored = save_config(c);
    assert_eq!((stored.jobs, stored.parallel, stored.part_size_mb, stored.max_tasks), (0, 0, 0, 0));
    let back = load_config(Some(stored));
    assert_eq!((back.jobs, back.parallel, back.part_size_mb, back.max_tasks), (5, 8, 16, 3));
    let again = load_config(Some(save_config(back.clone())));
    assert_eq!(format!("{again:?}"), format!("{back:?}"));
}

#[test]
fn broken_secrets_are_empty() {
    assert_eq!(decode_secret("YQ=="), "a");
    assert_eq!(decode_secret(""), "");
    for enc in ["YQ", "YQ=", "YR==", "Y Q==", "%%%%", "中文", "YQ==\n"] {
        assert_eq!(decode_secret(enc), "", "{enc}");
    }
    // Base64 of a byte that is not UTF-8.
    assert_eq!(decode_secret("/w=="), "");
    let stored = StoredConfig {
        access_key_secret_enc: "!".to_string(),
        accounts: vec![StoredAccount {
            name: "n".to_string(),
            access_key_secret_enc: "eA==".to_string(),
            ..StoredAccount::default()
        }],
        ..StoredConfig::default()
    };
    let c = load_config(Some(stored));
    assert_eq!(c.access_key_secret, "");
    assert_eq!((c.accounts[0].name.as_str(), c.accounts[0].access_key_secret.as_str()), ("n", "x"));
}

#[test]
fn decoded_bytes_spell_the_secret() {
    assert_eq!(secret_text(Some("键".as_bytes().to_vec())), "键");
    assert_eq!(secret_text(Some(vec![0xe9, 0x94])), "");
    assert_eq!(secret_text(None), "");
}

#[test]
fn files_with_credentials_are_private() {
    assert_eq!(restrict_permissions(true), Some(0o600));
    assert_eq!(restrict_permissions(false), None);
}
