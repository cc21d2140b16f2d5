use robustmq::acl::MQTTAclResourceType;
use robustmq::jwt::{expired_token_ids, revocation_status, token_times, RevokedAccessToken};
use robustmq::utils::duration::RobustMQDuration;
use robustmq::utils::expiry::RobustMQExpiry;

#[test]
fn acl_resource_type_names() {
    assert_eq!(MQTTAclResourceType::ClientId.to_string(), "ClientId");
    assert_eq!(MQTTAclResourceType::User.to_string(), "User");
}

#[test]
fn token_lifetimes() {
    let hour = RobustMQExpiry::ExpireDuration(RobustMQDuration::new_from_secs(3600));
    assert_eq!(token_times(100, hour, RobustMQDuration::new_from_secs(5)), (100, 3700, 105));
    assert_eq!(token_times(100, RobustMQExpiry::NeverExpire, RobustMQDuration::zero()), (100, 1_000_000_100, 100));
    assert_eq!(token_times(100, RobustMQExpiry::ServerDefault, RobustMQDuration::zero()), (100, 100, 100));
    assert_eq!(token_times(u64::MAX - 1, RobustMQExpiry::NeverExpire, RobustMQDuration::zero()).1, u64::MAX);
}

#[test]
fn expired_tokens() {
    let tokens = vec![
        RevokedAccessToken { id: "a".to_string(), expiry: 10 },
        RevokedAccessToken { id: "b".to_string(), expiry: 30 },
        RevokedAccessToken { id: "c".to_string(), expiry: 20 },
    ];
    assert_eq!(expired_token_ids(&tokens, 20), vec!["a".to_string(), "c".to_string()]);
    assert!(expired_token_ids(&tokens, 5).is_empty());
    let twice = vec![
        RevokedAccessToken { id: "a".to_string(), expiry: 1 },
        RevokedAccessToken { id: "a".to_string(), expiry: 2 },
    ];
    assert_eq!(expired_token_ids(&twice, 5), vec!["a".to_string()]);
}

#[test]
fn revocation_lookup() {
    assert_eq!(revocation_status(None, 10), (false, false));
    assert_eq!(revocation_status(Some(20), 10), (true, false));
    assert_eq!(revocation_status(Some(10), 10), (true, true));
}
