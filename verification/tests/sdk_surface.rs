use lettermint::client::AuthMode;

#[test]
fn documented_operations_are_exposed() {
    assert_eq!(lettermint::endpoints::OPERATION_IDS.len(), 50);
    assert!(lettermint::endpoints::OPERATION_IDS.contains(&"processInboundMessage"));
    assert!(lettermint::endpoints::OPERATION_IDS.contains(&"v1.sendMail"));
    assert!(lettermint::endpoints::OPERATION_IDS.contains(&"v1.blockedFileTypes"));
    assert!(lettermint::endpoints::OPERATION_IDS.contains(&"team.roles"));
    assert!(lettermint::endpoints::OPERATION_IDS.contains(&"team.members.show"));
    assert!(
        lettermint::endpoints::OPERATION_IDS.contains(&"team.members.assignment.update")
    );
    assert!(lettermint::endpoints::OPERATION_IDS.contains(&"webhook.showDelivery"));
}

#[test]
fn auth_modes_are_distinct() {
    assert_ne!(AuthMode::Sending, AuthMode::Api);
}
