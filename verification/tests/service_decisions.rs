use rio_rs::errors::{HandlerError, MembershipError};
use rio_rs::protocol::ResponseError;
use rio_rs::service::{
    allocation_error, handler_response, keeps_placement, load_verdict, mismatch_check,
    mismatch_verdict, placement_action, placement_check, split_at_colon, start_decision, MismatchCheck,
    PlacementAction, PlacementCheck,
};

#[test]
fn splitting_addresses() {
    assert_eq!(split_at_colon("1.2.3.4:80"), ("1.2.3.4".to_string(), Some("80".to_string())));
    assert_eq!(split_at_colon("a:b:c"), ("a".to_string(), Some("b:c".to_string())));
    assert_eq!(split_at_colon("nocolon"), ("nocolon".to_string(), None));
    assert_eq!(split_at_colon(""), ("".to_string(), None));
}

#[test]
fn placement_checks() {
    assert!(matches!(placement_check(&None), PlacementCheck::Allocate));
    assert!(matches!(placement_check(&Some("host".to_string())), PlacementCheck::Discard));
    assert!(matches!(placement_check(&Some(":80".to_string())), PlacementCheck::Discard));
    assert!(matches!(placement_check(&Some("h:".to_string())), PlacementCheck::Discard));
    match placement_check(&Some("h:1:2".to_string())) {
        PlacementCheck::CheckActive { ip, port } => {
            assert_eq!(ip, "h");
            assert_eq!(port, "1:2");
        }
        other => panic!("unexpected {:?}", other),
    }
    assert!(keeps_placement(&Ok(true)));
    assert!(!keeps_placement(&Ok(false)));
    assert!(!keeps_placement(&Err(MembershipError::Unknown("x".to_string()))));
}

#[test]
fn mismatch_checks() {
    assert!(matches!(mismatch_check("0.0.0.0:5000", "0.0.0.0:5000"), Ok(MismatchCheck::Local)));
    match mismatch_check("0.0.0.0:5000", "h:1:2") {
        Ok(MismatchCheck::Remote { ip, port }) => {
            assert_eq!(ip, "h");
            assert_eq!(port, "1");
        }
        other => panic!("unexpected {:?}", other),
    }
    assert_eq!(
        mismatch_check("0.0.0.0:5000", "host").unwrap_err(),
        ResponseError::Unknown("Malformed address: Missing PORT in 'host'".to_string())
    );
}

#[test]
fn mismatch_verdicts() {
    assert_eq!(mismatch_verdict("a:1".to_string(), Ok(true)), ResponseError::Redirect("a:1".to_string()));
    assert_eq!(mismatch_verdict("a:1".to_string(), Ok(false)), ResponseError::DeallocateServiceObject);
    assert_eq!(
        mismatch_verdict("a:1".to_string(), Err(MembershipError::Unknown("x".to_string()))),
        ResponseError::Unknown("unknown".to_string())
    );
}

#[test]
fn responses() {
    assert_eq!(allocation_error(ResponseError::Unknown("x".to_string())), ResponseError::Allocate);
    assert_eq!(
        allocation_error(ResponseError::NotSupported("T".to_string())),
        ResponseError::NotSupported("T".to_string())
    );
    assert_eq!(handler_response(Ok(vec![7])).unwrap().body, Ok(vec![7]));
    assert_eq!(
        handler_response(Err(HandlerError::ObjectNotFound)).unwrap_err(),
        ResponseError::Unknown("object not found".to_string())
    );
}

#[test]
fn starting_objects() {
    assert_eq!(start_decision(true, true, "Svc"), Ok(false));
    assert_eq!(start_decision(true, false, "Svc"), Ok(false));
    assert_eq!(start_decision(false, true, "Svc"), Ok(true));
    assert_eq!(start_decision(false, false, "Svc"), Err(ResponseError::NotSupported("Svc".to_string())));
}

#[test]
fn loading_objects() {
    assert_eq!(load_verdict(None), Ok(()));
    assert_eq!(
        load_verdict(Some("Any { .. }".to_string())),
        Err(ResponseError::Unknown("Task panicked: Any { .. }".to_string()))
    );
}

#[test]
fn placement_actions() {
    assert!(matches!(placement_action(None, None), PlacementAction::PlaceHere));
    assert!(matches!(placement_action(Some(":80".to_string()), None), PlacementAction::RemoveAndPlaceHere));
    assert!(matches!(placement_action(Some("1.2.3.4".to_string()), None), PlacementAction::RemoveAndPlaceHere));
    match placement_action(Some("1.2.3.4:80".to_string()), Some(Ok(true))) {
        PlacementAction::Keep(a) => assert_eq!(a, "1.2.3.4:80"),
        other => panic!("unexpected {:?}", other),
    }
    match placement_action(Some("1.2.3.4:80".to_string()), Some(Ok(false))) {
        PlacementAction::CleanServerAndPlaceHere(a) => assert_eq!(a, "1.2.3.4:80"),
        other => panic!("unexpected {:?}", other),
    }
    match placement_action(Some("1.2.3.4:80".to_string()), Some(Err(MembershipError::Unknown("x".to_string())))) {
        PlacementAction::CleanServerAndPlaceHere(a) => assert_eq!(a, "1.2.3.4:80"),
        other => panic!("unexpected {:?}", other),
    }
}
