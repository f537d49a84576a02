use rio_rs::errors::HandlerError;
use rio_rs::protocol::pubsub::{SubscriptionRequest, SubscriptionResponse};
use rio_rs::protocol::{ClientError, RequestEnvelope, RequestError, ResponseEnvelope, ResponseError};

#[test]
fn response_envelope_variants() {
    // Success case
    let response = ResponseEnvelope::new(vec![1, 2, 3]);
    assert!(response.body.is_ok());

    // Error case
    let response_error = ResponseError::Unknown("something went wrong".to_string());
    let response = ResponseEnvelope::err(response_error);
    assert!(response.body.is_err());
}

#[test]
fn request_envelope_fields() {
    let req = RequestEnvelope::new("T".to_string(), "1".to_string(), "M".to_string(), vec![9]);
    assert_eq!(req.handler_type, "T");
    assert_eq!(req.handler_id, "1");
    assert_eq!(req.message_type, "M");
    assert_eq!(req.payload, vec![9]);
}

#[test]
fn handler_errors_become_response_errors() {
    assert_eq!(
        ResponseError::from(HandlerError::ApplicationError(vec![1, 2])),
        ResponseError::ApplicationError(vec![1, 2])
    );
    assert_eq!(
        ResponseError::from(HandlerError::ObjectNotFound),
        ResponseError::Unknown("object not found".to_string())
    );
    assert_eq!(
        ResponseError::from(HandlerError::HandlerNotFound),
        ResponseError::Unknown("message handler not found".to_string())
    );
    let env = ResponseEnvelope::from(HandlerError::Unknown);
    assert_eq!(env.body, Err(ResponseError::Unknown("unknown execution error".to_string())));
}

#[test]
fn application_errors_are_decoded() {
    let bytes = bincode::serialize(&"boom".to_string()).unwrap();
    let err: RequestError<String> = RequestError::from_response_error(ResponseError::ApplicationError(bytes));
    assert_eq!(err, RequestError::ApplicationError("boom".to_string()));

    let err: RequestError<String> = RequestError::from_response_error(ResponseError::ApplicationError(vec![1]));
    match err {
        RequestError::ResponseError(ResponseError::DeseralizationError(m)) => {
            assert!(m.starts_with("Application error deserialization issue: "))
        }
        other => panic!("unexpected {:?}", other),
    }

    let err: RequestError<String> = RequestError::from_response_error(ResponseError::Allocate);
    assert_eq!(err, RequestError::ResponseError(ResponseError::Allocate));

    let err: RequestError<String> = RequestError::from_response_decoded(
        ResponseError::ApplicationError(vec![]),
        Err("bad".to_string()),
    );
    assert_eq!(
        err,
        RequestError::ResponseError(ResponseError::DeseralizationError(
            "Application error deserialization issue: bad".to_string()
        ))
    );
}

#[test]
fn client_errors_become_request_errors() {
    let err: RequestError<String> = RequestError::from(ClientError::Disconnect);
    assert_eq!(err, RequestError::ClientError(ClientError::Disconnect));
}

#[test]
fn subscription_messages() {
    let ok = SubscriptionResponse::new(vec![4]);
    assert_eq!(ok.clone().body, Ok(vec![4]));
    let err = SubscriptionResponse::err(ResponseError::Allocate);
    assert_eq!(err.clone().body, Err(ResponseError::Allocate));
    let req = SubscriptionRequest { handler_type: "T".to_string(), handler_id: "1".to_string() };
    assert_eq!(req.handler_id, "1");
}

#[test]
fn messages() {
    assert_eq!(ResponseError::Redirect("x".to_string()).message(), "ServiceObject is in another server");
    assert_eq!(ClientError::NoServersAvailable.message(), "no servers available");
    assert_eq!(ClientError::IoError("e".to_string()).message(), "std::io::Error");
}
