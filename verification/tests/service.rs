use protest::http::method::Method;
use protest::request::RequestParamKind;
use protest::service::{
    handler_inputs, path_param_value, path_params, path_piece_at, HandlerArg, HandlerInput,
    HandlerInputError,
};
use protest::types::error::RequestError;

#[derive(Debug)]
pub struct SimpleService;

impl SimpleService {
    fn hello_world() -> &'static str {
        "hello"
    }

    #[allow(dead_code)]
    fn hello_world_alloc(body: String) -> String {
        format!("hello {body}")
    }
}

#[test]
fn smoke_hello_world() {
    assert_eq!(SimpleService::hello_world(), "hello");
}

fn typed(name: &str, attrs: &[&str]) -> HandlerArg {
    HandlerArg::Typed {
        ident: Some(name.to_string()),
        attributes: attrs.iter().map(|a| a.to_string()).collect(),
    }
}

#[test]
fn simple_service_routes_read_their_arguments() {
    // `hello_world_alloc(body: String)` on POST /hello/alloc
    let inputs = handler_inputs(&vec![typed("body", &[])], "/hello/alloc").unwrap();
    assert!(matches!(&inputs[0], HandlerInput::Body { name, fn_position: 0 } if name == "body"));
    assert_eq!(SimpleService::hello_world_alloc("alloc".to_string()), "hello alloc");
    let _ = Method::POST;
}

#[test]
fn path_params_are_named_pieces_by_position() {
    let params = path_params("/users/:id/posts/:post");
    assert_eq!(params, vec![(2, "id".to_string()), (4, "post".to_string())]);
    assert!(path_params("/static/only").is_empty());
    assert_eq!(path_params(":lead"), vec![(0, "lead".to_string())]);
    assert_eq!(path_params("/a/:"), vec![(2, String::new())]);
}

#[test]
fn path_piece_is_nth_piece_between_slashes() {
    assert_eq!(path_piece_at("/users/42", 0), Some(String::new()));
    assert_eq!(path_piece_at("/users/42", 2), Some("42".to_string()));
    assert_eq!(path_piece_at("/users/42", 3), None);
    assert_eq!(path_piece_at("", 0), Some(String::new()));
}

#[test]
fn missing_path_param_is_invalid() {
    assert_eq!(path_param_value("/users/42", "id", 2).unwrap(), "42");
    match path_param_value("/users", "id", 2) {
        Err(RequestError::Invalid { name, kind, raw_value, conversion_type, message }) => {
            assert_eq!(name, "id");
            assert_eq!(kind, RequestParamKind::Path);
            assert!(raw_value.is_none());
            assert!(conversion_type.is_none());
            assert_eq!(message, "No path parameter found at position 2");
        }
        other => panic!("expected Invalid, got {other:?}"),
    }
}

#[test]
fn handler_arguments_are_classified_in_order() {
    let args = vec![
        HandlerArg::Receiver,
        typed("id", &[]),
        typed("payload", &["body"]),
        typed("other", &["path"]),
    ];
    assert_eq!(
        handler_inputs(&args, "/x/:id").unwrap_err(),
        HandlerInputError::UnknownPathParam { fn_position: 3 }
    );
    let first = vec![HandlerArg::Receiver, typed("id", &[]), typed("payload", &["body"])];
    let inputs = handler_inputs(&first, "/x/:id").unwrap();
    assert!(matches!(inputs[0], HandlerInput::Receiver));
    assert!(matches!(&inputs[1], HandlerInput::PathParam { name, path_position: 2, fn_position: 1 } if name == "id"));
    assert!(matches!(&inputs[2], HandlerInput::Body { name, fn_position: 2 } if name == "payload"));
}

#[test]
fn unsupported_arguments_are_refused() {
    let args = vec![typed("query", &[])];
    assert_eq!(
        handler_inputs(&args, "/x").unwrap_err(),
        HandlerInputError::Unsupported { fn_position: 0 }
    );
    let pattern = vec![HandlerArg::Typed { ident: None, attributes: vec!["body".to_string()] }];
    assert_eq!(
        handler_inputs(&pattern, "/x").unwrap_err(),
        HandlerInputError::Unsupported { fn_position: 0 }
    );
}

#[test]
fn named_params_are_found_at_their_positions() {
    let route = "/shops/:shop/items/:item";
    for (position, name) in path_params(route) {
        assert_eq!(path_piece_at(route, position), Some(format!(":{name}")));
    }
}
