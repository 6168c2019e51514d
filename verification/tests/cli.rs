use fragment_dispatch::cli::{
    validate_address, validate_server_argument, validate_worker_argument, Role, SocketAddress,
    UsageError,
};

/// What the parse of "127.0.0.1:8000" gives.
const LOCAL: SocketAddress = SocketAddress::V4 { ip: 0x7f00_0001, port: 8000 };

fn address_or_panic(result: Result<SocketAddress, UsageError>) -> SocketAddress {
    match result {
        Ok(address) => address,
        Err(e) => panic!("{}", e.message()),
    }
}

#[test]
#[should_panic(expected = "Needs one argument: IP address for the server to listen on")]
fn test_validate_server_argument_too_few_arguments() {
    let arguments = vec!["server".to_string()];
    address_or_panic(validate_server_argument(arguments, None));
}

#[test]
#[should_panic(expected = "Too many arguments, only one is needed: IP address of the server")]
fn test_validate_server_argument_too_many_arguments() {
    let arguments = vec!["server".to_string(), "".to_string(), "".to_string()];
    address_or_panic(validate_server_argument(arguments, None));
}

#[test]
#[should_panic(
    expected = "Invalid IP address: \nWrite it using the following format 127.0.0.1:8000"
)]
fn test_validate_server_argument_invalid_ip_address() {
    // The empty text spells no address: its parse gives nothing.
    let arguments = vec!["server".to_string(), "".to_string()];
    address_or_panic(validate_server_argument(arguments, None));
}

#[test]
#[should_panic(expected = "Needs one argument: IP address of the server")]
fn test_validate_worker_argument_too_few_arguments() {
    let arguments = vec!["server".to_string()];
    address_or_panic(validate_worker_argument(arguments, None));
}

#[test]
#[should_panic(expected = "Too many arguments, only one is needed: IP address of the server")]
fn test_validate_worker_argument_too_many_arguments() {
    let arguments = vec!["server".to_string(), "".to_string(), "".to_string()];
    address_or_panic(validate_worker_argument(arguments, None));
}

#[test]
#[should_panic(
    expected = "Invalid IP address: \nWrite it using the following format 127.0.0.1:8000"
)]
fn test_validate_worker_argument_invalid_ip_address() {
    // The empty text spells no address: its parse gives nothing.
    let arguments = vec!["server".to_string(), "".to_string()];
    address_or_panic(validate_worker_argument(arguments, None));
}

#[test]
fn one_argument_that_spells_an_address_is_the_address() {
    let arguments = vec!["server".to_string(), "127.0.0.1:8000".to_string()];
    assert_eq!(validate_server_argument(arguments.clone(), Some(LOCAL)), Ok(LOCAL));
    assert_eq!(validate_worker_argument(arguments.clone(), Some(LOCAL)), Ok(LOCAL));
    assert_eq!(validate_address(arguments, Role::Worker, Some(LOCAL)), Ok(LOCAL));
    let v6 = SocketAddress::V6 { ip: 1, port: 443, flowinfo: 0, scope_id: 0 };
    let arguments = vec!["worker".to_string(), "[::1]:443".to_string()];
    assert_eq!(validate_worker_argument(arguments, Some(v6)), Ok(v6));
}

#[test]
fn one_argument_that_spells_no_address_is_named_in_the_error() {
    for text in ["", "localhost", "127.0.0.1", "127.0.0.1:port", "256.0.0.1:80"] {
        let arguments = vec!["server".to_string(), text.to_string()];
        let refused = Err(UsageError::InvalidAddress { text: text.to_string() });
        assert_eq!(validate_server_argument(arguments.clone(), None), refused);
        assert_eq!(validate_worker_argument(arguments, None), refused);
    }
}

#[test]
fn the_program_name_does_not_matter() {
    for name in ["", "server", "127.0.0.1:8000"] {
        let arguments = vec![name.to_string(), "127.0.0.1:8000".to_string()];
        assert_eq!(validate_server_argument(arguments, Some(LOCAL)), Ok(LOCAL));
        let arguments = vec![name.to_string(), "nowhere".to_string()];
        assert_eq!(
            validate_server_argument(arguments, None),
            Err(UsageError::InvalidAddress { text: "nowhere".to_string() })
        );
    }
}

#[test]
fn wrong_numbers_of_arguments_are_told_apart() {
    assert_eq!(
        validate_server_argument(Vec::new(), None),
        Err(UsageError::MissingAddress { role: Role::Server })
    );
    assert_eq!(
        validate_worker_argument(Vec::new(), None),
        Err(UsageError::MissingAddress { role: Role::Worker })
    );
    assert_eq!(
        validate_worker_argument(vec!["worker".to_string()], None),
        Err(UsageError::MissingAddress { role: Role::Worker })
    );
    let three = vec!["a".to_string(), "b".to_string(), "c".to_string()];
    assert_eq!(validate_server_argument(three.clone(), None), Err(UsageError::TooManyArguments));
    assert_eq!(validate_worker_argument(three, None), Err(UsageError::TooManyArguments));
}

#[test]
fn the_number_of_arguments_is_looked_at_before_the_parse() {
    let three =
        vec!["a".to_string(), "127.0.0.1:8000".to_string(), "127.0.0.1:8000".to_string()];
    assert_eq!(
        validate_server_argument(three, Some(LOCAL)),
        Err(UsageError::TooManyArguments)
    );
    assert_eq!(
        validate_worker_argument(vec!["127.0.0.1:8000".to_string()], Some(LOCAL)),
        Err(UsageError::MissingAddress { role: Role::Worker })
    );
}

#[test]
fn server_and_worker_agree_on_success() {
    let lists: Vec<Vec<String>> = vec![
        Vec::new(),
        vec!["p".to_string()],
        vec!["p".to_string(), "127.0.0.1:8000".to_string()],
        vec!["p".to_string(), "x".to_string(), "y".to_string()],
    ];
    for arguments in lists {
        for parsed in [None, Some(LOCAL)] {
            let server = validate_server_argument(arguments.clone(), parsed);
            let worker = validate_worker_argument(arguments.clone(), parsed);
            assert_eq!(server.is_ok(), worker.is_ok());
            assert_eq!(server.is_ok(), arguments.len() == 2 && parsed.is_some());
            if server.is_ok() {
                assert_eq!(server, worker);
                assert_eq!(server, Ok(LOCAL));
            }
        }
    }
}

#[test]
fn messages_name_what_is_wrong() {
    assert_eq!(
        UsageError::MissingAddress { role: Role::Server }.message(),
        "Needs one argument: IP address for the server to listen on"
    );
    assert_eq!(
        UsageError::MissingAddress { role: Role::Worker }.message(),
        "Needs one argument: IP address of the server"
    );
    assert_eq!(
        UsageError::TooManyArguments.message(),
        "Too many arguments, only one is needed: IP address of the server"
    );
    assert_eq!(
        UsageError::InvalidAddress { text: "localhost".to_string() }.message(),
        "Invalid IP address: localhost\nWrite it using the following format 127.0.0.1:8000"
    );
}
