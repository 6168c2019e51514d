//! The one argument of the two programs: the socket address on which the
//! server listens and to which a worker connects.

use vstd::prelude::*;
use vstd::string::StringExecFns;

verus! {

/// Which of the two programs was started.
#[derive(Clone, Copy, Debug, PartialEq, Eq, Structural)]
pub enum Role {
    Server,
    Worker,
}

/// A socket address as plain numbers: what the parse of an address text gives.
#[derive(Clone, Copy, Debug, PartialEq, Eq, Structural)]
pub enum SocketAddress {
    /// An IPv4 address, its four bytes most significant first, and a port.
    V4 { ip: u32, port: u16 },
    /// An IPv6 address, its sixteen bytes most significant first, a port, the
    /// flow information and the scope.
    V6 { ip: u128, port: u16, flowinfo: u32, scope_id: u32 },
}

/// Why the arguments of a program are of no use.
#[derive(Clone, Debug, PartialEq, Eq)]
pub enum UsageError {
    /// No address was given.
    MissingAddress { role: Role },
    /// More than the address was given.
    TooManyArguments,
    /// What was given is no socket address.
    InvalidAddress { text: String },
}

/// A usage error as contracts see it.
pub enum UsageErrorView {
    MissingAddress { role: Role },
    TooManyArguments,
    InvalidAddress { text: Seq<char> },
}

impl View for UsageError {
    type V = UsageErrorView;

    open spec fn view(&self) -> UsageErrorView {
        match *self {
            UsageError::MissingAddress { role } => UsageErrorView::MissingAddress { role },
            UsageError::TooManyArguments => UsageErrorView::TooManyArguments,
            UsageError::InvalidAddress { text } => UsageErrorView::InvalidAddress { text: text@ },
        }
    }
}

/// What the user is told about a usage error.
pub open spec fn usage_text(error: UsageErrorView) -> Seq<char> {
    match error {
        UsageErrorView::MissingAddress { role: Role::Server } =>
            "Needs one argument: IP address for the server to listen on"@,
        UsageErrorView::MissingAddress { role: Role::Worker } =>
            "Needs one argument: IP address of the server"@,
        UsageErrorView::TooManyArguments =>
            "Too many arguments, only one is needed: IP address of the server"@,
        UsageErrorView::InvalidAddress { text } => "Invalid IP address: "@ + text
            + "\nWrite it using the following format 127.0.0.1:8000"@,
    }
}

/// What the arguments of a program give. The first argument is the program's
/// name; `parsed` is what the parse of the second gave, where there is a second:
/// the address that the text spells, or nothing where it spells none. The
/// number of arguments is looked at first, then the parse.
pub open spec fn address_outcome(
    arguments: Seq<String>,
    role: Role,
    parsed: Option<SocketAddress>,
) -> Result<SocketAddress, UsageErrorView> {
    if arguments.len() < 2 {
        Err(UsageErrorView::MissingAddress { role })
    } else if arguments.len() > 2 {
        Err(UsageErrorView::TooManyArguments)
    } else {
        match parsed {
            Some(address) => Ok(address),
            None => Err(UsageErrorView::InvalidAddress { text: arguments[1]@ }),
        }
    }
}

/// The outcome of a validation as contracts see it.
pub open spec fn address_result_view(result: Result<SocketAddress, UsageError>) -> Result<
    SocketAddress,
    UsageErrorView,
> {
    match result {
        Ok(address) => Ok(address),
        Err(error) => Err(error@),
    }
}

impl UsageError {
    /// What the user is told.
    pub fn message(&self) -> (text: String)
        ensures
            text@ == usage_text(self@),
    {
        match self {
            UsageError::MissingAddress { role: Role::Server } => String::from_str(
                "Needs one argument: IP address for the server to listen on",
            ),
            UsageError::MissingAddress { role: Role::Worker } => String::from_str(
                "Needs one argument: IP address of the server",
            ),
            UsageError::TooManyArguments => String::from_str(
                "Too many arguments, only one is needed: IP address of the server",
            ),
            UsageError::InvalidAddress { text } => String::from_str("Invalid IP address: ").concat(
                text.as_str(),
            ).concat("\nWrite it using the following format 127.0.0.1:8000"),
        }
    }
}

/// Decides on a program's arguments: the address, where the program's name and
/// one argument were passed and the argument spells an address; the usage
/// error otherwise. The error for a text that spells no address names the text.
pub fn validate_address(
    arguments: Vec<String>,
    role: Role,
    parsed: Option<SocketAddress>,
) -> (result: Result<SocketAddress, UsageError>)
    ensures
        address_result_view(result) == address_outcome(arguments@, role, parsed),
{
    let mut arguments = arguments;
    let n: usize = arguments.len();
    if n < 2 {
        Err(UsageError::MissingAddress { role })
    } else if n > 2 {
        Err(UsageError::TooManyArguments)
    } else {
        match parsed {
            Some(address) => Ok(address),
            None => match arguments.pop() {
                Some(text) => Err(UsageError::InvalidAddress { text }),
                None => Err(UsageError::MissingAddress { role }),
            },
        }
    }
}

/// The address on which the server is to listen, out of the server's
/// arguments and the parse of the second of them.
pub fn validate_server_argument(arguments: Vec<String>, parsed: Option<SocketAddress>) -> (result:
    Result<SocketAddress, UsageError>)
    ensures
        address_result_view(result) == address_outcome(arguments@, Role::Server, parsed),
{
    validate_address(arguments, Role::Server, parsed)
}

/// The address of the server, out of a worker's arguments and the parse of the
/// second of them.
pub fn validate_worker_argument(arguments: Vec<String>, parsed: Option<SocketAddress>) -> (result:
    Result<SocketAddress, UsageError>)
    ensures
        address_result_view(result) == address_outcome(arguments@, Role::Worker, parsed),
{
    validate_address(arguments, Role::Worker, parsed)
}

/// The two programs take the same arguments: one succeeds exactly where the
/// other does, which is where two arguments were passed and the second spells
/// an address, and then both give that address. Where they fail, they differ
/// in what they say of a missing address alone.
pub proof fn roles_agree(arguments: Seq<String>, parsed: Option<SocketAddress>)
    ensures
        address_outcome(arguments, Role::Server, parsed).is_ok() <==> arguments.len() == 2
            && parsed.is_some(),
        address_outcome(arguments, Role::Server, parsed).is_ok() ==> address_outcome(
            arguments,
            Role::Server,
            parsed,
        ) == Ok::<SocketAddress, UsageErrorView>(parsed.unwrap()),
        arguments.len() >= 2 ==> address_outcome(arguments, Role::Worker, parsed)
            == address_outcome(arguments, Role::Server, parsed),
        address_outcome(arguments, Role::Worker, parsed).is_ok() == address_outcome(
            arguments,
            Role::Server,
            parsed,
        ).is_ok(),
{
}

} // verus!
