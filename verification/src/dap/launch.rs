//! Starting: the line that tells a client where the server listens, and the end of a
//! session that an editor launches by itself.

use crate::text::{decimal, to_decimal};
use vstd::prelude::*;

verus! {

/// The line that says that both ports accept connections.
pub open spec fn ready_text(sdk_port: u16) -> Seq<char> {
    "CLARINET_DAP_SDK_READY:"@ + decimal(sdk_port as nat)
}

/// Writes the line that says that both ports accept connections.
pub fn ready_line(sdk_port: u16) -> (line: String)
    ensures
        line@ == ready_text(sdk_port),
{
    let mut line = "CLARINET_DAP_SDK_READY:".to_owned();
    line.append(to_decimal(sdk_port as u128).as_str());
    line
}

/// How a session that an editor launched went.
#[derive(Debug, PartialEq)]
pub enum Launch {
    /// The debugger could not be initialized.
    InitFailed(String),
    /// The project could not be loaded.
    LoadFailed(String),
    /// The expression was evaluated, or it could not be.
    Evaluated { interpreted: bool },
}

/// The result of a session that an editor launched.
pub fn run_dap(launch: Launch) -> (result: Result<(), String>)
    ensures
        match launch {
            Launch::InitFailed(problem) => result matches Err(message) && message@ == "dap_init: "@
                + problem@,
            Launch::LoadFailed(problem) => result matches Err(message) && message == problem,
            Launch::Evaluated { interpreted: true } => result is Ok,
            Launch::Evaluated { interpreted: false } => result matches Err(message) && message@
                == "unable to interpret expression"@,
        },
{
    match launch {
        Launch::InitFailed(problem) => {
            let mut message = "dap_init: ".to_owned();
            message.append(problem.as_str());
            Err(message)
        },
        Launch::LoadFailed(problem) => Err(problem),
        Launch::Evaluated { interpreted } => if interpreted {
            Ok(())
        } else {
            Err("unable to interpret expression".to_owned())
        },
    }
}

/// Whatever `run_dap` returns says how the session went: success exactly where the
/// expression was evaluated, and otherwise what stopped it.
pub proof fn law_launch_is_reported(launch: Launch, result: Result<(), String>)
    requires
        call_ensures(run_dap, (launch,), result),
    ensures
        result is Ok <==> launch == (Launch::Evaluated { interpreted: true }),
        launch matches Launch::InitFailed(problem) ==> result->Err_0@ == "dap_init: "@ + problem@,
        launch matches Launch::LoadFailed(problem) ==> result->Err_0@ == problem@,
        launch == (Launch::Evaluated { interpreted: false }) ==> result->Err_0@
            == "unable to interpret expression"@,
{
}

} // verus!
