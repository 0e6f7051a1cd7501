use vstd::prelude::*;

verus! {

/// The endpoint that exchanges a GitHub OAuth token for a Copilot session token.
pub const TOKEN_ENDPOINT: &'static str = "https://api.github.com/copilot_internal/v2/token";

/// The `User-Agent` sent with the exchange.
pub const USER_AGENT: &'static str = "codex-cli";

/// The value of the `Authorization` header that carries `token`.
pub fn bearer_header(token: &str) -> (r: String)
    ensures
        r@ == "Bearer "@ + token@,
{
    String::from_str("Bearer ").concat(token)
}

/// Whether an exchange answered with this HTTP status shows an active
/// subscription: any 2xx status does.
pub fn status_is_success(status: u16) -> (r: bool)
    ensures
        r == (200 <= status && status <= 299),
{
    200 <= status && status <= 299
}

} // verus!
