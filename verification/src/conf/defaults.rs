//! The values of the configuration that have defaults.

use super::HttpAddr;
use vstd::prelude::*;

verus! {

/// The database connection used when `SQL_CONN` is not set: an in-memory
/// database.
pub fn sql_conn() -> (r: String)
    ensures
        r@ == ":memory:"@,
{
    String::from_str(":memory:")
}

/// The address listened on when `HTTP_ADDR` is not set: port 8080 of the
/// loopback interface.
pub fn http_addr() -> (r: HttpAddr)
    ensures
        r matches HttpAddr::V4 { ip, port } && ip@ == seq![127u8, 0, 0, 1] && port == 8080,
{
    let ip = [127u8, 0, 0, 1];
    assert(ip@ =~= seq![127u8, 0, 0, 1]);
    HttpAddr::V4 { ip, port: 8080 }
}

/// The directory in which bash commands run when `USER_HOME_DIR` is not
/// set.
pub fn user_home_dir() -> (r: String)
    ensures
        r@ == "/home/ajeto"@,
{
    String::from_str("/home/ajeto")
}

} // verus!
