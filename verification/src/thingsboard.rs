//! The addresses of the ThingsBoard server that values are exported to.

use vstd::prelude::*;
use vstd::string::StringExecFns;

verus! {

/// This builds the right url to send telemetry data of the device with
/// `access_token`.
pub fn telemetry_url(access_token: &str) -> (url: String)
    ensures
        url@ == "http://localhost:8080/api/v1/"@ + access_token@ + "/telemetry"@,
{
    let mut url = String::from_str("http://localhost:8080/api/v1/");
    url.append(access_token);
    url.append("/telemetry");
    url
}

/// This builds the right url to retrieve login credentials.
pub fn login_url() -> (url: String)
    ensures
        url@ == "http://localhost:8080/api/auth/login"@,
{
    String::from_str("http://localhost:8080/api/auth/login")
}

/// This builds the right url to create a new device with `access_token`.
pub fn device_url(access_token: &str) -> (url: String)
    ensures
        url@ == "http://localhost:8080/api/device?accessToken="@ + access_token@,
{
    let mut url = String::from_str("http://localhost:8080/api/device?accessToken=");
    url.append(access_token);
    url
}

} // verus!
