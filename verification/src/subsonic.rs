use vstd::prelude::*;

verus! {

/// Status of a Subsonic-compatible response.
#[derive(PartialEq, Eq, Structural, Debug, Clone, Copy)]
pub enum SubsonicStatus {
    Okay,
    Unimplemented,
    Error,
}

/// The stub license every Subsonic-compatible server reports.
#[derive(PartialEq, Eq, Debug)]
pub struct SubsonicLicense {
    pub valid: String,
    pub email: String,
    pub license_expires: String,
}

/// The envelope of a Subsonic-compatible response.
#[derive(PartialEq, Eq, Debug)]
pub struct SubsonicResponse {
    pub magpie_version: String,
    pub license: Option<SubsonicLicense>,
    pub status: SubsonicStatus,
    pub subsonic_type: String,
    pub version: String,
}

/// Relies on chrono: `Utc::now`, `DateTime::checked_add_months` and
/// `DateTime::to_rfc3339_opts`, to format a timestamp a year from now. The
/// result depends on the clock, so nothing is promised beyond the RFC 3339
/// text being nonempty. `Utc::now` aborts when the system clock reads
/// before the Unix epoch — an environmental pathology, not an input.
#[verifier::external_body]
fn license_expiry_rfc3339() -> (r: String)
    ensures
        r@.len() > 0,
{
    let expiry = match chrono::Utc::now().checked_add_months(chrono::Months::new(12)) {
        None => chrono::Utc::now(),
        Some(x) => x,
    };
    expiry.to_rfc3339_opts(chrono::SecondsFormat::Millis, true)
}

impl SubsonicLicense {
    /// The always-valid stub license, expiring a year from now.
    pub fn new() -> (r: SubsonicLicense)
        ensures
            r.valid@ == "true"@,
            r.email@ == "alwaysvalid@example.com"@,
            r.license_expires@.len() > 0,
    {
        SubsonicLicense {
            valid: String::from_str("true"),
            email: String::from_str("alwaysvalid@example.com"),
            license_expires: license_expiry_rfc3339(),
        }
    }
}

impl SubsonicResponse {
    /// A fresh response carrying the protocol and server versions.
    pub fn new() -> (r: SubsonicResponse)
        ensures
            r.version@ == "1.16.1"@,
            r.magpie_version@ == "0.2.0"@,
            r.subsonic_type@ == "Magpie"@,
            r.license is None,
            r.status is Okay,
    {
        SubsonicResponse {
            magpie_version: String::from_str("0.2.0"),
            license: None,
            status: SubsonicStatus::Okay,
            subsonic_type: String::from_str("Magpie"),
            version: String::from_str("1.16.1"),
        }
    }

    /// The response to a ping: an empty, successful envelope.
    pub fn ping() -> (r: SubsonicResponse)
        ensures
            r.status is Okay,
            r.license is None,
    {
        SubsonicResponse::new()
    }

    /// The response to a license request: the stub license attached.
    pub fn get_license() -> (r: SubsonicResponse)
        ensures
            r.status is Okay,
            r.license matches Some(l) && l.valid@ == "true"@,
    {
        let mut r = SubsonicResponse::new();
        r.license = Some(SubsonicLicense::new());
        r
    }

    /// The response to every not-yet-implemented route.
    pub fn unimplemented() -> (r: SubsonicResponse)
        ensures
            r.status is Unimplemented,
            r.license is None,
    {
        let mut r = SubsonicResponse::new();
        r.status = SubsonicStatus::Unimplemented;
        r
    }
}

/// The Subsonic-compatible dispatch: of the whole route surface, only the
/// system endpoints answer; every other route reports itself unimplemented.
pub fn subsonic_dispatch(path: &str) -> (r: SubsonicResponse)
    ensures
        path@ == "/ping"@ ==> r.status is Okay && r.license is None,
        path@ == "/getLicense"@ ==> r.status is Okay && r.license is Some,
        path@ != "/ping"@ && path@ != "/getLicense"@ ==> r.status is Unimplemented,
{
    proof {
        reveal_strlit("/ping");
        reveal_strlit("/getLicense");
        assert("/ping"@.len() == 5);
        assert("/getLicense"@.len() == 11);
    }
    if crate::text::str_eq(path, "/ping") {
        SubsonicResponse::ping()
    } else if crate::text::str_eq(path, "/getLicense") {
        SubsonicResponse::get_license()
    } else {
        SubsonicResponse::unimplemented()
    }
}

} // verus!
