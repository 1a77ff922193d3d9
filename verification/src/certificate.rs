use vstd::prelude::*;
use crate::text::str_eq;

verus! {

/// How the file of a root certificate is read.
#[derive(PartialEq, Eq, Debug, Copy, Clone, Structural)]
pub enum CertFormat {
    /// As PEM.
    Pem,
    /// As DER.
    Der,
    /// As PEM, and as DER if that fails.
    Either,
}

/// How a certificate file is read, by the extension of its name.
pub open spec fn cert_format_of(extension: Option<Seq<char>>) -> CertFormat {
    match extension {
        Some(e) => if e == "pem"@ {
            CertFormat::Pem
        } else if e == "der"@ {
            CertFormat::Der
        } else {
            CertFormat::Either
        },
        None => CertFormat::Either,
    }
}

/// Decides how a certificate file is read: `pem` and `der` say so
/// themselves, any other name is tried both ways.
pub fn cert_format(extension: Option<&str>) -> (format: CertFormat)
    ensures
        format == cert_format_of(
            match extension {
                Some(e) => Some(e@),
                None => None,
            },
        ),
{
    match extension {
        Some(e) => {
            if str_eq(e, "pem") {
                CertFormat::Pem
            } else if str_eq(e, "der") {
                CertFormat::Der
            } else {
                CertFormat::Either
            }
        },
        None => CertFormat::Either,
    }
}

} // verus!
