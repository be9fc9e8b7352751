//! Errors of signing and validation.

use vstd::prelude::*;

verus! {

/// Errors of signing and validation.
#[derive(Debug, PartialEq, Eq)]
pub enum Error {
    /// Reading or writing failed (the message that the system gave).
    Io(String),
    Pkcs12,
    Missing(&'static str),
    UnsupportedKey,
    Certificate(String),
    Pdf(String),
    Crypto(String),
    SignatureTooLarge,
    Tsa(String),
}

/// An error as values.
pub enum ErrorModelo {
    Io(Seq<char>),
    Pkcs12,
    Missing(Seq<char>),
    UnsupportedKey,
    Certificate(Seq<char>),
    Pdf(Seq<char>),
    Crypto(Seq<char>),
    SignatureTooLarge,
    Tsa(Seq<char>),
}

impl View for Error {
    type V = ErrorModelo;

    open spec fn view(&self) -> ErrorModelo {
        match self {
            Error::Io(m) => ErrorModelo::Io(m@),
            Error::Pkcs12 => ErrorModelo::Pkcs12,
            Error::Missing(m) => ErrorModelo::Missing(m@),
            Error::UnsupportedKey => ErrorModelo::UnsupportedKey,
            Error::Certificate(m) => ErrorModelo::Certificate(m@),
            Error::Pdf(m) => ErrorModelo::Pdf(m@),
            Error::Crypto(m) => ErrorModelo::Crypto(m@),
            Error::SignatureTooLarge => ErrorModelo::SignatureTooLarge,
            Error::Tsa(m) => ErrorModelo::Tsa(m@),
        }
    }
}

/// The message that an error shows to the user.
pub open spec fn mensaje_de(e: ErrorModelo) -> Seq<char> {
    match e {
        ErrorModelo::Io(m) => "entrada/salida: "@ + m,
        ErrorModelo::Pkcs12 => "PKCS#12 inválido o contraseña incorrecta"@,
        ErrorModelo::Missing(m) => "el almacén no contiene "@ + m,
        ErrorModelo::UnsupportedKey => "clave privada no soportada"@,
        ErrorModelo::Certificate(m) => "certificado inválido: "@ + m,
        ErrorModelo::Pdf(m) => "estructura PDF no soportada: "@ + m,
        ErrorModelo::Crypto(m) => "error criptográfico: "@ + m,
        ErrorModelo::SignatureTooLarge => "la firma no cabe en el espacio reservado"@,
        ErrorModelo::Tsa(m) => "autoridad de sellado de tiempo: "@ + m,
    }
}

/// An error whose kind is `Pdf` and whose message is `m`.
pub open spec fn error_pdf(e: Error, m: Seq<char>) -> bool {
    e@ == ErrorModelo::Pdf(m)
}

impl Error {
    /// The message that the error shows to the user.
    pub fn mensaje(&self) -> (r: String)
        ensures
            r@ == mensaje_de(self@),
    {
        match self {
            Error::Io(m) => String::from_str("entrada/salida: ").concat(m.as_str()),
            Error::Pkcs12 => String::from_str("PKCS#12 inválido o contraseña incorrecta"),
            Error::Missing(m) => String::from_str("el almacén no contiene ").concat(m),
            Error::UnsupportedKey => String::from_str("clave privada no soportada"),
            Error::Certificate(m) => String::from_str("certificado inválido: ").concat(m.as_str()),
            Error::Pdf(m) => String::from_str("estructura PDF no soportada: ").concat(m.as_str()),
            Error::Crypto(m) => String::from_str("error criptográfico: ").concat(m.as_str()),
            Error::SignatureTooLarge => String::from_str("la firma no cabe en el espacio reservado"),
            Error::Tsa(m) => String::from_str("autoridad de sellado de tiempo: ").concat(m.as_str()),
        }
    }
}

/// A `Pdf` error with message `m`.
pub fn error_pdf_de(m: &str) -> (e: Error)
    ensures
        e@ == ErrorModelo::Pdf(m@),
{
    Error::Pdf(String::from_str(m))
}

/// The result type of signing and validation.
pub type Result<T> = core::result::Result<T, Error>;

} // verus!
