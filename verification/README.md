# Rúbrica

Electronic signatures for the portals of the Spanish public administration
(the @firma platform): PAdES signatures of PDF documents, detached CAdES
signatures of arbitrary data, enveloping XAdES, validation of what was
signed, and the `afirma://` bridge that portals use to hand a signing
request to a local client.

The library in `src/` is written in Verus. Each public function states in
its contract what it returns for every input it accepts, and Verus proves
the code against that contract. The cryptography and the DER codecs come
from the RustCrypto crates (`rsa`, `sha2`, `der`, `x509-cert`, `cms`) and
from `p12` / `p12-keystore`; each call into them goes through a small
trusted item whose doc comment says what is assumed of it.

## Layout

- `src/asn1.rs`, `src/numeros.rs`, `src/texto.rs`, `src/codificacion.rs`:
  DER lengths and TLVs, decimal numbers, byte and text search, hex and
  base64.
- `src/pades.rs`, `src/pades_b.rs`, `src/relectura.rs`: the incremental
  update that prepares a PDF for signing, the byte range, embedding the
  signature, reading it back, and the laws that tie these together.
- `src/firma_cms.rs`, `src/cades.rs`, `src/tsa.rs`, `src/xades.rs`: the CMS
  SignedData that is signed, its signed attributes, time-stamp requests
  and replies, and the other signature formats.
- `src/validate.rs`: validation of a detached CMS signature against the
  content it covers.
- `src/keystore.rs`, `src/pkcs12.rs`, `src/certificados.rs`: identities
  read from PKCS#12 stores, and the stores found on disk.
- `src/protocol.rs`, `src/puente.rs`, `src/trifasica.rs`,
  `src/proveedores.rs`, `src/larioja.rs`, `src/web.rs`: the `afirma://`
  protocol, the three-phase signing exchange as a state machine, and the
  local web interface.
- `app/`: the command line, the desktop window, the bridge's network
  loop and the HTTP calls; it reads and writes, and leaves every decision
  to the library.
- `tests/`: the tests, run against the compiled library.
