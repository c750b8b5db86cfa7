//! From the `Host` header of a request to the database that it names.
//!
//! The header has the form `<namespace>.<...>`: what stands before the first
//! dot names the database.

use vstd::prelude::*;
use vstd::slice::*;
use vstd::string::*;
use vstd::utf8::valid_utf8;
use crate::error::Error;

verus! {

/// `bytes::Bytes` of the `bytes` crate: a run of bytes, of which nothing is
/// known here but what `bytes_content` names.
#[verifier::external_type_specification]
#[verifier::external_body]
pub struct ExBytes(bytes::Bytes);

/// The bytes that a `Bytes` value holds.
pub uninterp spec fn bytes_content(b: bytes::Bytes) -> Seq<u8>;

/// `bytes::Bytes::copy_from_slice`: the result holds a copy of the slice's
/// bytes, in their order.
#[verifier::external_body]
fn copy_to_bytes(data: &[u8]) -> (b: bytes::Bytes)
    ensures
        bytes_content(b) == data@,
{
    bytes::Bytes::copy_from_slice(data)
}

/// `std::str::from_utf8`: the bytes as a string slice, where they are valid
/// UTF-8, and nothing where they are not.
#[verifier::external_body]
fn str_from_utf8(bytes: &[u8]) -> (s: Option<&str>)
    ensures
        s is Some <==> valid_utf8(bytes@),
        s matches Some(text) ==> text.spec_bytes() == bytes@,
{
    std::str::from_utf8(bytes).ok()
}

/// The byte of a dot.
pub const DOT: u8 = 46;

/// Whether `i` is the place of the first dot in `bytes`.
pub open spec fn is_first_dot(bytes: Seq<u8>, i: int) -> bool {
    &&& 0 <= i < bytes.len()
    &&& bytes[i] == DOT
    &&& forall|k: int| 0 <= k < i ==> bytes[k] != DOT
}

/// Whether `bytes` holds no dot.
pub open spec fn has_no_dot(bytes: Seq<u8>) -> bool {
    forall|k: int| 0 <= k < bytes.len() ==> bytes[k] != DOT
}

/// The place of the first dot, if there is a dot.
pub fn find_first_dot(bytes: &[u8]) -> (r: Option<usize>)
    ensures
        r matches Some(i) ==> is_first_dot(bytes@, i as int),
        r is None ==> has_no_dot(bytes@),
{
    let n: usize = bytes.len();
    let mut i: usize = 0;
    while i < n
        invariant
            i <= n,
            n == bytes@.len(),
            forall|k: int| 0 <= k < i ==> bytes@[k] != DOT,
        decreases n - i,
    {
        if bytes[i] == DOT {
            return Some(i);
        }
        i += 1;
    }
    None
}

/// What `split_namespace` says of a host without a dot.
pub open spec fn malformed_host_text() -> Seq<char> {
    "host header should be in the format <namespace>.<...>"@
}

/// The namespace that a host names: what stands before its first dot. A host
/// without a dot names none.
pub fn split_namespace(host: &str) -> (r: Result<bytes::Bytes, Error>)
    ensures
        r is Err <==> has_no_dot(host.spec_bytes()),
        r matches Ok(ns) ==> is_namespace_of(host.spec_bytes(), bytes_content(ns)),
        r matches Err(e) ==> e matches Error::InvalidHost(reason) && reason@
            == malformed_host_text(),
{
    let bytes = host.as_bytes();
    match find_first_dot(bytes) {
        Some(i) => {
            let ns = copy_to_bytes(slice_subrange(bytes, 0, i));
            Ok(ns)
        },
        None => Err(
            Error::InvalidHost(
                String::from_str("host header should be in the format <namespace>.<...>"),
            ),
        ),
    }
}

/// Why a `Host` header names no namespace, if it names none: it is missing,
/// it is no UTF-8, or it holds no dot.
pub open spec fn host_fault(host: Option<Seq<u8>>) -> Option<Seq<char>> {
    match host {
        None => Some("missing host header"@),
        Some(h) => if !valid_utf8(h) {
            Some("host header is not valid UTF-8"@)
        } else if has_no_dot(h) {
            Some(malformed_host_text())
        } else {
            None
        },
    }
}

/// Whether `ns` is what stands before the first dot of `host`.
pub open spec fn is_namespace_of(host: Seq<u8>, ns: Seq<u8>) -> bool {
    exists|i: int| is_first_dot(host, i) && ns == host.subrange(0, i)
}

/// The bytes of an optional header.
pub open spec fn header_bytes(hdr: Option<&[u8]>) -> Option<Seq<u8>> {
    match hdr {
        Some(h) => Some(h@),
        None => None,
    }
}

/// The namespace that a request names by its `Host` header, as a part of
/// the header's bytes.
fn namespace_slice<'a>(host: Option<&'a [u8]>) -> (r: Result<&'a [u8], Error>)
    ensures
        r is Ok <==> host_fault(header_bytes(host)) is None,
        r matches Ok(ns) ==> is_namespace_of(host->0@, ns@),
        r matches Err(e) ==> e matches Error::InvalidHost(reason) && Some(reason@) == host_fault(
            header_bytes(host),
        ),
{
    let host = match host {
        Some(host) => host,
        None => {
            return Err(Error::InvalidHost(String::from_str("missing host header")));
        },
    };
    if str_from_utf8(host).is_none() {
        return Err(Error::InvalidHost(String::from_str("host header is not valid UTF-8")));
    }
    match find_first_dot(host) {
        Some(i) => Ok(slice_subrange(host, 0, i)),
        None => Err(
            Error::InvalidHost(
                String::from_str("host header should be in the format <namespace>.<...>"),
            ),
        ),
    }
}

/// The namespace that a request names by its `Host` header, given as the
/// header's bytes. The header must be there, be valid UTF-8 and hold a dot.
pub fn extract_namespace(host: Option<&[u8]>) -> (r: Result<bytes::Bytes, Error>)
    ensures
        r is Ok <==> host_fault(header_bytes(host)) is None,
        r matches Ok(ns) ==> is_namespace_of(host->0@, bytes_content(ns)),
        r matches Err(e) ==> e matches Error::InvalidHost(reason) && Some(reason@) == host_fault(
            header_bytes(host),
        ),
{
    match namespace_slice(host) {
        Ok(ns) => Ok(copy_to_bytes(ns)),
        Err(e) => Err(e),
    }
}

/// Whether two byte strings are the same.
fn bytes_eq(a: &[u8], b: &[u8]) -> (same: bool)
    ensures
        same == (a@ == b@),
{
    let n: usize = a.len();
    if n != b.len() {
        return false;
    }
    let mut i: usize = 0;
    while i < n
        invariant
            i <= n,
            n == a@.len(),
            n == b@.len(),
            forall|k: int| 0 <= k < i ==> a@[k] == b@[k],
        decreases n - i,
    {
        if a[i] != b[i] {
            return false;
        }
        i += 1;
    }
    assert(a@ =~= b@);
    true
}

/// A database that the server holds, under its name. `F` is what makes
/// connections to it.
#[derive(Debug)]
pub struct Namespace<F> {
    pub name: Vec<u8>,
    pub db_factory: F,
}

/// What the handlers of HTTP requests share: the databases that the server
/// holds.
#[derive(Debug)]
pub struct AppState<F> {
    pub namespaces: Vec<Namespace<F>>,
}

/// What a request gets for the database that it names: what makes
/// connections to that database.
#[derive(Debug, PartialEq, Eq)]
pub struct DbFactoryExtractor<D>(pub D);

impl<F> AppState<F> {
    /// Whether the server holds a database under the name `name`.
    pub open spec fn has(&self, name: Seq<u8>) -> bool {
        exists|i: int| 0 <= i < self.namespaces@.len() && self.namespaces@[i].name@ == name
    }

    /// The first database that the server holds under the name `name`.
    pub fn find(&self, name: &[u8]) -> (r: Option<usize>)
        ensures
            r is Some <==> self.has(name@),
            r matches Some(i) ==> i < self.namespaces@.len() && self.namespaces@[i as int].name@
                == name@ && forall|k: int| 0 <= k < i ==> self.namespaces@[k].name@ != name@,
    {
        let n: usize = self.namespaces.len();
        let mut i: usize = 0;
        while i < n
            invariant
                i <= n,
                n == self.namespaces@.len(),
                forall|k: int| 0 <= k < i ==> self.namespaces@[k].name@ != name@,
            decreases n - i,
        {
            if bytes_eq(self.namespaces[i].name.as_slice(), name) {
                return Some(i);
            }
            i += 1;
        }
        None
    }
}

impl<'a, F> DbFactoryExtractor<&'a F> {
    /// Finds what makes connections to the database that a request names by
    /// its `Host` header, given as the header's bytes. A header that names
    /// no database is a fault of the request; a database that the server
    /// does not hold is not found.
    pub fn from_request_parts(host: Option<&[u8]>, state: &'a AppState<F>) -> (r: Result<
        DbFactoryExtractor<&'a F>,
        Error,
    >)
        ensures
            match host_fault(header_bytes(host)) {
                Some(reason) => r matches Err(Error::InvalidHost(text)) && text@ == reason,
                None => exists|ns: Seq<u8>|
                    #![trigger state.has(ns)]
                    is_namespace_of(host->0@, ns) && (if state.has(ns) {
                        r matches Ok(found) && exists|i: int|
                            0 <= i < state.namespaces@.len() && state.namespaces@[i].name@ == ns
                                && *found.0 == state.namespaces@[i].db_factory
                    } else {
                        r matches Err(Error::NamespaceNotFound)
                    }),
            },
    {
        let ns = match namespace_slice(host) {
            Ok(ns) => ns,
            Err(e) => {
                return Err(e);
            },
        };
        match state.find(ns) {
            Some(i) => Ok(DbFactoryExtractor(&state.namespaces[i].db_factory)),
            None => Err(Error::NamespaceNotFound),
        }
    }
}

} // verus!
