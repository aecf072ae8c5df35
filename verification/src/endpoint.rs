//! Where the compositor listens: a socket path made of the runtime directory
//! and the display's name, both of which the environment supplies.

use vstd::prelude::*;
use crate::codec::append_bytes;
use crate::error::Error;

verus! {

/// The byte that separates the directory from the name.
pub const SEPARATOR: u8 = 47;

/// The socket path: the runtime directory, a slash and the display's name.
/// There is none where either part is missing or empty.
pub open spec fn spec_socket_path(runtime_dir: Option<Seq<u8>>, display: Option<Seq<u8>>) -> Result<
    Seq<u8>,
    Error,
> {
    match (runtime_dir, display) {
        (Some(dir), Some(name)) => if dir.len() == 0 || name.len() == 0 {
            Err(Error::ConnectionError)
        } else {
            Ok(dir + seq![SEPARATOR] + name)
        },
        _ => Err(Error::ConnectionError),
    }
}

/// Assembles the socket path from the two values of the environment. Fails
/// with `ConnectionError` exactly where one of them is missing or empty.
pub fn socket_path(runtime_dir: Option<&Vec<u8>>, display: Option<&Vec<u8>>) -> (r: Result<
    Vec<u8>,
    Error,
>)
    ensures
        match r {
            Ok(path) => spec_socket_path(
                match runtime_dir {
                    Some(d) => Some(d@),
                    None => None,
                },
                match display {
                    Some(n) => Some(n@),
                    None => None,
                },
            ) == Ok::<Seq<u8>, Error>(path@),
            Err(e) => spec_socket_path(
                match runtime_dir {
                    Some(d) => Some(d@),
                    None => None,
                },
                match display {
                    Some(n) => Some(n@),
                    None => None,
                },
            ) == Err::<Seq<u8>, Error>(e),
        },
{
    match (runtime_dir, display) {
        (Some(dir), Some(name)) => {
            if dir.len() == 0 || name.len() == 0 {
                return Err(Error::ConnectionError);
            }
            let mut path: Vec<u8> = Vec::new();
            append_bytes(&mut path, dir.as_slice());
            path.push(SEPARATOR);
            append_bytes(&mut path, name.as_slice());
            assert(path@ =~= dir@ + seq![SEPARATOR] + name@);
            Ok(path)
        },
        _ => Err(Error::ConnectionError),
    }
}

} // verus!
