//! Output-port selection: given the names of the available ports, pick the
//! one the session configuration asks for.
//!
//! The transport layer enumerates the ports and opens the chosen one; the
//! choice itself — first port whose name starts with a requested prefix, a
//! port by index, or the first available — is decided here.

use vstd::prelude::*;

verus! {

/// How the session configuration selects the output port.
#[derive(Debug)]
pub enum ConnectBy {
    Name(String),
    Index(usize),
    Default,
}

/// Why no port could be selected.
#[derive(Clone, Copy, PartialEq, Eq, Structural, Debug)]
pub enum PortSelectError {
    NoPortMatchesName,
    IndexOutOfRange,
    NoPortsAvailable,
}

/// Whether `p` is a prefix of `s`.
pub open spec fn spec_is_prefix(p: Seq<char>, s: Seq<char>) -> bool {
    p.len() <= s.len() && p == s.subrange(0, p.len() as int)
}

/// Whether a port name matches a requested name: the request is a prefix
/// of the port's name.
pub open spec fn name_matches(request: Seq<char>, port: Seq<char>) -> bool {
    spec_is_prefix(request, port)
}

/// Whether `s` starts with `p`, by characters.
fn str_starts_with(s: &str, p: &str) -> (r: bool)
    ensures
        r == spec_is_prefix(p@, s@),
{
    let plen = p.unicode_len();
    let slen = s.unicode_len();
    if plen > slen {
        return false;
    }
    let mut i: usize = 0;
    while i < plen
        invariant
            i <= plen,
            plen == p@.len(),
            slen == s@.len(),
            plen <= slen,
            forall|j: int| 0 <= j < i ==> p@[j] == s@[j],
        decreases plen - i,
    {
        let pc = p.get_char(i);
        let sc = s.get_char(i);
        if pc != sc {
            proof {
                assert(s@.subrange(0, p@.len() as int)[i as int] == s@[i as int]);
            }
            return false;
        }
        i += 1;
    }
    proof {
        assert(p@ =~= s@.subrange(0, p@.len() as int));
    }
    true
}

/// Picks the index of the output port the configuration asks for: the
/// first port whose name starts with the requested name, the requested
/// index if it is in range, or the first port for the default choice. The
/// matching error says exactly why no port fits.
pub fn select_port(ports: &Vec<String>, connect_by: &ConnectBy) -> (r: Result<
    usize,
    PortSelectError,
>)
    ensures
        match *connect_by {
            ConnectBy::Name(n) => match r {
                Ok(i) => i < ports@.len() && name_matches(n@, ports@[i as int]@) && (forall|j: int|
                    0 <= j < i ==> !name_matches(n@, ports@[j]@)),
                Err(e) => e == PortSelectError::NoPortMatchesName && (forall|j: int|
                    0 <= j < ports@.len() ==> !name_matches(n@, ports@[j]@)),
            },
            ConnectBy::Index(idx) => match r {
                Ok(i) => i == idx && idx < ports@.len(),
                Err(e) => e == PortSelectError::IndexOutOfRange && idx >= ports@.len(),
            },
            ConnectBy::Default => match r {
                Ok(i) => i == 0 && ports@.len() > 0,
                Err(e) => e == PortSelectError::NoPortsAvailable && ports@.len() == 0,
            },
        },
{
    match connect_by {
        ConnectBy::Name(n) => {
            let mut i: usize = 0;
            while i < ports.len()
                invariant
                    i <= ports@.len(),
                    *connect_by == ConnectBy::Name(*n),
                    forall|j: int| 0 <= j < i ==> !name_matches(n@, ports@[j]@),
                decreases ports@.len() - i,
            {
                if str_starts_with(ports[i].as_str(), n.as_str()) {
                    return Ok(i);
                }
                i += 1;
            }
            Err(PortSelectError::NoPortMatchesName)
        }
        ConnectBy::Index(idx) => {
            if *idx < ports.len() {
                Ok(*idx)
            } else {
                Err(PortSelectError::IndexOutOfRange)
            }
        }
        ConnectBy::Default => {
            if ports.len() > 0 {
                Ok(0)
            } else {
                Err(PortSelectError::NoPortsAvailable)
            }
        }
    }
}

/// Builds the port choice the way the session options are read: an
/// explicit port name wins, then an explicit index, then the default of
/// the first available port.
pub fn choose_connect_by(port_name: Option<String>, port_index: Option<usize>) -> (r: ConnectBy)
    ensures
        port_name matches Some(n) ==> (r matches ConnectBy::Name(m) && m == n),
        port_name is None ==> (port_index matches Some(i) ==> r == ConnectBy::Index(i)),
        (port_name is None && port_index is None) ==> r is Default,
{
    match port_name {
        Some(n) => ConnectBy::Name(n),
        None => match port_index {
            Some(i) => ConnectBy::Index(i),
            None => ConnectBy::Default,
        },
    }
}

/// The device part of a port name: the characters before the first colon,
/// if the name has one. Port listings show this part alone.
pub fn device_part<'a>(name: &'a str) -> (r: Option<&'a str>)
    ensures
        match r {
            Some(d) => {
                &&& d@.len() < name@.len()
                &&& name@[d@.len() as int] == ':'
                &&& d@ == name@.subrange(0, d@.len() as int)
                &&& forall|j: int| 0 <= j < d@.len() ==> name@[j] != ':'
            },
            None => forall|j: int| 0 <= j < name@.len() ==> name@[j] != ':',
        },
{
    let len = name.unicode_len();
    let mut i: usize = 0;
    while i < len
        invariant
            i <= len,
            len == name@.len(),
            forall|j: int| 0 <= j < i ==> name@[j] != ':',
        decreases len - i,
    {
        if name.get_char(i) == ':' {
            let d = name.substring_char(0, i);
            return Some(d);
        }
        i += 1;
    }
    None
}

} // verus!
