//! Construction of the Hello message payload: the first framed message of a
//! session, declaring protocol version, client identity, capabilities, the
//! listening port and the local node id, in the length-prefixed recursive
//! binary encoding the wire format uses.

use vstd::prelude::*;

use crate::codec::append_bytes;
use crate::PROTOCOL_VERSION;

verus! {

/// The header that precedes a byte string of length `len` (for `len` under
/// 65536): short form for lengths under 56, else a length-of-length form.
pub open spec fn rlp_str_header(len: int) -> Seq<u8> {
    if len < 56 {
        seq![(128 + len) as u8]
    } else if len < 256 {
        seq![184u8, len as u8]
    } else {
        seq![185u8, (len / 256) as u8, (len % 256) as u8]
    }
}

/// The header that precedes a list whose payload is `len` bytes long (for
/// `len` under 65536).
pub open spec fn rlp_list_header(len: int) -> Seq<u8> {
    if len < 56 {
        seq![(192 + len) as u8]
    } else if len < 256 {
        seq![248u8, len as u8]
    } else {
        seq![249u8, (len / 256) as u8, (len % 256) as u8]
    }
}

/// The encoding of a byte string: a single byte under 128 stands for
/// itself, anything else carries a length header.
pub open spec fn rlp_bytes(data: Seq<u8>) -> Seq<u8> {
    if data.len() == 1 && data[0] < 128 {
        data
    } else {
        rlp_str_header(data.len() as int) + data
    }
}

/// The encoding of a small unsigned integer: zero is the empty string's
/// header, values under 128 stand for themselves, the rest carry a header.
pub open spec fn rlp_u8(v: u8) -> Seq<u8> {
    if v == 0 {
        seq![128u8]
    } else if v < 128 {
        seq![v]
    } else {
        seq![129u8, v]
    }
}

/// The client identifier string this implementation declares.
pub open spec fn client_id_bytes() -> Seq<u8> {
    seq![114u8, 101u8, 116u8, 104u8, 95u8, 104u8, 101u8, 108u8, 108u8, 111u8]
}

/// The name of the one capability this client declares.
pub open spec fn eth_name_bytes() -> Seq<u8> {
    seq![101u8, 116u8, 104u8]
}

/// The version of the declared capability.
pub open spec fn eth_capability_version() -> u8 {
    68
}

/// The capability list: one (name, version) record.
pub open spec fn capability_list() -> Seq<u8> {
    let inner = rlp_bytes(eth_name_bytes()) + rlp_u8(eth_capability_version());
    let one = rlp_list_header(inner.len() as int) + inner;
    rlp_list_header(one.len() as int) + one
}

/// The payload items of the Hello list: protocol version, client id,
/// capabilities, listening port (zero: not accepting inbound), node id.
pub open spec fn hello_items(node_id: Seq<u8>) -> Seq<u8> {
    rlp_u8(PROTOCOL_VERSION) + rlp_bytes(client_id_bytes()) + capability_list() + rlp_u8(0)
        + rlp_bytes(node_id)
}

/// The complete Hello message body as framed on the wire: the Hello message
/// id (zero, encoded as the empty-string header) followed by the Hello list.
pub open spec fn hello_message(node_id: Seq<u8>) -> Seq<u8> {
    seq![128u8] + rlp_list_header(hello_items(node_id).len() as int) + hello_items(node_id)
}

/// Append the byte-string header for length `len`.
fn rlp_append_str_header(out: &mut Vec<u8>, len: usize)
    requires
        len < 65536,
    ensures
        final(out)@ == old(out)@ + rlp_str_header(len as int),
{
    if len < 56 {
        out.push((128 + len) as u8);
        proof {
            assert(old(out)@ + rlp_str_header(len as int) =~= out@);
        }
    } else if len < 256 {
        out.push(184u8);
        out.push(len as u8);
        proof {
            assert(old(out)@ + rlp_str_header(len as int) =~= out@);
        }
    } else {
        out.push(185u8);
        out.push((len / 256) as u8);
        out.push((len % 256) as u8);
        proof {
            assert(old(out)@ + rlp_str_header(len as int) =~= out@);
        }
    }
}

/// Append the list header for payload length `len`.
fn rlp_append_list_header(out: &mut Vec<u8>, len: usize)
    requires
        len < 65536,
    ensures
        final(out)@ == old(out)@ + rlp_list_header(len as int),
{
    if len < 56 {
        out.push((192 + len) as u8);
        proof {
            assert(old(out)@ + rlp_list_header(len as int) =~= out@);
        }
    } else if len < 256 {
        out.push(248u8);
        out.push(len as u8);
        proof {
            assert(old(out)@ + rlp_list_header(len as int) =~= out@);
        }
    } else {
        out.push(249u8);
        out.push((len / 256) as u8);
        out.push((len % 256) as u8);
        proof {
            assert(old(out)@ + rlp_list_header(len as int) =~= out@);
        }
    }
}

/// Append the encoding of a byte string.
fn rlp_append_bytes(out: &mut Vec<u8>, data: &[u8])
    requires
        data@.len() < 65536,
    ensures
        final(out)@ == old(out)@ + rlp_bytes(data@),
{
    if data.len() == 1 && data[0] < 128 {
        out.push(data[0]);
        proof {
            assert(rlp_bytes(data@) =~= data@);
            assert(old(out)@ + rlp_bytes(data@) =~= out@);
        }
    } else {
        rlp_append_str_header(out, data.len());
        append_bytes(out, data);
        proof {
            assert(old(out)@ + rlp_bytes(data@) =~= out@);
        }
    }
}

/// Append the encoding of a small unsigned integer.
fn rlp_append_u8(out: &mut Vec<u8>, v: u8)
    ensures
        final(out)@ == old(out)@ + rlp_u8(v),
{
    if v == 0 {
        out.push(128u8);
    } else if v < 128 {
        out.push(v);
    } else {
        out.push(129u8);
        out.push(v);
    }
    proof {
        assert(old(out)@ + rlp_u8(v) =~= out@);
    }
}

/// The client identifier as bytes.
fn client_id() -> (r: Vec<u8>)
    ensures
        r@ == client_id_bytes(),
{
    let mut r: Vec<u8> = Vec::new();
    r.push(114u8);
    r.push(101u8);
    r.push(116u8);
    r.push(104u8);
    r.push(95u8);
    r.push(104u8);
    r.push(101u8);
    r.push(108u8);
    r.push(108u8);
    r.push(111u8);
    proof {
        assert(r@ =~= client_id_bytes());
    }
    r
}

/// Build the complete Hello message body for the given 64-byte node id
/// (the uncompressed public key with its format-prefix byte stripped).
pub fn hello_payload(node_id: &[u8]) -> (r: Vec<u8>)
    requires
        node_id@.len() == 64,
    ensures
        r@ == hello_message(node_id@),
        r@.len() < 65536,
{
    // The capability record: [["eth", 68]].
    let mut inner: Vec<u8> = Vec::new();
    let mut eth: Vec<u8> = Vec::new();
    eth.push(101u8);
    eth.push(116u8);
    eth.push(104u8);
    proof {
        assert(eth@ =~= eth_name_bytes());
    }
    rlp_append_bytes(&mut inner, eth.as_slice());
    rlp_append_u8(&mut inner, 68u8);
    proof {
        assert(inner@ =~= rlp_bytes(eth_name_bytes()) + rlp_u8(eth_capability_version()));
    }
    let mut one: Vec<u8> = Vec::new();
    rlp_append_list_header(&mut one, inner.len());
    append_bytes(&mut one, inner.as_slice());

    // The Hello items.
    let mut items: Vec<u8> = Vec::new();
    rlp_append_u8(&mut items, PROTOCOL_VERSION);
    let cid = client_id();
    rlp_append_bytes(&mut items, cid.as_slice());
    rlp_append_list_header(&mut items, one.len());
    append_bytes(&mut items, one.as_slice());
    proof {
        assert(items@ =~= rlp_u8(PROTOCOL_VERSION) + rlp_bytes(client_id_bytes())
            + capability_list());
    }
    rlp_append_u8(&mut items, 0u8);
    rlp_append_bytes(&mut items, node_id);
    proof {
        assert(items@ =~= hello_items(node_id@));
    }

    // Message id, list header, items.
    let mut r: Vec<u8> = Vec::new();
    r.push(128u8);
    rlp_append_list_header(&mut r, items.len());
    append_bytes(&mut r, items.as_slice());
    proof {
        assert(r@ =~= hello_message(node_id@));
    }
    r
}

} // verus!
