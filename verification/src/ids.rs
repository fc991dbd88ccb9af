//! Identifiers of servers and shells.

use vstd::prelude::*;
use vstd::string::*;
use vstd::utf8::*;

use crate::bytes::{copy_bytes, copy_range, same_bytes};
use crate::hex::{
    all_hex, digits_spell_bytes, hex, hex_injective, hex_is_all_hex, hex_text, is_all_hex,
    unhex_bytes, unhex_of_hex, unhex_raw,
};
use crate::text::push_text;

verus! {

/// How many bytes an identifier takes on the wire.
pub const ID_BYTES: usize = 16;

/// A managed server.
#[derive(Debug, Clone, Copy, PartialEq, Eq)]
pub struct ServerId(pub [u8; 16]);

/// A shell on a server.
#[derive(Debug, Clone, Copy, PartialEq, Eq)]
pub struct ShellId(pub [u8; 16]);

/// The sixteen bytes of a slice of that length.
pub fn sixteen(bytes: &[u8]) -> (r: Option<[u8; 16]>)
    ensures
        r is Some <==> bytes@.len() == 16,
        r matches Some(id) ==> id@ == bytes@,
{
    if bytes.len() != 16 {
        return None;
    }
    let mut id: [u8; 16] = [0u8; 16];
    let mut i: usize = 0;
    while i < 16
        invariant
            i <= 16,
            bytes@.len() == 16,
            forall|k: int| 0 <= k < i ==> id@[k] == bytes@[k],
        decreases 16 - i,
    {
        id[i] = bytes[i];
        i = i + 1;
    }
    assert(id@ =~= bytes@);
    Some(id)
}

/// The readable form of a server identifier.
pub open spec fn server_text(id: Seq<u8>) -> Seq<char> {
    "srv_"@ + hex_text(id)
}

/// The identifier that a readable form spells: `srv_` and thirty-two
/// hexadecimal digits.
pub open spec fn server_bytes(text: Seq<u8>) -> Option<Seq<u8>> {
    if text.len() == 36 && text.take(4) == encode_utf8("srv_"@) && all_hex(text.skip(4)) {
        unhex_bytes(text.skip(4))
    } else {
        None
    }
}

impl ServerId {
    /// The identifier that a readable form spells.
    pub fn from_text(text: &str) -> (r: Option<ServerId>)
        ensures
            r is Some <==> server_bytes(text.spec_bytes()) is Some,
            r matches Some(id) ==> server_bytes(text.spec_bytes()) == Some(id.0@),
    {
        let raw: &[u8] = text.as_bytes();
        if raw.len() != 36 {
            return None;
        }
        let head: Vec<u8> = copy_range(raw, 0, 4);
        let digits: Vec<u8> = copy_range(raw, 4, 36);
        assert(head@ =~= raw@.take(4));
        assert(digits@ =~= raw@.skip(4));
        if !same_bytes(head.as_slice(), "srv_".as_bytes()) || !is_all_hex(digits.as_slice()) {
            return None;
        }
        proof {
            digits_spell_bytes(digits@);
        }
        match unhex_raw(digits.as_slice()) {
            Some(bytes) => ServerId::from_wire(bytes.as_slice()),
            None => None,
        }
    }

    /// The identifier's bytes as they cross the wire.
    pub fn to_wire(&self) -> (r: Vec<u8>)
        ensures
            r@ == self.0@,
    {
        copy_bytes(self.0.as_slice())
    }

    /// The identifier that sixteen bytes spell.
    pub fn from_wire(bytes: &[u8]) -> (r: Option<ServerId>)
        ensures
            r is Some <==> bytes@.len() == 16,
            r matches Some(id) ==> id.0@ == bytes@,
    {
        match sixteen(bytes) {
            Some(id) => Some(ServerId(id)),
            None => None,
        }
    }

    /// Whether two identifiers are the same.
    pub fn same(&self, other: &ServerId) -> (r: bool)
        ensures
            r == (*self == *other),
    {
        proof {
            if self.0@ == other.0@ {
                assert(self.0 =~= other.0);
            }
        }
        same_bytes(self.0.as_slice(), other.0.as_slice())
    }

    /// The readable form: `srv_` and the bytes in hexadecimal.
    pub fn to_text(&self) -> (r: String)
        ensures
            r@ == server_text(self.0@),
    {
        let mut out: String = String::new();
        push_text(&mut out, "srv_");
        let digits: String = hex(self.0.as_slice());
        push_text(&mut out, digits.as_str());
        assert(out@ =~= server_text(self.0@));
        out
    }
}

impl ShellId {
    /// The identifier's bytes as they cross the wire.
    pub fn to_wire(&self) -> (r: Vec<u8>)
        ensures
            r@ == self.0@,
    {
        copy_bytes(self.0.as_slice())
    }

    /// The identifier that sixteen bytes spell.
    pub fn from_wire(bytes: &[u8]) -> (r: Option<ShellId>)
        ensures
            r is Some <==> bytes@.len() == 16,
            r matches Some(id) ==> id.0@ == bytes@,
    {
        match sixteen(bytes) {
            Some(id) => Some(ShellId(id)),
            None => None,
        }
    }

    /// Whether two identifiers are the same.
    pub fn same(&self, other: &ShellId) -> (r: bool)
        ensures
            r == (*self == *other),
    {
        proof {
            if self.0@ == other.0@ {
                assert(self.0 =~= other.0);
            }
        }
        same_bytes(self.0.as_slice(), other.0.as_slice())
    }
}

/// A readable form is read back.
pub proof fn server_text_reads_back(id: Seq<u8>)
    requires
        id.len() == 16,
    ensures
        server_bytes(encode_utf8(server_text(id))) == Some(id),
{
    reveal_strlit("srv_");
    let text = server_text(id);
    let digits = hex_text(id);
    hex_is_all_hex(id);
    unhex_of_hex(id);
    assert(is_ascii_chars("srv_"@));
    assert(is_ascii_chars(text)) by {
        assert forall|i: int| 0 <= i < text.len() implies '\0' <= #[trigger] text[i] <= '\u{7f}' by {
            if i >= 4 {
                assert(text[i] == digits[i - 4]);
            }
        }
    }
    is_ascii_chars_encode_utf8(text);
    is_ascii_chars_encode_utf8(digits);
    is_ascii_chars_encode_utf8("srv_"@);
    let raw = encode_utf8(text);
    assert(raw.take(4) =~= encode_utf8("srv_"@)) by {
        assert forall|i: int| 0 <= i < 4 implies raw.take(4)[i] == encode_utf8("srv_"@)[i] by {
            assert(raw[i] == text[i] as u8);
            assert(text[i] == "srv_"@[i]);
        }
    }
    assert(raw.skip(4) =~= encode_utf8(digits)) by {
        assert forall|i: int| 0 <= i < 32 implies raw.skip(4)[i] == encode_utf8(digits)[i] by {
            assert(raw[i + 4] == text[i + 4] as u8);
            assert(text[i + 4] == digits[i]);
        }
    }
}

/// Different servers have different readable forms.
pub proof fn server_text_injective(x: Seq<u8>, y: Seq<u8>)
    requires
        server_text(x) == server_text(y),
    ensures
        x == y,
{
    let n = "srv_"@.len() as int;
    assert(server_text(x).skip(n) =~= hex_text(x));
    assert(server_text(y).skip(n) =~= hex_text(y));
    hex_injective(x, y);
}

} // verus!
