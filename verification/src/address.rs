//! On-chain account identifiers and the durable address book.
//!
//! An address is an opaque fixed-width identifier; two addresses are equal
//! exactly when their canonical byte encodings match. The address book binds
//! at most one address to each contract role and survives restarts through
//! `save_book` / `load_book`, which invert one another.

use vstd::prelude::*;
use crate::hex::{hex_of, is_hex_seq, unhex, encode_hex, decode_hex, copy_range,
    lemma_hex_of_is_hex_seq, lemma_unhex_hex_of};

verus! {

/// The number of bytes in a canonical address.
pub const ADDRESS_LEN: usize = 32;

/// Whether a byte string is a canonical address encoding.
pub open spec fn is_address_bytes(s: Seq<u8>) -> bool {
    s.len() == ADDRESS_LEN
}

/// An opaque identifier of an on-chain account or contract.
#[derive(Debug)]
pub struct Address {
    bytes: Vec<u8>,
}

impl View for Address {
    type V = Seq<u8>;

    closed spec fn view(&self) -> Seq<u8> {
        self.bytes@
    }
}

/// Byte-wise comparison of two byte vectors.
pub(crate) fn bytes_eq(a: &Vec<u8>, b: &Vec<u8>) -> (r: bool)
    ensures
        r <==> a@ == b@,
{
    if a.len() != b.len() {
        proof {
            assert(a@.len() != b@.len());
        }
        return false;
    }
    let mut i: usize = 0;
    while i < a.len()
        invariant
            i <= a.len(),
            a@.len() == b@.len(),
            forall|j: int| 0 <= j < i ==> a@[j] == b@[j],
        decreases a.len() - i,
    {
        if a[i] != b[i] {
            return false;
        }
        i = i + 1;
    }
    proof {
        assert(a@ =~= b@);
    }
    true
}

impl Address {
    /// Whether this address holds a canonical encoding.
    pub open spec fn wf(&self) -> bool {
        is_address_bytes(self@)
    }

    /// Build an address from its canonical encoding; rejects any other width.
    pub fn from_bytes(bytes: Vec<u8>) -> (r: Option<Address>)
        ensures
            match r {
                Some(a) => a@ == bytes@ && a.wf(),
                None => !is_address_bytes(bytes@),
            },
            r is Some <==> is_address_bytes(bytes@),
    {
        if bytes.len() == ADDRESS_LEN {
            Some(Address { bytes })
        } else {
            None
        }
    }

    /// The canonical encoding.
    pub fn as_bytes(&self) -> (r: &Vec<u8>)
        ensures
            r@ == self@,
    {
        &self.bytes
    }
}

impl Clone for Address {
    fn clone(&self) -> (r: Self)
        ensures
            r@ == self@,
    {
        let mut bytes: Vec<u8> = Vec::new();
        let mut i: usize = 0;
        while i < self.bytes.len()
            invariant
                i <= self.bytes@.len(),
                bytes@ == self.bytes@.take(i as int),
            decreases self.bytes@.len() - i,
        {
            bytes.push(self.bytes[i]);
            i = i + 1;
            proof {
                assert(bytes@ =~= self.bytes@.take(i as int));
            }
        }
        proof {
            assert(self.bytes@.take(self.bytes@.len() as int) =~= self.bytes@);
        }
        Address { bytes }
    }
}

impl PartialEq for Address {
    fn eq(&self, other: &Address) -> (r: bool) {
        bytes_eq(&self.bytes, &other.bytes)
    }
}

impl Eq for Address {

}

impl vstd::std_specs::cmp::PartialEqSpecImpl for Address {
    open spec fn obeys_eq_spec() -> bool {
        true
    }

    open spec fn eq_spec(&self, other: &Address) -> bool {
        self@ == other@
    }
}

/// The logical deployments the address book distinguishes.
#[derive(PartialEq, Eq, Structural, Clone, Copy, Debug)]
pub enum Role {
    /// The counter contract.
    Primary,
    /// The contract that calls the counter.
    Caller,
}

/// Durable mapping from role to the last-known address bound to it.
pub struct AddressBook {
    primary: Option<Address>,
    caller: Option<Address>,
}

/// The mathematical content of an address book: what each role is bound to.
#[verifier::ext_equal]
pub struct BookView {
    pub primary: Option<Seq<u8>>,
    pub caller: Option<Seq<u8>>,
}

impl View for AddressBook {
    type V = BookView;

    closed spec fn view(&self) -> BookView {
        BookView {
            primary: match self.primary {
                Some(a) => Some(a@),
                None => None,
            },
            caller: match self.caller {
                Some(a) => Some(a@),
                None => None,
            },
        }
    }
}

impl BookView {
    /// The binding of one role.
    pub open spec fn of_role(self, role: Role) -> Option<Seq<u8>> {
        match role {
            Role::Primary => self.primary,
            Role::Caller => self.caller,
        }
    }

    /// The view after rebinding one role.
    pub open spec fn with_role(self, role: Role, addr: Seq<u8>) -> BookView {
        match role {
            Role::Primary => BookView { primary: Some(addr), ..self },
            Role::Caller => BookView { caller: Some(addr), ..self },
        }
    }
}

impl AddressBook {
    /// Every bound address holds a canonical encoding.
    pub open spec fn wf(&self) -> bool {
        &&& match self@.primary {
            Some(s) => is_address_bytes(s),
            None => true,
        }
        &&& match self@.caller {
            Some(s) => is_address_bytes(s),
            None => true,
        }
    }

    /// An empty book: no role bound yet.
    pub fn new() -> (r: AddressBook)
        ensures
            r@.primary is None,
            r@.caller is None,
            r.wf(),
    {
        AddressBook { primary: None, caller: None }
    }

    /// The address currently bound to a role, if any.
    pub fn get(&self, role: Role) -> (r: Option<&Address>)
        ensures
            match r {
                Some(a) => self@.of_role(role) == Some(a@),
                None => self@.of_role(role) is None,
            },
    {
        match role {
            Role::Primary => self.primary.as_ref(),
            Role::Caller => self.caller.as_ref(),
        }
    }

    /// Rebind a role, overwriting any previous binding.
    pub fn set(&mut self, role: Role, addr: Address)
        requires
            old(self).wf(),
            addr.wf(),
        ensures
            final(self)@ == old(self)@.with_role(role, addr@),
            final(self).wf(),
    {
        match role {
            Role::Primary => {
                self.primary = Some(addr);
            },
            Role::Caller => {
                self.caller = Some(addr);
            },
        }
    }
}

/// The serialized form of one optional binding: `0x00` for an unbound role,
/// `0x01` followed by the hex of the address for a bound one.
pub open spec fn entry_bytes(e: Option<Seq<u8>>) -> Seq<u8> {
    match e {
        None => seq![0x30u8],
        Some(a) => seq![0x31u8] + hex_of(a),
    }
}

/// The serialized form of a whole book: the primary entry, a separator
/// byte, then the caller entry.
pub open spec fn book_bytes(b: BookView) -> Seq<u8> {
    entry_bytes(b.primary) + seq![0x0au8] + entry_bytes(b.caller)
}

/// Whether every binding of a book view holds a canonical address encoding.
pub open spec fn book_view_wf(b: BookView) -> bool {
    &&& match b.primary {
        Some(s) => is_address_bytes(s),
        None => true,
    }
    &&& match b.caller {
        Some(s) => is_address_bytes(s),
        None => true,
    }
}

/// What one entry of a serialized book, starting at `pos`, stands for:
/// the binding and the position just past the entry.
pub open spec fn parse_entry_at(s: Seq<u8>, pos: int) -> Option<(Option<Seq<u8>>, int)> {
    if pos < s.len() && s[pos] == 0x30 {
        Some((None, pos + 1))
    } else if pos < s.len() && s[pos] == 0x31 && pos + 65 <= s.len() && is_hex_seq(
        s.subrange(pos + 1, pos + 65),
    ) {
        Some((Some(unhex(s.subrange(pos + 1, pos + 65))), pos + 65))
    } else {
        None
    }
}

/// What a serialized book stands for, if it is well formed: the primary
/// entry, the separator, the caller entry, and nothing after them.
pub open spec fn parse_book(s: Seq<u8>) -> Option<BookView> {
    match parse_entry_at(s, 0) {
        None => None,
        Some((p, pos1)) => {
            if pos1 < s.len() && s[pos1] == 0x0a {
                match parse_entry_at(s, pos1 + 1) {
                    None => None,
                    Some((c, pos2)) => {
                        if pos2 == s.len() {
                            Some(BookView { primary: p, caller: c })
                        } else {
                            None
                        }
                    },
                }
            } else {
                None
            }
        },
    }
}

fn parse_entry(input: &Vec<u8>, pos: usize) -> (r: Option<(Option<Address>, usize)>)
    requires
        pos <= input@.len(),
    ensures
        match r {
            Some(e) => {
                &&& parse_entry_at(input@, pos as int) == Some(
                    (
                        match e.0 {
                            Some(a) => Some(a@),
                            None => None,
                        },
                        e.1 as int,
                    ),
                )
                &&& e.1 <= input@.len()
                &&& pos < e.1
                &&& match e.0 {
                    Some(a) => a.wf(),
                    None => true,
                }
            },
            None => parse_entry_at(input@, pos as int) is None,
        },
{
    if pos >= input.len() {
        return None;
    }
    let c = input[pos];
    if c == 0x30 {
        Some((None, pos + 1))
    } else if c == 0x31 {
        if input.len() < 65 || pos > input.len() - 65 {
            return None;
        }
        let hexpart = copy_range(input, pos + 1, pos + 65);
        match decode_hex(&hexpart) {
            Some(d) => {
                proof {
                    lemma_unhex_hex_of(d@);
                    assert(hexpart@.len() == 2 * d@.len());
                }
                match Address::from_bytes(d) {
                    Some(a) => Some((Some(a), pos + 65)),
                    None => {
                        proof {
                            assert(false);
                        }
                        None
                    },
                }
            },
            None => None,
        }
    } else {
        None
    }
}

/// Parse a serialized book back into an address book.
///
/// Returns `None` exactly when the bytes are not the serialization of any
/// book; on success the result is what the bytes stand for.
pub fn load_book(input: &Vec<u8>) -> (r: Option<AddressBook>)
    ensures
        match r {
            Some(b) => parse_book(input@) == Some(b@) && b.wf(),
            None => parse_book(input@) is None,
        },
{
    let first = match parse_entry(input, 0) {
        Some(e) => e,
        None => {
            return None;
        },
    };
    let (primary, pos1) = first;
    if pos1 >= input.len() {
        return None;
    }
    if input[pos1] != 0x0a {
        return None;
    }
    let second = match parse_entry(input, pos1 + 1) {
        Some(e) => e,
        None => {
            return None;
        },
    };
    let (caller, pos2) = second;
    if pos2 != input.len() {
        return None;
    }
    Some(AddressBook { primary, caller })
}

impl AddressBook {
    /// Serialize the book for durable storage; `load_book` inverts this.
    pub fn to_bytes(&self) -> (r: Vec<u8>)
        ensures
            r@ == book_bytes(self@),
    {
        let mut out: Vec<u8> = Vec::new();
        match &self.primary {
            None => {
                out.push(0x30);
            },
            Some(a) => {
                out.push(0x31);
                let mut h = encode_hex(&a.bytes);
                out.append(&mut h);
            },
        }
        proof {
            assert(out@ =~= entry_bytes(self@.primary));
        }
        out.push(0x0a);
        let ghost mid = out@;
        match &self.caller {
            None => {
                out.push(0x30);
            },
            Some(a) => {
                out.push(0x31);
                let mut h = encode_hex(&a.bytes);
                out.append(&mut h);
            },
        }
        proof {
            assert(out@ =~= book_bytes(self@));
        }
        out
    }
}

/// Persistence round trip: a well-formed book's serialization parses back
/// to the very same bindings, so a book survives a restart byte for byte.
pub proof fn lemma_book_roundtrip(bv: BookView)
    requires
        book_view_wf(bv),
    ensures
        parse_book(book_bytes(bv)) == Some(bv),
{
    let s = book_bytes(bv);
    let e1 = entry_bytes(bv.primary);
    let e2 = entry_bytes(bv.caller);
    let p1 = e1.len() as int;
    assert(s.len() == e1.len() + 1 + e2.len());
    match bv.primary {
        None => {
            assert(s[0] == 0x30);
            assert(parse_entry_at(s, 0) == Some((None::<Seq<u8>>, 1int)));
        },
        Some(a) => {
            assert(s[0] == 0x31);
            lemma_hex_of_is_hex_seq(a);
            assert(s.subrange(1, 65) =~= hex_of(a));
            lemma_unhex_hex_of(a);
            assert(parse_entry_at(s, 0) == Some((Some(a), 65int)));
        },
    }
    assert(s[p1] == 0x0a);
    match bv.caller {
        None => {
            assert(s[p1 + 1] == 0x30);
            assert(parse_entry_at(s, p1 + 1) == Some((None::<Seq<u8>>, p1 + 2)));
            assert(p1 + 2 == s.len());
        },
        Some(a) => {
            assert(s[p1 + 1] == 0x31);
            lemma_hex_of_is_hex_seq(a);
            assert(s.subrange(p1 + 2, p1 + 66) =~= hex_of(a));
            lemma_unhex_hex_of(a);
            assert(parse_entry_at(s, p1 + 1) == Some((Some(a), p1 + 66)));
            assert(p1 + 66 == s.len());
        },
    }
}

} // verus!
