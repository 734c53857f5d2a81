//! One credential and its length-prefixed binary encoding.
use vstd::prelude::*;
use vstd::utf8::{decode_utf8, decode_utf8_encode_utf8, encode_utf8, valid_utf8};

use crate::bytes::push_all;
use crate::error::VaultError;
use crate::primitives::utf8_str;

verus! {

/// The longest field a one-byte length prefix can announce.
pub const MAX_FIELD_LEN: usize = 255;

/// A credential: the service it is for, an optional user name, and the
/// password bytes.
pub struct VaultEntry {
    pub service: String,
    pub username: Option<String>,
    pub password: Vec<u8>,
}

/// The value of an entry: its fields as characters and bytes.
pub struct EntryView {
    pub service: Seq<char>,
    pub username: Option<Seq<char>>,
    pub password: Seq<u8>,
}

impl View for VaultEntry {
    type V = EntryView;

    open spec fn view(&self) -> EntryView {
        EntryView {
            service: self.service@,
            username: match self.username {
                Some(u) => Some(u@),
                None => None,
            },
            password: self.password@,
        }
    }
}

/// A field as stored: its length in one byte, then its bytes.
pub open spec fn field_bytes(bytes: Seq<u8>) -> Seq<u8> {
    seq![bytes.len() as u8] + bytes
}

/// The UTF-8 bytes of a user name; an absent one has none.
pub open spec fn username_bytes(username: Option<Seq<char>>) -> Seq<u8> {
    match username {
        Some(u) => encode_utf8(u),
        None => Seq::empty(),
    }
}

/// The encoding of an entry: service, user name and password, each as a field.
pub open spec fn encode_entry(e: EntryView) -> Seq<u8> {
    field_bytes(encode_utf8(e.service)) + field_bytes(username_bytes(e.username)) + field_bytes(
        e.password,
    )
}

/// Every field of the entry fits its one-byte length prefix.
pub open spec fn encodable(e: EntryView) -> bool {
    &&& encode_utf8(e.service).len() <= MAX_FIELD_LEN
    &&& username_bytes(e.username).len() <= MAX_FIELD_LEN
    &&& e.password.len() <= MAX_FIELD_LEN
}

/// The entry survives encoding and decoding unchanged: it fits, and it has no
/// user name that is present but empty (that one reads back as absent).
pub open spec fn round_trips(e: EntryView) -> bool {
    encodable(e) && e.username != Some(Seq::<char>::empty())
}

/// The field at the start of `data`, and what follows it.
pub open spec fn take_field(data: Seq<u8>) -> Option<(Seq<u8>, Seq<u8>)> {
    if data.len() >= 1 && data.len() >= 1 + data[0] {
        Some((data.subrange(1, 1 + data[0]), data.subrange(1 + data[0], data.len() as int)))
    } else {
        None
    }
}

/// The entry at the start of `data`, and what follows it; `None` if a field
/// runs past the end or the service or user name is not valid UTF-8. A user
/// name of length zero is absent.
pub open spec fn decode_entry(data: Seq<u8>) -> Option<(EntryView, Seq<u8>)> {
    match take_field(data) {
        None => None,
        Some((service, rest1)) => match take_field(rest1) {
            None => None,
            Some((username, rest2)) => match take_field(rest2) {
                None => None,
                Some((password, rest3)) => {
                    if valid_utf8(service) && valid_utf8(username) {
                        Some(
                            (
                                EntryView {
                                    service: decode_utf8(service),
                                    username: if username.len() == 0 {
                                        None
                                    } else {
                                        Some(decode_utf8(username))
                                    },
                                    password,
                                },
                                rest3,
                            ),
                        )
                    } else {
                        None
                    }
                },
            },
        },
    }
}

/// A field of at most 255 bytes, followed by anything, is read back as itself.
proof fn lemma_take_field(bytes: Seq<u8>, rest: Seq<u8>)
    requires
        bytes.len() <= MAX_FIELD_LEN,
    ensures
        take_field(field_bytes(bytes) + rest) == Some((bytes, rest)),
{
    let d = field_bytes(bytes) + rest;
    assert(d.subrange(1, 1 + d[0]) == bytes);
    assert(d.subrange(1 + d[0], d.len() as int) == rest);
}

/// Decoding an encoded entry that round-trips gives the entry back, and the
/// bytes that followed it.
pub proof fn lemma_entry_round_trip(e: EntryView, rest: Seq<u8>)
    requires
        round_trips(e),
    ensures
        decode_entry(encode_entry(e) + rest) == Some((e, rest)),
{
    let s = encode_utf8(e.service);
    let u = username_bytes(e.username);
    let p = e.password;
    broadcast use vstd::utf8::encode_utf8_valid_utf8, vstd::utf8::encode_utf8_decode_utf8;

    assert(encode_entry(e) + rest == field_bytes(s) + (field_bytes(u) + (field_bytes(p) + rest)));
    lemma_take_field(s, field_bytes(u) + (field_bytes(p) + rest));
    lemma_take_field(u, field_bytes(p) + rest);
    lemma_take_field(p, rest);
    assert(valid_utf8(Seq::<u8>::empty())) by {
        assert(encode_utf8(Seq::<char>::empty()) == Seq::<u8>::empty());
    }
    if e.username is Some {
        assert(u.len() != 0) by {
            if u.len() == 0 {
                assert(decode_utf8(u) == e.username->0);
                assert(decode_utf8(Seq::<u8>::empty()) == Seq::<char>::empty());
            }
        }
    }
}

/// What `decode_entry` accepts is an encoded entry followed by the rest.
pub proof fn lemma_decode_entry_split(data: Seq<u8>)
    requires
        decode_entry(data) is Some,
    ensures
        ({
            let (e, rest) = decode_entry(data)->0;
            data == encode_entry(e) + rest && encodable(e)
        }),
{
    let (service, rest1) = take_field(data)->0;
    let (username, rest2) = take_field(rest1)->0;
    let (password, rest3) = take_field(rest2)->0;
    broadcast use vstd::utf8::decode_utf8_encode_utf8;

    let (e, rest) = decode_entry(data)->0;
    assert(encode_utf8(e.service) == service);
    assert(username_bytes(e.username) == username);
    assert(data == field_bytes(service) + rest1);
    assert(rest1 == field_bytes(username) + rest2);
    assert(rest2 == field_bytes(password) + rest3);
}

impl VaultEntry {
    /// Encodes the entry: for service, user name (length 0 when absent) and
    /// password in turn, one length byte and then the bytes.
    pub fn serialize(&self) -> (r: Vec<u8>)
        requires
            encodable(self@),
        ensures
            r@ == encode_entry(self@),
    {
        let mut data: Vec<u8> = Vec::new();
        let service = self.service.as_str().as_bytes();
        data.push(service.len() as u8);
        push_all(&mut data, service);
        match &self.username {
            Some(username) => {
                let username = username.as_str().as_bytes();
                data.push(username.len() as u8);
                push_all(&mut data, username);
            },
            None => {
                data.push(0u8);
            },
        }
        data.push(self.password.len() as u8);
        push_all(&mut data, self.password.as_slice());
        data
    }

    /// Decodes the entry at the start of `data`; bytes after it are not looked
    /// at. Fails with `CorruptEntryData` where a field runs past the end of
    /// `data` or the service or user name is not valid UTF-8.
    pub fn deserialize(data: &[u8]) -> (r: Result<VaultEntry, VaultError>)
        ensures
            r is Ok <==> decode_entry(data@) is Some,
            r matches Ok(e) ==> (decode_entry(data@) matches Some((v, _)) && v == e@),
            r matches Err(err) ==> err == VaultError::CorruptEntryData,
    {
        let len = data.len();
        if len < 1 {
            return Err(VaultError::CorruptEntryData);
        }
        let service_len = data[0] as usize;
        if len - 1 < service_len {
            return Err(VaultError::CorruptEntryData);
        }
        let service_end = 1 + service_len;
        if len - service_end < 1 {
            return Err(VaultError::CorruptEntryData);
        }
        let username_len = data[service_end] as usize;
        if len - service_end - 1 < username_len {
            return Err(VaultError::CorruptEntryData);
        }
        let username_end = service_end + 1 + username_len;
        if len - username_end < 1 {
            return Err(VaultError::CorruptEntryData);
        }
        let password_len = data[username_end] as usize;
        if len - username_end - 1 < password_len {
            return Err(VaultError::CorruptEntryData);
        }
        let password_end = username_end + 1 + password_len;
        let ghost d = data@;
        proof {
            let rest1 = d.subrange(service_end as int, d.len() as int);
            let rest2 = rest1.subrange(1 + username_len, rest1.len() as int);
            assert(rest2 == d.subrange(username_end as int, d.len() as int));
            assert(rest1.subrange(1, 1 + username_len) == d.subrange(
                service_end + 1,
                username_end as int,
            ));
            assert(rest2.subrange(1, 1 + password_len) == d.subrange(
                username_end + 1,
                password_end as int,
            ));
        }
        let service = match utf8_str(&data[1..service_end]) {
            Some(s) => s.to_owned(),
            None => {
                return Err(VaultError::CorruptEntryData);
            },
        };
        let username = match utf8_str(&data[service_end + 1..username_end]) {
            Some(u) => {
                if username_len == 0 {
                    None
                } else {
                    Some(u.to_owned())
                }
            },
            None => {
                return Err(VaultError::CorruptEntryData);
            },
        };
        let password = vstd::slice::slice_to_vec(&data[username_end + 1..password_end]);
        Ok(VaultEntry { service, username, password })
    }
}

} // verus!
