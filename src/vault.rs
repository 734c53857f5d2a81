//! The vault: a header, the derived key and the ordered list of entries, and
//! the operations that create, open, change and save it.
use vstd::prelude::*;

use crate::bytes::push_all;
use crate::error::VaultError;
use crate::key_derivation::{
    create_verifier, derive_key_with_salt, derived_key, kdf_accepts,
    key_matches_verifier, password_matches, verifier_of,
};
use crate::primitives::{
    aes256_gcm_decrypt, aes256_gcm_encrypt, aes256_gcm_seal, aes_gcm_max_plaintext, random_bytes,
};
use crate::vault_header::{
    header_error, lemma_header_fields, lemma_header_round_trip, VaultHeader, HEADER_LEN,
};
use crate::vault_entry::{
    decode_entry, encodable, encode_entry, lemma_decode_entry_split, lemma_entry_round_trip,
    round_trips, EntryView, VaultEntry, MAX_FIELD_LEN,
};

verus! {

/// The most entries a vault holds: the count is stored in one byte.
pub const MAX_ENTRIES: usize = 255;

/// The values of a list of entries.
pub open spec fn entries_view(entries: Seq<VaultEntry>) -> Seq<EntryView> {
    entries.map_values(|e: VaultEntry| e@)
}

/// The encodings of the entries, one after the other.
pub open spec fn encode_list(entries: Seq<EntryView>) -> Seq<u8>
    decreases entries.len(),
{
    if entries.len() == 0 {
        Seq::empty()
    } else {
        encode_entry(entries[0]) + encode_list(entries.drop_first())
    }
}

/// The encoding of an entry list: the number of entries in one byte, then
/// each entry in order.
pub open spec fn encode_entries(entries: Seq<EntryView>) -> Seq<u8> {
    seq![entries.len() as u8] + encode_list(entries)
}

/// The `count` entries at the start of `data`, if they are all well formed.
pub open spec fn decode_list(data: Seq<u8>, count: nat) -> Option<Seq<EntryView>>
    decreases count,
{
    if count == 0 {
        Some(Seq::empty())
    } else {
        match decode_entry(data) {
            None => None,
            Some((e, rest)) => match decode_list(rest, (count - 1) as nat) {
                None => None,
                Some(es) => Some(seq![e] + es),
            },
        }
    }
}

/// The entry list that `data` encodes: a count byte, then that many entries.
/// Bytes after the last entry are not looked at.
pub open spec fn decode_entries(data: Seq<u8>) -> Option<Seq<EntryView>> {
    if data.len() == 0 {
        None
    } else {
        decode_list(data.subrange(1, data.len() as int), data[0] as nat)
    }
}

/// Every entry fits the format, and there are no more than a count byte holds.
pub open spec fn list_encodable(entries: Seq<EntryView>) -> bool {
    entries.len() <= MAX_ENTRIES && forall|i: int| 0 <= i < entries.len() ==> encodable(#[trigger] entries[i])
}

proof fn lemma_encode_list_append(a: Seq<EntryView>, b: Seq<EntryView>)
    ensures
        encode_list(a + b) == encode_list(a) + encode_list(b),
    decreases a.len(),
{
    if a.len() == 0 {
        assert(a + b == b);
    } else {
        assert((a + b).drop_first() == a.drop_first() + b);
        lemma_encode_list_append(a.drop_first(), b);
    }
}

proof fn lemma_encode_list_push(entries: Seq<EntryView>, e: EntryView)
    ensures
        encode_list(entries.push(e)) == encode_list(entries) + encode_entry(e),
{
    lemma_encode_list_append(entries, seq![e]);
    assert(seq![e].drop_first() == Seq::<EntryView>::empty());
    assert(encode_list(Seq::<EntryView>::empty()) == Seq::<u8>::empty());
    assert(encode_list(seq![e]) == encode_entry(e) + Seq::<u8>::empty());
    assert(encode_entry(e) + Seq::<u8>::empty() == encode_entry(e));
    assert(entries + seq![e] == entries.push(e));
}

/// An encoded entry list is at most 768 bytes per entry long.
proof fn lemma_encode_list_len(entries: Seq<EntryView>)
    requires
        forall|i: int| 0 <= i < entries.len() ==> encodable(#[trigger] entries[i]),
    ensures
        encode_list(entries).len() <= 768 * entries.len(),
    decreases entries.len(),
{
    if entries.len() > 0 {
        assert(encodable(entries[0]));
        assert forall|i: int| 0 <= i < entries.drop_first().len() implies encodable(
            #[trigger] entries.drop_first()[i],
        ) by {
            assert(entries.drop_first()[i] == entries[i + 1]);
        }
        lemma_encode_list_len(entries.drop_first());
    }
}

proof fn lemma_list_round_trip(entries: Seq<EntryView>, rest: Seq<u8>)
    requires
        forall|i: int| 0 <= i < entries.len() ==> round_trips(#[trigger] entries[i]),
    ensures
        decode_list(encode_list(entries) + rest, entries.len()) == Some(entries),
    decreases entries.len(),
{
    if entries.len() > 0 {
        let tail = entries.drop_first();
        assert forall|i: int| 0 <= i < tail.len() implies round_trips(#[trigger] tail[i]) by {
            assert(tail[i] == entries[i + 1]);
        }
        assert(round_trips(entries[0]));
        lemma_list_round_trip(tail, rest);
        assert(encode_list(entries) + rest == encode_entry(entries[0]) + (encode_list(tail)
            + rest));
        lemma_entry_round_trip(entries[0], encode_list(tail) + rest);
        assert(seq![entries[0]] + tail == entries);
    }
}

/// Decoding an encoded entry list gives the list back, for every list of at
/// most 255 entries whose fields fit their length bytes and that has no
/// user name present but empty.
pub proof fn lemma_entries_round_trip(entries: Seq<EntryView>)
    requires
        entries.len() <= MAX_ENTRIES,
        forall|i: int| 0 <= i < entries.len() ==> round_trips(#[trigger] entries[i]),
    ensures
        decode_entries(encode_entries(entries)) == Some(entries),
{
    let data = encode_entries(entries);
    assert(data.subrange(1, data.len() as int) == encode_list(entries) + Seq::<u8>::empty());
    lemma_list_round_trip(entries, Seq::empty());
}

impl Vault {
    /// Encodes an entry list: the count byte, then each entry in order.
    pub fn serialize(entries: &Vec<VaultEntry>) -> (r: Vec<u8>)
        requires
            list_encodable(entries_view(entries@)),
        ensures
            r@ == encode_entries(entries_view(entries@)),
    {
        let ghost view = entries_view(entries@);
        let mut data: Vec<u8> = Vec::new();
        data.push(entries.len() as u8);
        let mut i: usize = 0;
        while i < entries.len()
            invariant
                i <= entries@.len(),
                view == entries_view(entries@),
                list_encodable(view),
                data@ == seq![entries@.len() as u8] + encode_list(view.take(i as int)),
            decreases entries@.len() - i,
        {
            assert(view[i as int] == entries@[i as int]@);
            let bytes = entries[i].serialize();
            proof {
                lemma_encode_list_push(view.take(i as int), view[i as int]);
                assert(view.take(i as int).push(view[i as int]) == view.take(i + 1));
            }
            push_all(&mut data, bytes.as_slice());
            i = i + 1;
        }
        assert(view.take(entries@.len() as int) == view);
        data
    }
}

/// `decoded` followed by what `decode_list` gives, if it gives anything.
pub open spec fn prepend(decoded: Seq<EntryView>, rest: Option<Seq<EntryView>>) -> Option<
    Seq<EntryView>,
> {
    match rest {
        Some(es) => Some(decoded + es),
        None => None,
    }
}

proof fn lemma_decode_list_step(
    data: Seq<u8>,
    count: nat,
    decoded: Seq<EntryView>,
    e: EntryView,
    rest: Seq<u8>,
)
    requires
        count > 0,
        decode_entry(data) == Some((e, rest)),
    ensures
        prepend(decoded, decode_list(data, count)) == prepend(
            decoded.push(e),
            decode_list(rest, (count - 1) as nat),
        ),
{
    match decode_list(rest, (count - 1) as nat) {
        Some(es) => {
            assert(decoded + (seq![e] + es) == decoded.push(e) + es);
        },
        None => {},
    }
}

/// The number of bytes an entry takes once encoded.
fn encoded_len(entry: &VaultEntry) -> (r: usize)
    requires
        encodable(entry@),
    ensures
        r == encode_entry(entry@).len(),
{
    let username_len = match &entry.username {
        Some(u) => u.as_str().as_bytes().len(),
        None => 0,
    };
    3 + entry.service.as_str().as_bytes().len() + username_len + entry.password.len()
}

impl Vault {
    /// Decodes an entry list. Fails with `CorruptEntryData` where the count byte
    /// is missing, a field runs past the end of `data`, or a service or user name
    /// is not valid UTF-8. Bytes after the last entry are not looked at.
    pub fn deserialize(data: &[u8]) -> (r: Result<Vec<VaultEntry>, VaultError>)
        ensures
            match r {
                Ok(entries) => decode_entries(data@) == Some(entries_view(entries@)) && list_encodable(
                    entries_view(entries@),
                ),
                Err(e) => decode_entries(data@) is None && e == VaultError::CorruptEntryData,
            },
    {
        let len = data.len();
        if len == 0 {
            return Err(VaultError::CorruptEntryData);
        }
        let count = data[0] as usize;
        let mut index: usize = 1;
        let mut entries: Vec<VaultEntry> = Vec::new();
        let mut i: usize = 0;
        assert(entries_view(entries@) + Seq::<EntryView>::empty() == Seq::<EntryView>::empty());
        assert(prepend(entries_view(entries@), decode_list(data@.subrange(1, len as int), count as nat))
            == decode_entries(data@));
        while i < count
            invariant
                len == data@.len(),
                count == data@[0],
                i <= count,
                1 <= index <= len,
                entries@.len() == i,
                forall|j: int| 0 <= j < i ==> encodable(#[trigger] entries_view(entries@)[j]),
                decode_entries(data@) == prepend(
                    entries_view(entries@),
                    decode_list(data@.subrange(index as int, len as int), (count - i) as nat),
                ),
            decreases count - i,
        {
            let ghost here = data@.subrange(index as int, len as int);
            let entry = match VaultEntry::deserialize(&data[index..len]) {
                Ok(e) => e,
                Err(e) => {
                    return Err(e);
                },
            };
            let ghost (v, rest) = decode_entry(here)->0;
            proof {
                lemma_decode_entry_split(here);
                lemma_decode_list_step(here, (count - i) as nat, entries_view(entries@), v, rest);
            }
            let used = encoded_len(&entry);
            assert(rest == data@.subrange(index + used, len as int));
            let ghost old_entries = entries_view(entries@);
            entries.push(entry);
            index = index + used;
            i = i + 1;
            assert(entries_view(entries@) == old_entries.push(v));
        }
        Ok(entries)
    }
}

/// What decrypting `ciphertext` under `key` and `nonce` may give: a plaintext
/// only if it is 16 bytes shorter and encrypts to exactly `ciphertext`; every
/// plaintext of at most 2^36 bytes that does; and `AuthenticationFailure`
/// otherwise.
pub open spec fn decrypt_outcome(
    key: Seq<u8>,
    nonce: Seq<u8>,
    ciphertext: Seq<u8>,
    r: Result<Seq<u8>, VaultError>,
) -> bool {
    &&& r matches Ok(p) ==> p.len() + 16 == ciphertext.len() && aes256_gcm_seal(key, nonce, p)
        == ciphertext
    &&& r matches Err(e) ==> e == VaultError::AuthenticationFailure
    &&& forall|p: Seq<u8>|
        p.len() <= aes_gcm_max_plaintext() && #[trigger] aes256_gcm_seal(key, nonce, p) == ciphertext
            ==> r == Ok::<Seq<u8>, VaultError>(p)
}

/// The value of a byte-vector result.
pub open spec fn bytes_result(r: Result<Vec<u8>, VaultError>) -> Result<Seq<u8>, VaultError> {
    match r {
        Ok(v) => Ok(v@),
        Err(e) => Err(e),
    }
}

/// Decrypting what was encrypted under the same key and nonce gives the data
/// back.
pub proof fn lemma_decrypt_encrypted(
    key: Seq<u8>,
    nonce: Seq<u8>,
    data: Seq<u8>,
    r: Result<Seq<u8>, VaultError>,
)
    requires
        data.len() <= aes_gcm_max_plaintext(),
        decrypt_outcome(key, nonce, aes256_gcm_seal(key, nonce, data), r),
    ensures
        r == Ok::<Seq<u8>, VaultError>(data),
{
}

/// Decryption never hands back a plaintext silently changed: whatever it
/// returns encrypts, under the same key and nonce, to exactly the ciphertext
/// it was given. A ciphertext that is not such an encryption (another key, a
/// flipped bit) fails with `AuthenticationFailure`.
pub proof fn lemma_decrypt_authentic(
    key: Seq<u8>,
    nonce: Seq<u8>,
    ciphertext: Seq<u8>,
    r: Result<Seq<u8>, VaultError>,
)
    requires
        decrypt_outcome(key, nonce, ciphertext, r),
    ensures
        r matches Ok(p) ==> aes256_gcm_seal(key, nonce, p) == ciphertext,
        (forall|p: Seq<u8>| aes256_gcm_seal(key, nonce, p) != ciphertext) ==> r == Err::<
            Seq<u8>,
            VaultError,
        >(VaultError::AuthenticationFailure),
{
}

/// The bytes of a vault file: the header, then the entry list encrypted under
/// `key` and the header's nonce.
pub open spec fn vault_file(header: VaultHeader, key: Seq<u8>, entries: Seq<EntryView>) -> Seq<u8> {
    header.spec_bytes() + aes256_gcm_seal(key, header.nonce@, encode_entries(entries))
}

/// The entries a decrypted payload holds, or `CorruptEntryData`.
pub open spec fn entries_from_plaintext(p: Seq<u8>) -> Result<Seq<EntryView>, VaultError> {
    match decode_entries(p) {
        Some(es) => Ok(es),
        None => Err(VaultError::CorruptEntryData),
    }
}

/// What opening the vault file `data` with `password` may give: the header
/// error if the header is bad; `InvalidPassword` if the password does not
/// match the verifier; otherwise the entries of a plaintext that encrypts to
/// exactly the ciphertext under the derived key and the header's nonce (and
/// `CorruptEntryData` if it does not decode), where every such plaintext of
/// at most 2^36 bytes gives the same result; or `AuthenticationFailure`.
pub open spec fn open_outcome(
    password: Seq<char>,
    data: Seq<u8>,
    r: Result<Seq<EntryView>, VaultError>,
) -> bool {
    match header_error(data) {
        Some(e) => r == Err::<Seq<EntryView>, VaultError>(e),
        None => {
            let salt = data.subrange(6, 22);
            let verifier = data.subrange(22, 54);
            let nonce = data.subrange(54, 66);
            let ciphertext = data.subrange(HEADER_LEN as int, data.len() as int);
            let key = derived_key(password, salt);
            if !password_matches(password, salt, verifier) {
                r == Err::<Seq<EntryView>, VaultError>(VaultError::InvalidPassword)
            } else {
                &&& (r == Err::<Seq<EntryView>, VaultError>(VaultError::AuthenticationFailure)
                    || exists|p: Seq<u8>|
                    #[trigger] aes256_gcm_seal(key, nonce, p) == ciphertext && r
                        == entries_from_plaintext(p))
                &&& forall|p: Seq<u8>|
                    p.len() <= aes_gcm_max_plaintext() && #[trigger] aes256_gcm_seal(key, nonce, p)
                        == ciphertext ==> r == entries_from_plaintext(p)
            }
        },
    }
}

/// The entries of an opened vault, or the error.
pub open spec fn opened_entries(r: Result<Vault, VaultError>) -> Result<Seq<EntryView>, VaultError> {
    match r {
        Ok(v) => Ok(v.entries_view()),
        Err(e) => Err(e),
    }
}

/// An open vault: its header, the key derived from the master password, and
/// the entries in the order they were added.
pub struct Vault {
    header: VaultHeader,
    entries: Vec<VaultEntry>,
    key: [u8; 32],
}

impl Vault {
    /// The header is of the supported format, the entries fit the file format,
    /// and the verifier is the one made from the key.
    pub closed spec fn wf(&self) -> bool {
        &&& self.header.wf()
        &&& list_encodable(entries_view(self.entries@))
        &&& self.header.verifier@ == verifier_of(self.key@)
    }

    /// The header.
    pub closed spec fn spec_header(&self) -> VaultHeader {
        self.header
    }

    /// The entries, in order.
    pub closed spec fn spec_entries(&self) -> Seq<VaultEntry> {
        self.entries@
    }

    /// The derived key; it is never written out.
    pub closed spec fn spec_key(&self) -> Seq<u8> {
        self.key@
    }

    /// The values of the entries.
    pub open spec fn entries_view(&self) -> Seq<EntryView> {
        entries_view(self.spec_entries())
    }

    /// The bytes of the vault file as it would be written now.
    pub open spec fn file_image(&self) -> Seq<u8> {
        vault_file(self.spec_header(), self.spec_key(), self.entries_view())
    }

    /// The vault's key is the one `password` derives under the vault's salt.
    pub open spec fn unlocked_by(&self, password: Seq<char>) -> bool {
        kdf_accepts(password) && self.spec_key() == derived_key(password, self.spec_header().salt@)
    }

    /// The header is of the supported format and its verifier is the one made
    /// from the key.
    pub open spec fn keys_consistent(&self) -> bool {
        self.spec_header().wf() && self.spec_header().verifier@ == verifier_of(self.spec_key())
    }

    /// Magic, version, salt, verifier and key are those of `other`; only the
    /// nonce may differ.
    pub open spec fn same_keys(&self, other: &Vault) -> bool {
        &&& self.keys_consistent()
        &&& self.spec_header().magic == other.spec_header().magic
        &&& self.spec_header().version == other.spec_header().version
        &&& self.spec_header().salt == other.spec_header().salt
        &&& self.spec_header().verifier == other.spec_header().verifier
        &&& self.spec_key() == other.spec_key()
    }

    /// A vault with no entries for `master_password`, under the given salt
    /// and nonce.
    pub fn create(master_password: &str, salt: [u8; 16], nonce: [u8; 12]) -> (r: Result<
        Vault,
        VaultError,
    >)
        ensures
            r is Ok <==> kdf_accepts(master_password@),
            r matches Ok(v) ==> {
                &&& v.wf()
                &&& v.keys_consistent()
                &&& v.unlocked_by(master_password@)
                &&& v.entries_view() == Seq::<EntryView>::empty()
                &&& v.spec_header().salt == salt
                &&& v.spec_header().nonce == nonce
            },
            r matches Err(e) ==> e == VaultError::KdfFailure,
    {
        let key = derive_key_with_salt(master_password, &salt)?;
        let verifier = create_verifier(&key);
        let vault = Vault { header: VaultHeader::new(salt, verifier, nonce), entries: Vec::new(), key };
        assert(vault.entries_view() == Seq::<EntryView>::empty());
        Ok(vault)
    }

    /// A vault with no entries for `master_password`, under a fresh random
    /// salt and nonce (see `create`). The caller saves it to make it durable.
    pub fn new(master_password: &str) -> (r: Result<Vault, VaultError>)
        ensures
            r matches Ok(v) ==> {
                &&& v.wf()
                &&& v.keys_consistent()
                &&& v.unlocked_by(master_password@)
                &&& v.entries_view() == Seq::<EntryView>::empty()
            },
            r matches Err(e) ==> e == VaultError::RandomnessFailure || (e == VaultError::KdfFailure
                && !kdf_accepts(master_password@)),
            kdf_accepts(master_password@) ==> (r is Ok || r == Err::<Vault, VaultError>(
                VaultError::RandomnessFailure,
            )),
    {
        let salt: [u8; 16] = match random_bytes() {
            Ok(s) => s,
            Err(_) => {
                return Err(VaultError::RandomnessFailure);
            },
        };
        let nonce: [u8; 12] = match random_bytes() {
            Ok(n) => n,
            Err(_) => {
                return Err(VaultError::RandomnessFailure);
            },
        };
        Self::create(master_password, salt, nonce)
    }

    /// Encrypts `plaintext` with AES-256-GCM under `key` and `nonce`; fails
    /// with `EncryptionFailure` only on a plaintext longer than 2^36 bytes.
    pub fn encrypt(key: &[u8; 32], nonce: &[u8; 12], plaintext: &[u8]) -> (r: Result<
        Vec<u8>,
        VaultError,
    >)
        ensures
            r is Ok <==> plaintext@.len() <= aes_gcm_max_plaintext(),
            r matches Ok(c) ==> c@ == aes256_gcm_seal(key@, nonce@, plaintext@) && c@.len()
                == plaintext@.len() + 16,
            r matches Err(e) ==> e == VaultError::EncryptionFailure,
    {
        match aes256_gcm_encrypt(key, nonce, plaintext) {
            Ok(c) => Ok(c),
            Err(_) => Err(VaultError::EncryptionFailure),
        }
    }

    /// Decrypts and authenticates `ciphertext` under `key` and `nonce`; fails
    /// with `AuthenticationFailure` when the tag does not verify.
    pub fn decrypt(key: &[u8; 32], nonce: &[u8; 12], ciphertext: &[u8]) -> (r: Result<
        Vec<u8>,
        VaultError,
    >)
        ensures
            decrypt_outcome(key@, nonce@, ciphertext@, bytes_result(r)),
    {
        match aes256_gcm_decrypt(key, nonce, ciphertext) {
            Ok(p) => Ok(p),
            Err(_) => Err(VaultError::AuthenticationFailure),
        }
    }

    /// Opens the vault file `data` with `master_password`: reads and checks
    /// the header, checks the password against the verifier (in constant
    /// time, and before any decryption), then decrypts and decodes the
    /// entries.
    pub fn open_existing(master_password: &str, data: &[u8]) -> (r: Result<Vault, VaultError>)
        ensures
            open_outcome(master_password@, data@, opened_entries(r)),
            r matches Ok(v) ==> {
                &&& v.wf()
                &&& v.unlocked_by(master_password@)
                &&& v.spec_header().spec_bytes() == data@.subrange(0, HEADER_LEN as int)
            },
    {
        let header = VaultHeader::read(data)?;
        proof {
            lemma_header_fields(header, data@);
        }
        let key = match derive_key_with_salt(master_password, &header.salt) {
            Ok(k) => k,
            Err(_) => {
                return Err(VaultError::InvalidPassword);
            },
        };
        if !key_matches_verifier(&key, &header.verifier) {
            return Err(VaultError::InvalidPassword);
        }
        let ciphertext = &data[HEADER_LEN..data.len()];
        let plaintext = match Self::decrypt(&key, &header.nonce, ciphertext) {
            Ok(p) => p,
            Err(e) => {
                return Err(e);
            },
        };
        let entries = match Self::deserialize(plaintext.as_slice()) {
            Ok(es) => es,
            Err(e) => {
                assert(entries_from_plaintext(plaintext@) == Err::<Seq<EntryView>, VaultError>(e));
                return Err(e);
            },
        };
        let vault = Vault { header, entries, key };
        assert(entries_from_plaintext(plaintext@) == opened_entries(Ok::<Vault, VaultError>(vault)));
        Ok(vault)
    }

    /// Encrypts the entries under `nonce`, which becomes the header's nonce,
    /// and returns the bytes of the whole vault file.
    pub fn save_with_nonce(&mut self, nonce: [u8; 12]) -> (r: Result<Vec<u8>, VaultError>)
        requires
            old(self).wf(),
        ensures
            final(self).wf(),
            final(self).same_keys(&*old(self)),
            final(self).spec_entries() == old(self).spec_entries(),
            final(self).spec_header().nonce == nonce,
            r matches Ok(bytes) && bytes@ == final(self).file_image(),
    {
        self.header.nonce = nonce;
        let mut data = self.header.write();
        let plaintext = Self::serialize(&self.entries);
        proof {
            lemma_encode_list_len(entries_view(self.entries@));
        }
        let ciphertext = Self::encrypt(&self.key, &self.header.nonce, plaintext.as_slice())?;
        push_all(&mut data, ciphertext.as_slice());
        Ok(data)
    }

    /// Saves under a fresh random nonce: returns the bytes of the whole vault
    /// file for the caller to write. On failure the vault is unchanged.
    pub fn save(&mut self) -> (r: Result<Vec<u8>, VaultError>)
        requires
            old(self).wf(),
        ensures
            final(self).wf(),
            final(self).same_keys(&*old(self)),
            final(self).spec_entries() == old(self).spec_entries(),
            r matches Ok(bytes) ==> bytes@ == final(self).file_image(),
            r matches Err(e) ==> e == VaultError::RandomnessFailure && *final(self) == *old(self),
    {
        let nonce: [u8; 12] = match random_bytes() {
            Ok(n) => n,
            Err(_) => {
                return Err(VaultError::RandomnessFailure);
            },
        };
        self.save_with_nonce(nonce)
    }

    /// Whether every field of `entry` fits its one-byte length prefix.
    pub fn fits(entry: &VaultEntry) -> (r: bool)
        ensures
            r == encodable(entry@),
    {
        let username_fits = match &entry.username {
            Some(u) => u.as_str().as_bytes().len() <= MAX_FIELD_LEN,
            None => true,
        };
        entry.service.as_str().as_bytes().len() <= MAX_FIELD_LEN && username_fits
            && entry.password.len() <= MAX_FIELD_LEN
    }

    /// Appends `entry` to the list, then saves: returns the bytes of the whole
    /// vault file for the caller to write. Fails with `VaultFull` when the
    /// vault already holds 255 entries and with `EntryTooLarge` when a field
    /// is longer than 255 bytes, in both cases leaving the vault unchanged;
    /// fails as `save` does otherwise, with the entry appended in memory.
    pub fn add_entry(&mut self, entry: VaultEntry) -> (r: Result<Vec<u8>, VaultError>)
        requires
            old(self).wf(),
        ensures
            final(self).wf(),
            old(self).spec_entries().len() >= MAX_ENTRIES ==> r == Err::<Vec<u8>, VaultError>(
                VaultError::VaultFull,
            ) && *final(self) == *old(self),
            old(self).spec_entries().len() < MAX_ENTRIES && !encodable(entry@) ==> r == Err::<
                Vec<u8>,
                VaultError,
            >(VaultError::EntryTooLarge) && *final(self) == *old(self),
            old(self).spec_entries().len() < MAX_ENTRIES && encodable(entry@) ==> {
                &&& final(self).same_keys(&*old(self))
                &&& final(self).spec_entries() == old(self).spec_entries().push(entry)
                &&& r matches Ok(bytes) ==> bytes@ == final(self).file_image()
                &&& r matches Err(e) ==> e == VaultError::RandomnessFailure
            },
    {
        if self.entries.len() >= MAX_ENTRIES {
            return Err(VaultError::VaultFull);
        }
        if !Self::fits(&entry) {
            return Err(VaultError::EntryTooLarge);
        }
        let ghost before = entries_view(self.entries@);
        self.entries.push(entry);
        assert(entries_view(self.entries@) == before.push(entry@));
        self.save()
    }

    /// The entries, in the order they were added.
    pub fn get_entries(&self) -> (r: &Vec<VaultEntry>)
        ensures
            r@ == self.spec_entries(),
    {
        &self.entries
    }

    /// The entry at `index`, if there is one.
    pub fn get_entry(&self, index: usize) -> (r: Option<&VaultEntry>)
        ensures
            index < self.spec_entries().len() ==> r == Some(&self.spec_entries()[index as int]),
            index >= self.spec_entries().len() ==> r is None,
    {
        if index < self.entries.len() {
            Some(&self.entries[index])
        } else {
            None
        }
    }
}

/// Opening the file image of a vault with a password that unlocks it gives
/// back exactly its entries, provided none of them has a user name that is
/// present but empty.
pub proof fn lemma_saved_vault_reopens(
    password: Seq<char>,
    vault: Vault,
    r: Result<Seq<EntryView>, VaultError>,
)
    requires
        vault.wf(),
        vault.unlocked_by(password),
        forall|i: int|
            0 <= i < vault.entries_view().len() ==> round_trips(#[trigger] vault.entries_view()[i]),
        open_outcome(password, vault.file_image(), r),
    ensures
        r == Ok::<Seq<EntryView>, VaultError>(vault.entries_view()),
{
    let h = vault.spec_header();
    let data = vault.file_image();
    let entries = vault.entries_view();
    let plaintext = encode_entries(entries);
    lemma_header_round_trip(h, h);
    assert(data.subrange(0, HEADER_LEN as int) == h.spec_bytes());
    assert(header_error(data) == header_error(h.spec_bytes())) by {
        assert(data.subrange(0, 4) == h.spec_bytes().subrange(0, 4));
    }
    lemma_header_fields(h, data);
    assert(data.subrange(HEADER_LEN as int, data.len() as int) == aes256_gcm_seal(
        vault.spec_key(),
        h.nonce@,
        plaintext,
    ));
    lemma_encode_list_len(entries);
    lemma_entries_round_trip(entries);
    assert(plaintext.len() <= aes_gcm_max_plaintext());
}

/// Opening the file image of a vault with a password whose key does not
/// reproduce the vault's verifier fails with `InvalidPassword`.
pub proof fn lemma_wrong_password_rejected(
    password: Seq<char>,
    vault: Vault,
    r: Result<Seq<EntryView>, VaultError>,
)
    requires
        vault.wf(),
        !password_matches(password, vault.spec_header().salt@, vault.spec_header().verifier@),
        open_outcome(password, vault.file_image(), r),
    ensures
        r == Err::<Seq<EntryView>, VaultError>(VaultError::InvalidPassword),
{
    let h = vault.spec_header();
    let data = vault.file_image();
    lemma_header_round_trip(h, h);
    assert(data.subrange(0, HEADER_LEN as int) == h.spec_bytes());
    assert(header_error(data) == header_error(h.spec_bytes())) by {
        assert(data.subrange(0, 4) == h.spec_bytes().subrange(0, 4));
    }
    lemma_header_fields(h, data);
}

} // verus!
